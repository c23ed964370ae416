//! What the encoders share.

use amm_rpc::asset::{AssetId, Bps, ChainId, Price};
use amm_rpc::execution::config::{ChainConfig, Routers};
use amm_rpc::execution::error::BuildError;
use amm_rpc::execution::options::{Deadline, ExecutionOptions, Recipient};
use amm_rpc::execution::prepared::Route;
use amm_rpc::execution::protocols::common::{erc20_approval, resolve_sqrt_limit, resolve_swap};
use amm_rpc::execution::types::{Currency, TradeType};
use amm_rpc::primitives::{Address, B256, U256};
use amm_rpc::slippage::Slippage;

/// A small number as a word.
fn u(n: impl Into<u128>) -> U256 {
    let n: u128 = n.into();
    U256 { l3: 0, l2: 0, l1: (n >> 64) as u64, l0: n as u64 }
}

type AbiWord = alloy::primitives::U256;

/// A decoded number as a word.
fn word_of(n: AbiWord) -> U256 {
    let l = n.as_limbs();
    U256 { l3: l[3], l2: l[2], l1: l[1], l0: l[0] }
}

/// The address with the given bytes.
fn address_from(bytes: [u8; 20]) -> Address {
    let n = AbiWord::from_be_slice(&bytes);
    Address::from_word(B256(word_of(n)))
}

/// The address whose bytes are all `byte`.
fn repeat_byte(byte: u8) -> Address {
    address_from([byte; 20])
}

/// The word that ends in the given bytes.
fn left_padded(bytes: &[u8]) -> B256 {
    B256(word_of(AbiWord::from_be_slice(bytes)))
}

/// The square root of two in Q64.96.
fn sqrt_two_x96() -> U256 {
    u(112_045_541_949_572_279_837_463_876_454u128)
}

fn chain_id() -> ChainId {
    ChainId(1)
}

fn asset(byte: u8) -> AssetId {
    AssetId::new(chain_id(), left_padded(&[byte]))
}

fn weth() -> AssetId {
    asset(0xC0)
}

fn router() -> Address {
    repeat_byte(0xAB)
}

fn ctx() -> ChainConfig {
    ChainConfig::new(chain_id(), weth()).with_routers({
        let mut routers = Routers::default();
        routers.v2 = Some(router());
        routers
    })
}

fn opts_resolved(to: Address, deadline_ts: u64, slippage_bps: u16) -> ExecutionOptions {
    ExecutionOptions::new(Slippage::from_bps(Bps(slippage_bps)))
        .with_recipient(Recipient::To(to))
        .with_deadline(Deadline::AtTimestamp(deadline_ts))
}

#[test]
fn resolve_swap_rejects_wrong_trade_type() {
    let a = asset(0x01);
    let b = asset(0x02);
    let p = [a, b];
    let c = ctx();
    let opts = opts_resolved(repeat_byte(0x55), 9_999_999, 50);
    let route = Route::new_single_hop(a, b, TradeType::ExactOut);

    let err = resolve_swap(
        &c,
        &p,
        Currency::Token(a),
        Currency::Token(b),
        &route,
        &opts,
        TradeType::ExactIn,
    )
    .expect_err("wrong trade type must fail");
    assert_eq!(err, BuildError::UnsupportedProtocol);
}

#[test]
fn resolve_swap_rejects_native_native() {
    let w = weth();
    let b = asset(0x02);
    let p = [w, b];
    let c = ctx();
    let opts = opts_resolved(repeat_byte(0x55), 9_999_999, 50);
    let route = Route::new_single_hop(w, b, TradeType::ExactIn);

    let err = resolve_swap(
        &c,
        &p,
        Currency::Native,
        Currency::Native,
        &route,
        &opts,
        TradeType::ExactIn,
    )
    .expect_err("native→native must fail");
    assert_eq!(err, BuildError::NativeMismatch);
}

#[test]
fn resolve_swap_rejects_unknown_asset() {
    let a = asset(0x01);
    let b = asset(0x02);
    let unknown = asset(0x99);
    let p = [a, b];
    let c = ctx();
    let opts = opts_resolved(repeat_byte(0x55), 9_999_999, 50);
    let route = Route::new_single_hop(a, unknown, TradeType::ExactIn);

    let err = resolve_swap(
        &c,
        &p,
        Currency::Token(a),
        Currency::Token(unknown),
        &route,
        &opts,
        TradeType::ExactIn,
    )
    .expect_err("unknown asset must fail");
    assert!(matches!(err, BuildError::AssetNotInPool { .. }));
}

#[test]
fn resolve_swap_resolves_native_in_to_weth_and_sets_flags() {
    let w = weth();
    let b = asset(0x02);
    let p = [w, b];
    let c = ctx();
    let opts = opts_resolved(repeat_byte(0x55), 9_999_999, 50);
    let route = Route::new_single_hop(w, b, TradeType::ExactIn);

    let r = resolve_swap(
        &c,
        &p,
        Currency::Native,
        Currency::Token(b),
        &route,
        &opts,
        TradeType::ExactIn,
    )
    .expect("native-in resolve must succeed");

    assert_eq!(r.input, w, "Native input must resolve to WETH");
    assert!(r.native_in, "native_in must be true");
    assert!(!r.native_out, "native_out must be false");
}

#[test]
fn resolve_sqrt_limit_none_is_zero() {
    let result = resolve_sqrt_limit(false, Ok(sqrt_two_x96()), 2).expect("None limit must succeed");
    assert_eq!(result, U256::zero(), "absent limit must yield U160::ZERO");
}

#[test]
fn resolve_sqrt_limit_multi_hop_with_limit_is_unsupported() {
    let a = asset(0x01);
    let b = asset(0x02);
    let price_limit = Price { base: a, quote: b, numerator: u(2u64), denominator: u(1u64) };
    let opts = opts_resolved(repeat_byte(0x55), 9_999_999, 50).with_price_limit(Some(price_limit));

    let err = resolve_sqrt_limit(opts.price_limit.is_some(), Ok(sqrt_two_x96()), 3)
        .expect_err("multi-hop + price_limit must fail");
    assert_eq!(err, BuildError::UnsupportedProtocol);
}

#[test]
fn erc20_approval_sets_reset_first_false() {
    let a = asset(0x01);
    let spender = repeat_byte(0xAB);
    let allowance = u(1000u64);

    let req = erc20_approval(spender, a, allowance);

    assert_eq!(req.spender, spender);
    assert_eq!(req.token, a);
    assert_eq!(req.min_allowance, allowance);
    assert!(!req.reset_first, "reset_first must be false");
}
