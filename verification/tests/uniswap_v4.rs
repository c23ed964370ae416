//! Uniswap V4 calldata.

use alloy::primitives::Bytes;
use alloy::primitives::aliases::{I24, U24};
use alloy::sol_types::SolValue;
use amm_rpc::asset::{AssetAmount, AssetId, Bps, ChainId, Price, QuoteError};
use amm_rpc::execution::config::{ChainConfig, Routers};
use amm_rpc::execution::error::BuildError;
use amm_rpc::execution::executable::Executable;
use amm_rpc::execution::options::{Deadline, ExecutionOptions, Recipient};
use amm_rpc::execution::prepared::Route;
use amm_rpc::execution::protocols::common::evm_addr;
use amm_rpc::execution::protocols::uniswap_v4::{
    ACTION_SETTLE, ACTION_SETTLE_ALL, ACTION_SWAP_EXACT_IN_SINGLE, ACTION_SWAP_EXACT_OUT_SINGLE,
    ACTION_TAKE, actions, open_delta,
};
use amm_rpc::execution::route_planner::{EXECUTE, UNWRAP_WETH, V4_SWAP, WRAP_ETH, address_this};
use amm_rpc::execution::types::{Currency, CurrencyAmount, TradeType};
use amm_rpc::pools::UniswapV4Pool;
use amm_rpc::primitives::{Address, B256, U256};
use amm_rpc::slippage::Slippage;

/// A small number as a word.
fn u(n: impl Into<u128>) -> U256 {
    let n: u128 = n.into();
    U256 { l3: 0, l2: 0, l1: (n >> 64) as u64, l0: n as u64 }
}

type AbiWord = alloy::primitives::U256;
type AbiAddress = alloy::primitives::Address;

/// A decoded number as a word.
fn word_of(n: AbiWord) -> U256 {
    let l = n.as_limbs();
    U256 { l3: l[3], l2: l[2], l1: l[1], l0: l[0] }
}

/// The address with the given bytes.
fn address_from(bytes: [u8; 20]) -> Address {
    let n = AbiWord::from_be_slice(&bytes);
    Address::from_word(B256(word_of(n)))
}

/// A decoded address.
fn address_of(a: AbiAddress) -> Address {
    address_from(a.into_array())
}

/// The address whose bytes are all `byte`.
fn repeat_byte(byte: u8) -> Address {
    address_from([byte; 20])
}

/// The word that ends in the given bytes.
fn left_padded(bytes: &[u8]) -> B256 {
    B256(word_of(AbiWord::from_be_slice(bytes)))
}

/// What stands for the price converter where no limit is set.
fn no_limit() -> Result<U256, QuoteError> {
    Err(QuoteError::Overflow)
}

/// The square root of two in Q64.96.
fn sqrt_two_x96() -> U256 {
    u(112_045_541_949_572_279_837_463_876_454u128)
}

/// The arguments of a call of `selector`.
fn arguments(selector: u32, data: &[u8]) -> Option<&[u8]> {
    if data.len() >= 4 && data[..4] == selector.to_be_bytes() {
        Some(&data[4..])
    } else {
        None
    }
}

struct ExecuteCall {
    commands: Bytes,
    inputs: Vec<Bytes>,
    deadline: U256,
}

fn decode_execute(data: &[u8]) -> Option<ExecuteCall> {
    let args = arguments(EXECUTE, data)?;
    let (commands, inputs, deadline) =
        <(Bytes, Vec<Bytes>, AbiWord)>::abi_decode_params(args).ok()?;
    Some(ExecuteCall { commands, inputs, deadline: word_of(deadline) })
}

fn decode_pair(data: &[u8]) -> Option<(Address, U256)> {
    let (a, n) = <(AbiAddress, AbiWord)>::abi_decode_params(data).ok()?;
    Some((address_of(a), word_of(n)))
}

fn decode_settle(data: &[u8]) -> Option<(Address, U256, bool)> {
    let (a, n, b) = <(AbiAddress, AbiWord, bool)>::abi_decode_params(data).ok()?;
    Some((address_of(a), word_of(n), b))
}

fn decode_take(data: &[u8]) -> Option<(Address, Address, U256)> {
    let (a, b, n) = <(AbiAddress, AbiAddress, AbiWord)>::abi_decode_params(data).ok()?;
    Some((address_of(a), address_of(b), word_of(n)))
}

type AbiKey = (AbiAddress, AbiAddress, U24, I24, AbiAddress);

struct DecodedKey {
    currency0: Address,
    currency1: Address,
    fee: U24,
    tick_spacing: I24,
    hooks: Address,
}

fn key_of(k: AbiKey) -> DecodedKey {
    DecodedKey {
        currency0: address_of(k.0),
        currency1: address_of(k.1),
        fee: k.2,
        tick_spacing: k.3,
        hooks: address_of(k.4),
    }
}

struct KeyedInput {
    pool_key: DecodedKey,
    zero_for_one: bool,
    amount_in: u128,
    amount_out_minimum: u128,
    hook_data: Bytes,
}

fn decode_keyed_input(data: &[u8]) -> Option<KeyedInput> {
    let (key, zero_for_one, amount_in, amount_out_minimum, hook_data) =
        <(AbiKey, bool, u128, u128, Bytes)>::abi_decode(data).ok()?;
    Some(KeyedInput { pool_key: key_of(key), zero_for_one, amount_in, amount_out_minimum, hook_data })
}

struct KeyedOutput {
    pool_key: DecodedKey,
    zero_for_one: bool,
    amount_out: u128,
    amount_in_maximum: u128,
    hook_data: Bytes,
}

fn decode_keyed_output(data: &[u8]) -> Option<KeyedOutput> {
    let (key, zero_for_one, amount_out, amount_in_maximum, hook_data) =
        <(AbiKey, bool, u128, u128, Bytes)>::abi_decode(data).ok()?;
    Some(KeyedOutput { pool_key: key_of(key), zero_for_one, amount_out, amount_in_maximum, hook_data })
}

fn key_pool(assets: [AssetId; 2], key_fee: u32, tick_spacing: i32) -> UniswapV4Pool {
    UniswapV4Pool { assets, key_fee, tick_spacing, hooks_address: Address::zero() }
}

fn pool() -> UniswapV4Pool {
    key_pool([usdc(), weth()], 3000, 60)
}

fn native_pool() -> UniswapV4Pool {
    key_pool([eth(), usdc()], 500, 10)
}

fn weth_pool() -> UniswapV4Pool {
    key_pool([weth(), token_x()], 3000, 60)
}

fn chain_id() -> ChainId {
    ChainId(1)
}

fn asset(byte: u8) -> AssetId {
    AssetId::new(chain_id(), left_padded(&[byte]))
}

fn eth() -> AssetId {
    AssetId::new(chain_id(), B256(U256::zero()))
}

fn usdc() -> AssetId {
    asset(0x01)
}

fn weth() -> AssetId {
    asset(0x02)
}

fn token_x() -> AssetId {
    asset(0x10)
}

fn universal_router() -> Address {
    repeat_byte(0xAA)
}

fn permit2() -> Address {
    repeat_byte(0xBB)
}

fn ctx() -> ChainConfig {
    ChainConfig::new(chain_id(), weth()).with_routers({
        let mut routers = Routers::default();
        routers.universal = Some(universal_router());
        routers.permit2 = Some(permit2());
        routers
    })
}

fn opts(to: Address, deadline_ts: u64, slippage_bps: u16) -> ExecutionOptions {
    ExecutionOptions::new(Slippage::from_bps(Bps(slippage_bps)))
        .with_recipient(Recipient::To(to))
        .with_deadline(Deadline::AtTimestamp(deadline_ts))
}

fn decode_outer(
    data: &[u8],
) -> (
    Bytes,
    Vec<Bytes>,
    U256,
) {
    let decoded = decode_execute(data)
        .expect("outer must decode as IUniversalRouter::execute");
    (decoded.commands, decoded.inputs, decoded.deadline)
}

fn decode_v4_input(
    v4_bytes: &Bytes,
) -> (Bytes, Vec<Bytes>) {
    <(Bytes, Vec<Bytes>)>::abi_decode_params(v4_bytes.as_ref())
        .expect("V4_SWAP input must decode as (Bytes, Bytes[])")
}

#[test]
fn exact_in_erc20_encodes_correct_structure() {
    let p = pool();
    let c = ctx();
    let recipient = repeat_byte(0x55);
    let deadline_ts = 1_700_000_000u64;
    let opts = opts(recipient, deadline_ts, 100);

    let amount_in = CurrencyAmount {
        currency: Currency::Token(usdc()),
        raw: u(500u64),
    };
    let quoted_out = AssetAmount::new(weth(), u(1000u64));
    let route = Route::new_single_hop(usdc(), weth(), TradeType::ExactIn);

    let prepared = p
        .build_swap(
            &c,
            amount_in,
            Currency::Token(weth()),
            &route,
            &quoted_out,
            no_limit(),
            &opts,
        )
        .expect("exact-in ERC-20 must succeed");

    assert_eq!(
        prepared.tx.to,
        universal_router(),
        "tx.to must be the Universal Router"
    );
    assert_eq!(
        prepared.tx.value,
        U256::zero(),
        "tx.value must be 0 for ERC-20"
    );
    assert_eq!(prepared.tx.chain, c.chain);

    let (commands, inputs, dl) = decode_outer(&prepared.tx.data);
    assert_eq!(
        commands.as_ref(),
        &[0x10u8],
        "commands must be [V4_SWAP=0x10]"
    );
    assert_eq!(inputs.len(), 1, "must have exactly one V4_SWAP input");
    assert_eq!(dl, u(deadline_ts), "deadline must round-trip");

    let (queued, params) = decode_v4_input(&inputs[0]);
    assert_eq!(
        queued.as_ref(),
        &actions(TradeType::ExactIn, false)[..],
        "actions must be [0x06,0x0c,0x0e]"
    );
    assert_eq!(params.len(), 3, "must have 3 params");

    let swap = decode_keyed_input(&params[0])
        .expect("params[0] must decode as ExactInputSingleParams");
    assert_eq!(
        swap.pool_key.currency0,
        evm_addr(&usdc()),
        "currency0 must be usdc"
    );
    assert_eq!(
        swap.pool_key.currency1,
        evm_addr(&weth()),
        "currency1 must be weth"
    );
    assert_eq!(swap.pool_key.fee.to::<u32>(), 3000u32, "fee must be 3000");
    assert_eq!(
        swap.pool_key.tick_spacing.as_i32(),
        60,
        "tickSpacing must be 60"
    );
    assert_eq!(swap.pool_key.hooks, Address::zero(), "hooks must be zero");
    assert!(
        swap.zero_for_one,
        "zeroForOne must be true (usdc=c0, input=usdc)"
    );
    assert_eq!(swap.amount_in, 500u128, "amountIn must be 500");
    assert_eq!(
        swap.amount_out_minimum, 990u128,
        "amountOutMinimum must be 990 at 100bps"
    );
    assert!(swap.hook_data.is_empty(), "hookData must be empty");

    let (settle_addr, settle_amt) = decode_pair(&params[1])
        .expect("params[1] must decode as (Address, U256)");
    assert_eq!(
        settle_addr,
        evm_addr(&usdc()),
        "settle address must be usdc"
    );
    assert_eq!(
        settle_amt,
        u(500u64),
        "settle amount must be amountIn"
    );

    let (take_addr, take_to, take_amt) =
        decode_take(&params[2])
            .expect("params[2] must decode as (Address, Address, U256)");
    assert_eq!(
        take_addr,
        evm_addr(&weth()),
        "take currency must be weth"
    );
    assert_eq!(
        take_to, recipient,
        "take recipient must match opts recipient"
    );
    assert_eq!(take_amt, U256::zero(), "take amount must be OPEN_DELTA");

    assert_eq!(prepared.min_received.raw, u(990u64));
    assert_eq!(prepared.min_received.asset, weth());
    assert!(
        prepared.max_spent.is_none(),
        "max_spent must be None for exact-in"
    );

    let approval = prepared
        .approval
        .expect("approval must be Some for ERC-20 input");
    assert_eq!(
        approval.spender,
        permit2(),
        "approval.spender must be Permit2"
    );
    assert_eq!(approval.token, usdc(), "approval.token must be usdc");
    assert_eq!(
        approval.min_allowance,
        u(500u64),
        "approval.min_allowance must be amountIn"
    );
    assert!(!approval.reset_first);
}

#[test]
fn exact_in_erc20_reverse_direction_sets_zero_for_one_false() {
    let p = pool();
    let c = ctx();
    let opts = opts(repeat_byte(0x55), 1_700_000_000, 100);

    let amount_in = CurrencyAmount {
        currency: Currency::Token(weth()),
        raw: u(500u64),
    };
    let quoted_out = AssetAmount::new(usdc(), u(1000u64));
    let route = Route::new_single_hop(weth(), usdc(), TradeType::ExactIn);

    let prepared = p
        .build_swap(
            &c,
            amount_in,
            Currency::Token(usdc()),
            &route,
            &quoted_out,
            no_limit(),
            &opts,
        )
        .expect("reverse direction must succeed");

    let (_, inputs, _) = decode_outer(&prepared.tx.data);
    let (_, params) = decode_v4_input(&inputs[0]);
    let swap = decode_keyed_input(&params[0]).unwrap();
    assert!(
        !swap.zero_for_one,
        "zeroForOne must be false for weth→usdc (weth=c1, input=weth)"
    );
}

#[test]
fn exact_out_erc20_encodes_correct_structure() {
    let p = pool();
    let c = ctx();
    let recipient = repeat_byte(0x66);
    let deadline_ts = 1_800_000_000u64;
    let opts = opts(recipient, deadline_ts, 100);

    let out_raw = u(400u64);
    let amount_out = CurrencyAmount {
        currency: Currency::Token(weth()),
        raw: out_raw,
    };
    let quoted_in = AssetAmount::new(usdc(), u(500u64));
    let route = Route::new_single_hop(usdc(), weth(), TradeType::ExactOut);

    let prepared = p
        .build_swap_exact_out(
            &c,
            amount_out,
            Currency::Token(usdc()),
            &route,
            &quoted_in,
            no_limit(),
            &opts,
        )
        .expect("exact-out ERC-20 must succeed");

    assert_eq!(prepared.tx.to, universal_router());
    assert_eq!(prepared.tx.value, U256::zero());

    let (commands, inputs, dl) = decode_outer(&prepared.tx.data);
    assert_eq!(commands.as_ref(), &[0x10u8]);
    assert_eq!(inputs.len(), 1);
    assert_eq!(dl, u(deadline_ts));

    let (queued, params) = decode_v4_input(&inputs[0]);
    assert_eq!(
        queued.as_ref(),
        &actions(TradeType::ExactOut, false)[..],
        "actions must be [0x08,0x0c,0x0e]"
    );
    assert_eq!(params.len(), 3);

    let swap = decode_keyed_output(&params[0])
        .expect("params[0] must decode as ExactOutputSingleParams");
    assert_eq!(swap.pool_key.fee.to::<u32>(), 3000u32);
    assert_eq!(swap.pool_key.tick_spacing.as_i32(), 60);
    assert_eq!(swap.pool_key.hooks, Address::zero());
    assert!(swap.zero_for_one, "zeroForOne true: usdc=c0 is input");
    assert_eq!(swap.amount_out, 400u128, "amountOut must be 400");
    assert_eq!(
        swap.amount_in_maximum, 505u128,
        "amountInMaximum must be 505 at 100bps"
    );
    assert!(swap.hook_data.is_empty());

    let (settle_addr, settle_amt) = decode_pair(&params[1]).unwrap();
    assert_eq!(
        settle_addr,
        evm_addr(&usdc())
    );
    assert_eq!(
        settle_amt,
        u(505u64),
        "settle amount must be maxAmountIn=505"
    );

    let (take_addr, take_to, take_amt) =
        decode_take(&params[2]).unwrap();
    assert_eq!(
        take_addr,
        evm_addr(&weth())
    );
    assert_eq!(
        take_to, recipient,
        "take recipient must match opts recipient"
    );
    assert_eq!(take_amt, U256::zero(), "take amount must be OPEN_DELTA");

    assert_eq!(prepared.min_received.raw, out_raw);
    assert_eq!(prepared.min_received.asset, weth());

    let max_spent = prepared
        .max_spent
        .expect("max_spent must be Some for exact-out");
    assert_eq!(max_spent.raw, u(505u64));
    assert_eq!(max_spent.asset, usdc());

    let approval = prepared.approval.expect("approval must be Some");
    assert_eq!(approval.spender, permit2(), "spender must be Permit2");
    assert_eq!(approval.token, usdc());
    assert_eq!(
        approval.min_allowance,
        u(505u64),
        "min_allowance must be maxAmountIn"
    );
    assert!(!approval.reset_first);
}

#[test]
fn native_in_eth_to_token_sets_value_and_no_approval() {
    let p = native_pool();
    let c = ctx();
    let recipient = repeat_byte(0x55);
    let opts = opts(recipient, 9_999_999, 50);

    let amount_in = CurrencyAmount {
        currency: Currency::Native,
        raw: u(500u64),
    };
    let quoted_out = AssetAmount::new(usdc(), u(1000u64));
    let route = Route::new_single_hop(eth(), usdc(), TradeType::ExactIn);

    let prepared = p
        .build_swap(
            &c,
            amount_in,
            Currency::Token(usdc()),
            &route,
            &quoted_out,
            no_limit(),
            &opts,
        )
        .expect("native-in on native pool must succeed");

    assert_eq!(
        prepared.tx.value,
        u(500u64),
        "tx.value must equal amountIn for native-in"
    );
    assert!(
        prepared.approval.is_none(),
        "approval must be None for native-in"
    );

    let (commands, inputs, _) = decode_outer(&prepared.tx.data);
    assert_eq!(commands.as_ref(), &[0x10u8], "commands must be [V4_SWAP]");
    let (queued, params) = decode_v4_input(&inputs[0]);
    assert_eq!(
        queued.as_ref(),
        &actions(TradeType::ExactIn, false)[..],
        "actions must be exact-in sequence"
    );

    let swap = decode_keyed_input(&params[0])
        .expect("params[0] must decode as ExactInputSingleParams");
    assert_eq!(
        swap.pool_key.currency0,
        Address::zero(),
        "currency0 must be address(0) on native pool"
    );
    assert_eq!(
        swap.pool_key.currency1,
        evm_addr(&usdc()),
        "currency1 must be usdc"
    );
    assert!(
        swap.zero_for_one,
        "zeroForOne must be true: ETH=currency0 is the input"
    );
    assert_eq!(swap.amount_in, 500u128, "amountIn must be 500");

    let (settle_addr, settle_amt) = decode_pair(&params[1])
        .expect("params[1] must decode as (Address, U256)");
    assert_eq!(
        settle_addr,
        Address::zero(),
        "SETTLE_ALL currency must be address(0)"
    );
    assert_eq!(
        settle_amt,
        u(500u64),
        "SETTLE_ALL amount must be amountIn"
    );

    let (take_addr, take_to, take_amt) =
        decode_take(&params[2])
            .expect("params[2] must decode as (Address, Address, U256)");
    assert_eq!(
        take_addr,
        evm_addr(&usdc()),
        "TAKE currency must be usdc"
    );
    assert_eq!(
        take_to, recipient,
        "TAKE recipient must match opts recipient"
    );
    assert_eq!(take_amt, U256::zero(), "TAKE amount must be OPEN_DELTA");
}

#[test]
fn native_out_token_to_eth_uses_permit2_and_zero_value() {
    let p = native_pool();
    let c = ctx();
    let recipient = repeat_byte(0x55);
    let opts = opts(recipient, 9_999_999, 50);

    let amount_in = CurrencyAmount {
        currency: Currency::Token(usdc()),
        raw: u(500u64),
    };
    let quoted_out = AssetAmount::new(eth(), u(1000u64));
    let route = Route::new_single_hop(usdc(), eth(), TradeType::ExactIn);

    let prepared = p
        .build_swap(
            &c,
            amount_in,
            Currency::Native,
            &route,
            &quoted_out,
            no_limit(),
            &opts,
        )
        .expect("native-out on native pool must succeed");

    assert_eq!(
        prepared.tx.value,
        U256::zero(),
        "tx.value must be 0 for native-out"
    );
    let approval = prepared
        .approval
        .expect("approval must be Some for token input");
    assert_eq!(
        approval.spender,
        permit2(),
        "approval.spender must be Permit2"
    );
    assert_eq!(approval.token, usdc(), "approval.token must be usdc");
    assert_eq!(
        approval.min_allowance,
        u(500u64),
        "approval.min_allowance must be amountIn"
    );

    let (_, inputs, _) = decode_outer(&prepared.tx.data);
    let (queued, params) = decode_v4_input(&inputs[0]);
    assert_eq!(queued.as_ref(), &actions(TradeType::ExactIn, false)[..]);

    let swap = decode_keyed_input(&params[0]).unwrap();
    assert!(
        !swap.zero_for_one,
        "zeroForOne must be false: USDC=currency1 is the input"
    );

    let (settle_addr, _) = decode_pair(&params[1]).unwrap();
    assert_eq!(
        settle_addr,
        evm_addr(&usdc()),
        "SETTLE_ALL currency must be usdc"
    );

    let (take_addr, take_to, take_amt) =
        decode_take(&params[2]).unwrap();
    assert_eq!(take_addr, Address::zero(), "TAKE currency must be address(0)");
    assert_eq!(
        take_to, recipient,
        "TAKE recipient must match opts recipient"
    );
    assert_eq!(take_amt, U256::zero(), "TAKE amount must be OPEN_DELTA");
}

#[test]
fn both_native_returns_native_mismatch() {
    let p = native_pool();
    let c = ctx();
    let opts = opts(repeat_byte(0x55), 9_999_999, 50);

    let amount_in = CurrencyAmount {
        currency: Currency::Native,
        raw: u(100u64),
    };
    let quoted_out = AssetAmount::new(eth(), u(100u64));
    let route = Route::new_single_hop(eth(), usdc(), TradeType::ExactIn);

    let err = p
        .build_swap(
            &c,
            amount_in,
            Currency::Native,
            &route,
            &quoted_out,
            no_limit(),
            &opts,
        )
        .expect_err("both-native must fail");
    assert_eq!(
        err,
        BuildError::NativeMismatch,
        "both-native must yield NativeMismatch"
    );
}

#[test]
fn native_currency_on_non_native_non_weth_pool_returns_asset_not_in_pool() {
    let p = key_pool([usdc(), token_x()], 3000, 60);
    let c = ctx();
    let opts = opts(repeat_byte(0x55), 9_999_999, 50);

    let amount_in = CurrencyAmount {
        currency: Currency::Native,
        raw: u(100u64),
    };
    let quoted_out = AssetAmount::new(usdc(), u(100u64));
    let route = Route::new_single_hop(usdc(), token_x(), TradeType::ExactIn);

    let err = p
        .build_swap(
            &c,
            amount_in,
            Currency::Token(usdc()),
            &route,
            &quoted_out,
            no_limit(),
            &opts,
        )
        .expect_err("native on non-native/non-weth pool must fail");
    assert!(
        matches!(err, BuildError::AssetNotInPool { .. }),
        "expected AssetNotInPool, got {err:?}"
    );
}

#[test]
fn price_limit_exact_in_returns_unsupported_protocol() {
    let p = pool();
    let c = ctx();
    let price_limit = Price { base: usdc(), quote: weth(), numerator: u(2u64), denominator: u(1u64) };
    let opts =
        opts(repeat_byte(0x55), 9_999_999, 50).with_price_limit(Some(price_limit));

    let amount_in = CurrencyAmount {
        currency: Currency::Token(usdc()),
        raw: u(100u64),
    };
    let quoted_out = AssetAmount::new(weth(), u(100u64));
    let route = Route::new_single_hop(usdc(), weth(), TradeType::ExactIn);

    let err = p
        .build_swap(
            &c,
            amount_in,
            Currency::Token(weth()),
            &route,
            &quoted_out,
            Ok(sqrt_two_x96()),
            &opts,
        )
        .expect_err("price_limit must return UnsupportedProtocol");
    assert_eq!(err, BuildError::UnsupportedProtocol);
}

#[test]
fn sender_recipient_returns_unresolved_recipient() {
    let p = pool();
    let c = ctx();
    let opts = ExecutionOptions::new(Slippage::from_bps(Bps(50)))
        .with_deadline(Deadline::AtTimestamp(9_999_999));

    let amount_in = CurrencyAmount {
        currency: Currency::Token(usdc()),
        raw: u(100u64),
    };
    let quoted_out = AssetAmount::new(weth(), u(100u64));
    let route = Route::new_single_hop(usdc(), weth(), TradeType::ExactIn);

    let err = p
        .build_swap(
            &c,
            amount_in,
            Currency::Token(weth()),
            &route,
            &quoted_out,
            no_limit(),
            &opts,
        )
        .expect_err("Sender recipient must fail");
    assert_eq!(err, BuildError::UnresolvedRecipient);
}

#[test]
fn uniswap_v4_exact_out_route_in_build_swap_returns_unsupported_protocol() {
    let p = pool();
    let c = ctx();
    let opts = opts(repeat_byte(0x55), 9_999_999, 50);

    let amount_in = CurrencyAmount {
        currency: Currency::Token(usdc()),
        raw: u(100u64),
    };
    let quoted_out = AssetAmount::new(weth(), u(100u64));
    let route = Route::new_single_hop(usdc(), weth(), TradeType::ExactOut);

    let err = p
        .build_swap(
            &c,
            amount_in,
            Currency::Token(weth()),
            &route,
            &quoted_out,
            no_limit(),
            &opts,
        )
        .expect_err("ExactOut route in build_swap must fail");
    assert_eq!(err, BuildError::UnsupportedProtocol);
}

#[test]
fn uniswap_v4_exact_in_route_in_build_swap_exact_out_returns_unsupported_protocol() {
    let p = pool();
    let c = ctx();
    let opts = opts(repeat_byte(0x55), 9_999_999, 50);

    let amount_out = CurrencyAmount {
        currency: Currency::Token(weth()),
        raw: u(100u64),
    };
    let quoted_in = AssetAmount::new(usdc(), u(100u64));
    let route = Route::new_single_hop(usdc(), weth(), TradeType::ExactIn);

    let err = p
        .build_swap_exact_out(
            &c,
            amount_out,
            Currency::Token(usdc()),
            &route,
            &quoted_in,
            no_limit(),
            &opts,
        )
        .expect_err("ExactIn route in build_swap_exact_out must fail");
    assert_eq!(err, BuildError::UnsupportedProtocol);
}

#[test]
fn take_delivers_to_the_resolved_recipient() {
    let recipient = repeat_byte(0xCD);
    let o = opts(recipient, 1_700_000_000, 100);
    let p = pool();
    let c = ctx();

    let amount_in = CurrencyAmount {
        currency: Currency::Token(usdc()),
        raw: u(500u64),
    };
    let quoted_out = AssetAmount::new(weth(), u(1000u64));
    let route = Route::new_single_hop(usdc(), weth(), TradeType::ExactIn);

    let prepared = p
        .build_swap(
            &c,
            amount_in,
            Currency::Token(weth()),
            &route,
            &quoted_out,
            no_limit(),
            &o,
        )
        .expect("exact-in with explicit recipient must succeed");

    let (_, inputs, _) = decode_outer(&prepared.tx.data);
    let (queued, params) = decode_v4_input(&inputs[0]);

    assert_eq!(
        queued.last(),
        Some(&ACTION_TAKE),
        "final action must be TAKE (0x0e)"
    );

    let (currency, to, amount) =
        decode_take(params.last().unwrap())
            .expect("TAKE params must decode as (Address, Address, U256)");
    assert_eq!(
        currency,
        evm_addr(&weth()),
        "TAKE currency must be the output asset"
    );
    assert_eq!(
        to, recipient,
        "TAKE recipient must be the resolved recipient"
    );
    assert_eq!(amount, open_delta(), "TAKE amount must be OPEN_DELTA (0)");
}

#[test]
fn action_constants_have_expected_values() {
    assert_eq!(ACTION_SWAP_EXACT_IN_SINGLE, 0x06);
    assert_eq!(ACTION_SWAP_EXACT_OUT_SINGLE, 0x08);
    assert_eq!(ACTION_SETTLE, 0x0b);
    assert_eq!(ACTION_SETTLE_ALL, 0x0c);
    assert_eq!(ACTION_TAKE, 0x0e);
    assert_eq!(actions(TradeType::ExactIn, false), [0x06u8, 0x0c, 0x0e]);
    assert_eq!(actions(TradeType::ExactOut, false), [0x08u8, 0x0c, 0x0e]);
}

#[test]
fn native_in_wrap_exact_in_prepends_wrap_and_settles_from_router() {
    let p = weth_pool();
    let c = ctx();
    let recipient = repeat_byte(0x77);
    let amount_raw = u(1_000u64);
    let opts = opts(recipient, 9_999_999, 50);

    let amount_in = CurrencyAmount {
        currency: Currency::Native,
        raw: amount_raw,
    };
    let quoted_out = AssetAmount::new(token_x(), u(2_000u64));
    let route = Route::new_single_hop(weth(), token_x(), TradeType::ExactIn);

    let prepared = p
        .build_swap(
            &c,
            amount_in,
            Currency::Token(token_x()),
            &route,
            &quoted_out,
            no_limit(),
            &opts,
        )
        .expect("WETH-wrap exact-in must succeed");

    assert_eq!(
        prepared.tx.value, amount_raw,
        "tx.value must equal amountIn for wrap path"
    );
    assert!(
        prepared.approval.is_none(),
        "approval must be None for wrap path (ETH sent as value)"
    );

    let (commands, inputs, _) = decode_outer(&prepared.tx.data);
    assert_eq!(
        commands.as_ref(),
        &[WRAP_ETH, V4_SWAP],
        "commands must be [WRAP_ETH=0x0b, V4_SWAP=0x10]"
    );
    assert_eq!(inputs.len(), 2, "must have two inputs: WRAP_ETH + V4_SWAP");

    let (wrap_recipient, wrap_amount) = decode_pair(&inputs[0])
        .expect("WRAP_ETH input must decode as (Address, U256)");
    assert_eq!(
        wrap_recipient, address_this(),
        "WRAP_ETH recipient must be ADDRESS_THIS (address(2))"
    );
    assert_eq!(
        wrap_amount, amount_raw,
        "WRAP_ETH amount must equal amountIn"
    );

    let (queued, params) = decode_v4_input(&inputs[1]);
    assert_eq!(
        queued.as_ref(),
        &actions(TradeType::ExactIn, true)[..],
        "V4 actions must be [0x06, SETTLE=0x0b, 0x0e]"
    );
    assert_eq!(params.len(), 3);

    let swap = decode_keyed_input(&params[0])
        .expect("params[0] must decode as ExactInputSingleParams");
    assert!(
        swap.zero_for_one,
        "zeroForOne must be true (weth=c0, input=weth after wrap)"
    );
    assert_eq!(swap.amount_in, 1_000u128, "amountIn must be 1000");

    let (settle_currency, settle_amount, payer_is_user) =
        decode_settle(&params[1])
            .expect("SETTLE param must decode as (Address, U256, bool)");
    let weth_addr = evm_addr(&weth());
    assert_eq!(settle_currency, weth_addr, "SETTLE currency must be WETH");
    assert_eq!(
        settle_amount,
        U256::zero(),
        "SETTLE amount must be OPEN_DELTA (0)"
    );
    assert!(
        !payer_is_user,
        "payerIsUser must be false (router pays from its WETH balance)"
    );

    let (take_addr, take_to, take_amt) =
        decode_take(&params[2])
            .expect("TAKE param must decode as (Address, Address, U256)");
    assert_eq!(
        take_addr,
        evm_addr(&token_x()),
        "TAKE currency must be token_x (output)"
    );
    assert_eq!(
        take_to, recipient,
        "TAKE recipient must match opts recipient"
    );
    assert_eq!(take_amt, U256::zero(), "TAKE amount must be OPEN_DELTA");

    assert_eq!(
        queued[1], ACTION_SETTLE,
        "second action byte must be SETTLE=0x0b"
    );
}

#[test]
fn native_in_wrap_exact_out_appends_leftover_unwrap() {
    let p = weth_pool();
    let c = ctx();
    let recipient = repeat_byte(0x88);
    let out_raw = u(500u64);
    let opts = opts(recipient, 9_999_999, 100);

    let amount_out = CurrencyAmount {
        currency: Currency::Token(token_x()),
        raw: out_raw,
    };
    let quoted_in = AssetAmount::new(weth(), u(1_000u64));
    let route = Route::new_single_hop(weth(), token_x(), TradeType::ExactOut);

    let prepared = p
        .build_swap_exact_out(
            &c,
            amount_out,
            Currency::Native,
            &route,
            &quoted_in,
            no_limit(),
            &opts,
        )
        .expect("WETH-wrap exact-out must succeed");

    let expected_max = u(1_010u64);

    assert_eq!(
        prepared.tx.value, expected_max,
        "tx.value must equal max for wrap exact-out"
    );
    assert!(
        prepared.approval.is_none(),
        "approval must be None for wrap exact-out"
    );

    let (commands, inputs, _) = decode_outer(&prepared.tx.data);
    assert_eq!(
        commands.as_ref(),
        &[WRAP_ETH, V4_SWAP, UNWRAP_WETH],
        "commands must be [WRAP_ETH=0x0b, V4_SWAP=0x10, UNWRAP_WETH=0x0c]"
    );
    assert_eq!(inputs.len(), 3, "must have 3 inputs");

    let (wrap_recipient, wrap_amount) = decode_pair(&inputs[0])
        .expect("WRAP_ETH input must decode as (Address, U256)");
    assert_eq!(
        wrap_recipient, address_this(),
        "WRAP_ETH recipient must be ADDRESS_THIS"
    );
    assert_eq!(
        wrap_amount, expected_max,
        "WRAP_ETH amount must be max (1010)"
    );

    let (queued, params) = decode_v4_input(&inputs[1]);
    assert_eq!(
        queued.as_ref(),
        &actions(TradeType::ExactOut, true)[..],
        "V4 actions must be [0x08, SETTLE=0x0b, 0x0e]"
    );
    assert_eq!(params.len(), 3);

    let (settle_currency, settle_amount, payer_is_user) =
        decode_settle(&params[1])
            .expect("SETTLE param must decode as (Address, U256, bool)");
    let weth_addr = evm_addr(&weth());
    assert_eq!(settle_currency, weth_addr, "SETTLE currency must be WETH");
    assert_eq!(
        settle_amount,
        U256::zero(),
        "SETTLE amount must be OPEN_DELTA"
    );
    assert!(!payer_is_user, "payerIsUser must be false");

    let (unwrap_recipient, unwrap_min) = decode_pair(&inputs[2])
        .expect("UNWRAP_WETH input must decode as (Address, U256)");
    assert_eq!(
        unwrap_recipient, recipient,
        "UNWRAP_WETH recipient must match opts recipient"
    );
    assert_eq!(
        unwrap_min,
        U256::zero(),
        "UNWRAP_WETH min must be 0 (unwrap everything)"
    );
}

#[test]
fn native_out_unwrap_exact_in_takes_to_router_then_unwraps() {
    let p = weth_pool();
    let c = ctx();
    let recipient = repeat_byte(0x99);
    let amount_raw = u(800u64);
    let opts = opts(recipient, 9_999_999, 50);

    let amount_in = CurrencyAmount {
        currency: Currency::Token(token_x()),
        raw: amount_raw,
    };
    let quoted_out = AssetAmount::new(weth(), u(2_000u64));
    let route = Route::new_single_hop(token_x(), weth(), TradeType::ExactIn);

    let prepared = p
        .build_swap(
            &c,
            amount_in,
            Currency::Native,
            &route,
            &quoted_out,
            no_limit(),
            &opts,
        )
        .expect("native-out wrap exact-in must succeed");

    assert_eq!(
        prepared.tx.value,
        U256::zero(),
        "tx.value must be 0 for native-out wrap (token input)"
    );
    let approval = prepared
        .approval
        .expect("approval must be Some for token input");
    assert_eq!(
        approval.spender,
        permit2(),
        "approval.spender must be Permit2"
    );
    assert_eq!(approval.token, token_x(), "approval.token must be token_x");
    assert_eq!(
        approval.min_allowance, amount_raw,
        "approval.min_allowance must be amountIn"
    );

    let (commands, inputs, _) = decode_outer(&prepared.tx.data);
    assert_eq!(
        commands.as_ref(),
        &[V4_SWAP, UNWRAP_WETH],
        "commands must be [V4_SWAP=0x10, UNWRAP_WETH=0x0c]"
    );
    assert_eq!(
        inputs.len(),
        2,
        "must have two inputs: V4_SWAP + UNWRAP_WETH"
    );

    let (queued, params) = decode_v4_input(&inputs[0]);
    assert_eq!(
        queued.as_ref(),
        &actions(TradeType::ExactIn, false)[..],
        "V4 actions must be [SWAP_EXACT_IN_SINGLE=0x06, SETTLE_ALL=0x0c, TAKE=0x0e]"
    );
    assert_eq!(params.len(), 3);

    let swap = decode_keyed_input(&params[0])
        .expect("params[0] must decode as ExactInputSingleParams");
    assert!(
        !swap.zero_for_one,
        "zeroForOne must be false (token_x=c1 is the input)"
    );
    assert_eq!(swap.amount_in, 800u128, "amountIn must be 800");
    assert_eq!(
        swap.amount_out_minimum, 1_990u128,
        "amountOutMinimum must be 1990 at 50bps"
    );

    let (settle_addr, settle_amt) = decode_pair(&params[1])
        .expect("params[1] must decode as (Address, U256)");
    assert_eq!(
        settle_addr,
        evm_addr(&token_x()),
        "SETTLE_ALL currency must be token_x (input)"
    );
    assert_eq!(settle_amt, amount_raw, "SETTLE_ALL amount must be amountIn");

    let (take_addr, take_to, take_amt) =
        decode_take(&params[2])
            .expect("params[2] must decode as (Address, Address, U256)");
    let weth_addr = evm_addr(&weth());
    assert_eq!(
        take_addr, weth_addr,
        "TAKE currency must be WETH (the swap output)"
    );
    assert_eq!(
        take_to, address_this(),
        "TAKE recipient must be ADDRESS_THIS so router holds WETH"
    );
    assert_eq!(take_amt, open_delta(), "TAKE amount must be OPEN_DELTA (0)");

    let (unwrap_recipient, unwrap_min) = decode_pair(&inputs[1])
        .expect("UNWRAP_WETH input must decode as (Address, U256)");
    assert_eq!(
        unwrap_recipient, recipient,
        "UNWRAP_WETH recipient must be opts recipient"
    );
    assert_eq!(
        unwrap_min,
        u(1_990u64),
        "UNWRAP_WETH min must be slippage floor (1990)"
    );
}

#[test]
fn native_out_unwrap_exact_out_unwraps_exact_output() {
    let p = weth_pool();
    let c = ctx();
    let recipient = repeat_byte(0xAA);
    let out_raw = u(500u64);
    let opts = opts(recipient, 9_999_999, 100);

    let amount_out = CurrencyAmount {
        currency: Currency::Native,
        raw: out_raw,
    };
    let quoted_in = AssetAmount::new(token_x(), u(1_000u64));
    let route = Route::new_single_hop(token_x(), weth(), TradeType::ExactOut);

    let prepared = p
        .build_swap_exact_out(
            &c,
            amount_out,
            Currency::Token(token_x()),
            &route,
            &quoted_in,
            no_limit(),
            &opts,
        )
        .expect("native-out wrap exact-out must succeed");

    let expected_max = u(1_010u64);

    assert_eq!(
        prepared.tx.value,
        U256::zero(),
        "tx.value must be 0 for native-out wrap exact-out"
    );
    let approval = prepared
        .approval
        .expect("approval must be Some for token input");
    assert_eq!(approval.spender, permit2(), "spender must be Permit2");
    assert_eq!(approval.token, token_x(), "approval.token must be token_x");
    assert_eq!(
        approval.min_allowance, expected_max,
        "approval.min_allowance must be maxAmountIn (1010)"
    );

    let (commands, inputs, _) = decode_outer(&prepared.tx.data);
    assert_eq!(
        commands.as_ref(),
        &[V4_SWAP, UNWRAP_WETH],
        "commands must be [V4_SWAP=0x10, UNWRAP_WETH=0x0c]"
    );
    assert_eq!(inputs.len(), 2);

    let (queued, params) = decode_v4_input(&inputs[0]);
    assert_eq!(
        queued.as_ref(),
        &actions(TradeType::ExactOut, false)[..],
        "V4 actions must be [SWAP_EXACT_OUT_SINGLE=0x08, SETTLE_ALL=0x0c, TAKE=0x0e]"
    );
    assert_eq!(params.len(), 3);

    let swap = decode_keyed_output(&params[0])
        .expect("params[0] must decode as ExactOutputSingleParams");
    assert!(
        !swap.zero_for_one,
        "zeroForOne must be false (token_x=c1 is the input)"
    );
    assert_eq!(swap.amount_out, 500u128, "amountOut must be 500");
    assert_eq!(
        swap.amount_in_maximum, 1_010u128,
        "amountInMaximum must be 1010 at 100bps"
    );

    let (take_addr, take_to, take_amt) =
        decode_take(&params[2])
            .expect("params[2] must decode as (Address, Address, U256)");
    let weth_addr = evm_addr(&weth());
    assert_eq!(take_addr, weth_addr, "TAKE currency must be WETH");
    assert_eq!(
        take_to, address_this(),
        "TAKE recipient must be ADDRESS_THIS so router holds WETH"
    );
    assert_eq!(take_amt, open_delta(), "TAKE amount must be OPEN_DELTA (0)");

    let (unwrap_recipient, unwrap_min) = decode_pair(&inputs[1])
        .expect("UNWRAP_WETH input must decode as (Address, U256)");
    assert_eq!(
        unwrap_recipient, recipient,
        "UNWRAP_WETH recipient must be opts recipient"
    );
    assert_eq!(
        unwrap_min, out_raw,
        "UNWRAP_WETH min must be the exact output amount (500)"
    );
}

#[test]
fn address0_native_pool_unchanged() {
    let p = native_pool();
    let c = ctx();
    let recipient = repeat_byte(0x55);
    let opts = opts(recipient, 9_999_999, 50);

    let amount_in = CurrencyAmount {
        currency: Currency::Native,
        raw: u(300u64),
    };
    let quoted_out = AssetAmount::new(usdc(), u(600u64));
    let route = Route::new_single_hop(eth(), usdc(), TradeType::ExactIn);

    let prepared = p
        .build_swap(
            &c,
            amount_in,
            Currency::Token(usdc()),
            &route,
            &quoted_out,
            no_limit(),
            &opts,
        )
        .expect("native pool with Currency::Native must succeed unchanged");

    let (commands, inputs, _) = decode_outer(&prepared.tx.data);
    assert_eq!(
        commands.as_ref(),
        &[V4_SWAP],
        "native pool must still use single V4_SWAP command"
    );
    assert_eq!(inputs.len(), 1);

    let (queued, _params) = decode_v4_input(&inputs[0]);
    assert_eq!(
        queued.as_ref(),
        &actions(TradeType::ExactIn, false)[..],
        "actions must be [SWAP_EXACT_IN_SINGLE, SETTLE_ALL, TAKE] — no wrap"
    );

    assert_eq!(prepared.tx.value, u(300u64));
    assert!(prepared.approval.is_none());
}

#[test]
fn a_native_target_is_stated_in_the_wrapped_token() {
    let opts = opts(repeat_byte(0x55), 9_999_999, 100);
    for (p, out) in [(native_pool(), eth()), (pool(), weth())] {
        let prepared = p
            .build_swap_exact_out(
                &ctx(),
                CurrencyAmount { currency: Currency::Native, raw: u(400u64) },
                Currency::Token(usdc()),
                &Route::new_single_hop(usdc(), out, TradeType::ExactOut),
                &AssetAmount::new(usdc(), u(500u64)),
                no_limit(),
                &opts,
            )
            .expect("a native target must build");
        assert_eq!(prepared.min_received, AssetAmount::new(weth(), u(400u64)));
        assert_eq!(prepared.max_spent, Some(AssetAmount::new(usdc(), u(505u64))));
        assert_eq!(prepared.tx.value, U256::zero());
    }
}

#[test]
fn a_native_floor_is_stated_in_the_wrapped_token() {
    let opts = opts(repeat_byte(0x55), 9_999_999, 100);
    for (p, out) in [(native_pool(), eth()), (pool(), weth())] {
        let prepared = p
            .build_swap(
                &ctx(),
                CurrencyAmount { currency: Currency::Token(usdc()), raw: u(500u64) },
                Currency::Native,
                &Route::new_single_hop(usdc(), out, TradeType::ExactIn),
                &AssetAmount::new(out, u(1000u64)),
                no_limit(),
                &opts,
            )
            .expect("native output must build");
        assert_eq!(prepared.min_received, AssetAmount::new(weth(), u(990u64)));
        assert_eq!(prepared.max_spent, None);
    }
}
