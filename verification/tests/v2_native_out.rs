//! Uniswap V2 with a fixed native output.

use alloy::sol_types::SolValue;
use amm_rpc::asset::{AssetAmount, AssetId, Bps, ChainId, QuoteError};
use amm_rpc::execution::config::{ChainConfig, Routers};
use amm_rpc::execution::executable::Executable;
use amm_rpc::execution::options::{Deadline, ExecutionOptions, Recipient};
use amm_rpc::execution::prepared::Route;
use amm_rpc::execution::protocols::common::evm_addr;
use amm_rpc::execution::types::{Currency, CurrencyAmount, TradeType};
use amm_rpc::pools::UniswapV2Pool;
use amm_rpc::primitives::{Address, B256, U256};
use amm_rpc::slippage::Slippage;
use amm_rpc::execution::protocols::uniswap_v2::SWAP_TOKENS_FOR_EXACT_ETH;

/// A small number as a word.
fn u(n: impl Into<u128>) -> U256 {
    let n: u128 = n.into();
    U256 { l3: 0, l2: 0, l1: (n >> 64) as u64, l0: n as u64 }
}

type AbiWord = alloy::primitives::U256;
type AbiAddress = alloy::primitives::Address;

/// A decoded number as a word.
fn word_of(n: AbiWord) -> U256 {
    let l = n.as_limbs();
    U256 { l3: l[3], l2: l[2], l1: l[1], l0: l[0] }
}

/// The address with the given bytes.
fn address_from(bytes: [u8; 20]) -> Address {
    let n = AbiWord::from_be_slice(&bytes);
    Address::from_word(B256(word_of(n)))
}

/// A decoded address.
fn address_of(a: AbiAddress) -> Address {
    address_from(a.into_array())
}

/// The address whose bytes are all `byte`.
fn repeat_byte(byte: u8) -> Address {
    address_from([byte; 20])
}

/// The word that ends in the given bytes.
fn left_padded(bytes: &[u8]) -> B256 {
    B256(word_of(AbiWord::from_be_slice(bytes)))
}

/// What stands for the price converter where no limit is set.
fn no_limit() -> Result<U256, QuoteError> {
    Err(QuoteError::Overflow)
}

/// The arguments of a call of `selector`.
fn arguments(selector: u32, data: &[u8]) -> Option<&[u8]> {
    if data.len() >= 4 && data[..4] == selector.to_be_bytes() {
        Some(&data[4..])
    } else {
        None
    }
}

struct PathSwapCall {
    fixed: U256,
    bound: U256,
    path: Vec<Address>,
    to: Address,
    deadline: U256,
}

fn decode_path_swap(selector: u32, data: &[u8]) -> Option<PathSwapCall> {
    let args = arguments(selector, data)?;
    let (fixed, bound, path, to, deadline) =
        <(AbiWord, AbiWord, Vec<AbiAddress>, AbiAddress, AbiWord)>::abi_decode_params(args).ok()?;
    Some(PathSwapCall {
        fixed: word_of(fixed),
        bound: word_of(bound),
        path: path.into_iter().map(address_of).collect(),
        to: address_of(to),
        deadline: word_of(deadline),
    })
}

fn asset(byte: u8) -> AssetId {
    AssetId::new(ChainId(1), left_padded(&[byte]))
}

#[test]
fn a_fixed_eth_output_is_bought_for_tokens() {
    let mut routers = Routers::default();
    routers.v2 = Some(repeat_byte(0xAB));
    let c = ChainConfig::new(ChainId(1), asset(0xC0)).with_routers(routers);
    let opts = ExecutionOptions::new(Slippage::from_bps(Bps(100)))
        .with_recipient(Recipient::To(repeat_byte(0x55)))
        .with_deadline(Deadline::AtTimestamp(1_700_000_000));
    let pool = UniswapV2Pool { assets: [asset(1), asset(0xC0)] };
    let prepared = pool
        .build_swap_exact_out(
            &c,
            CurrencyAmount { currency: Currency::Native, raw: u(400u64) },
            Currency::Token(asset(1)),
            &Route::new_single_hop(asset(1), asset(0xC0), TradeType::ExactOut),
            &AssetAmount::new(asset(1), u(500u64)),
            no_limit(),
            &opts,
        )
        .unwrap();
    let call = decode_path_swap(SWAP_TOKENS_FOR_EXACT_ETH, &prepared.tx.data).unwrap();
    assert_eq!(call.fixed, u(400u64));
    assert_eq!(call.bound, u(505u64));
    assert_eq!(call.path, vec![evm_addr(&asset(1)), evm_addr(&asset(0xC0))]);
    assert_eq!(call.to, repeat_byte(0x55));
    assert_eq!(call.deadline, u(1_700_000_000u64));
    assert_eq!(prepared.tx.value, U256::zero());
    assert_eq!(prepared.max_spent, Some(AssetAmount::new(asset(1), u(505u64))));
    assert_eq!(prepared.min_received, AssetAmount::new(asset(0xC0), u(400u64)));
    assert_eq!(prepared.approval.unwrap().min_allowance, u(505u64));
}
