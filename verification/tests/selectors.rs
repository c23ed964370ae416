//! Selectors are the hashes of their signatures.

use amm_rpc::execution::multicall::{MULTICALL, MULTICALL_WITH_DEADLINE};
use amm_rpc::execution::protocols::swaprouter02::{REFUND_ETH, UNWRAP_WETH9};
use amm_rpc::execution::route_planner::EXECUTE;
use amm_rpc::execution::protocols::{aerodrome, curve, slipstream, uniswap_v2, uniswap_v3};

/// The selector of a function signature.
fn selector(signature: &str) -> u32 {
    let hash = alloy::primitives::keccak256(signature.as_bytes());
    u32::from_be_bytes([hash[0], hash[1], hash[2], hash[3]])
}

#[test]
fn batch_selectors() {
    assert_eq!(MULTICALL, selector("multicall(bytes[])"));
    assert_eq!(MULTICALL_WITH_DEADLINE, selector("multicall(uint256,bytes[])"));
    assert_eq!(EXECUTE, selector("execute(bytes,bytes[],uint256)"));
    assert_eq!(UNWRAP_WETH9, selector("unwrapWETH9(uint256,address)"));
    assert_eq!(REFUND_ETH, selector("refundETH()"));
}

#[test]
fn uniswap_v2_selectors() {
    assert_eq!(
        uniswap_v2::SWAP_EXACT_TOKENS_FOR_TOKENS,
        selector("swapExactTokensForTokens(uint256,uint256,address[],address,uint256)")
    );
    assert_eq!(
        uniswap_v2::SWAP_EXACT_ETH_FOR_TOKENS,
        selector("swapExactETHForTokens(uint256,address[],address,uint256)")
    );
    assert_eq!(
        uniswap_v2::SWAP_EXACT_TOKENS_FOR_ETH,
        selector("swapExactTokensForETH(uint256,uint256,address[],address,uint256)")
    );
    assert_eq!(
        uniswap_v2::SWAP_TOKENS_FOR_EXACT_TOKENS,
        selector("swapTokensForExactTokens(uint256,uint256,address[],address,uint256)")
    );
    assert_eq!(
        uniswap_v2::SWAP_ETH_FOR_EXACT_TOKENS,
        selector("swapETHForExactTokens(uint256,address[],address,uint256)")
    );
    assert_eq!(
        uniswap_v2::SWAP_TOKENS_FOR_EXACT_ETH,
        selector("swapTokensForExactETH(uint256,uint256,address[],address,uint256)")
    );
}

#[test]
fn concentrated_selectors() {
    assert_eq!(
        uniswap_v3::EXACT_INPUT_SINGLE,
        selector("exactInputSingle((address,address,uint24,address,uint256,uint256,uint160))")
    );
    assert_eq!(
        uniswap_v3::EXACT_OUTPUT_SINGLE,
        selector("exactOutputSingle((address,address,uint24,address,uint256,uint256,uint160))")
    );
    assert_eq!(
        slipstream::EXACT_INPUT_SINGLE,
        selector(
            "exactInputSingle((address,address,int24,address,uint256,uint256,uint256,uint160))"
        )
    );
    assert_eq!(
        slipstream::EXACT_OUTPUT_SINGLE,
        selector(
            "exactOutputSingle((address,address,int24,address,uint256,uint256,uint256,uint160))"
        )
    );
}

#[test]
fn aerodrome_selectors() {
    assert_eq!(
        aerodrome::SWAP_EXACT_TOKENS_FOR_TOKENS,
        selector(
            "swapExactTokensForTokens(uint256,uint256,(address,address,bool,address)[],address,uint256)"
        )
    );
    assert_eq!(
        aerodrome::SWAP_EXACT_ETH_FOR_TOKENS,
        selector("swapExactETHForTokens(uint256,(address,address,bool,address)[],address,uint256)")
    );
    assert_eq!(
        aerodrome::SWAP_EXACT_TOKENS_FOR_ETH,
        selector(
            "swapExactTokensForETH(uint256,uint256,(address,address,bool,address)[],address,uint256)"
        )
    );
}

#[test]
fn curve_selectors() {
    assert_eq!(
        curve::EXCHANGE_STABLE,
        selector("exchange(int128,int128,uint256,uint256)")
    );
    assert_eq!(
        curve::EXCHANGE_USE_ETH,
        selector("exchange(uint256,uint256,uint256,uint256,bool)")
    );
    assert_eq!(
        curve::EXCHANGE_RECEIVER,
        selector("exchange(uint256,uint256,uint256,uint256,address)")
    );
}
