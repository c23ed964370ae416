//! Which pools have an encoder.

use amm_rpc::asset::{AssetId, ChainId};
use amm_rpc::execution::executable::as_executable;
use amm_rpc::pools::{Pool, UniswapV2Pool};
use amm_rpc::primitives::{B256, U256};

type AbiWord = alloy::primitives::U256;

/// A decoded number as a word.
fn word_of(n: AbiWord) -> U256 {
    let l = n.as_limbs();
    U256 { l3: l[3], l2: l[2], l1: l[1], l0: l[0] }
}

/// The word that ends in the given bytes.
fn left_padded(bytes: &[u8]) -> B256 {
    B256(word_of(AbiWord::from_be_slice(bytes)))
}

#[test]
fn as_executable_is_some_for_v2_pool() {
    let a = AssetId::new(ChainId(1), left_padded(&[1]));
    let b = AssetId::new(ChainId(1), left_padded(&[2]));
    let pool = UniswapV2Pool { assets: [a, b] };
    assert!(as_executable(&Pool::UniswapV2(pool)).is_some());
}
