//! What a build error says.

use amm_rpc::asset::{AssetId, ChainId};
use amm_rpc::execution::error::{BuildError, MissingAddr};
use amm_rpc::primitives::{B256, U256};

type AbiWord = alloy::primitives::U256;

/// A decoded number as a word.
fn word_of(n: AbiWord) -> U256 {
    let l = n.as_limbs();
    U256 { l3: l[3], l2: l[2], l1: l[1], l0: l[0] }
}

/// The word that ends in the given bytes.
fn left_padded(bytes: &[u8]) -> B256 {
    B256(word_of(AbiWord::from_be_slice(bytes)))
}

#[test]
fn missing_config_displays_chain_and_what() {
    let e = BuildError::MissingChainConfig {
        chain: ChainId(8453),
        what: MissingAddr::V2Router,
    };
    let msg = e.message();
    assert!(
        msg.contains("V2Router") && msg.contains("8453"),
        "expected display to contain 'V2Router' and '8453', got: {msg:?}"
    );
}

#[test]
fn asset_not_in_pool_displays_both_assets() {
    let input = AssetId::new(ChainId(1), left_padded(&[1]));
    let output = AssetId::new(ChainId(1), left_padded(&[2]));
    let e = BuildError::AssetNotInPool { input, output };
    let msg = e.message();
    assert!(msg.contains("->"), "expected '->' in display, got: {msg:?}");
}

#[test]
fn distinct_unit_variants_are_not_equal() {
    assert_ne!(BuildError::UnsupportedProtocol, BuildError::Overflow);
}
