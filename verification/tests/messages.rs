//! What errors say.

use amm_rpc::asset::{AssetId, ChainId, PoolKind};
use amm_rpc::error::RpcError;
use amm_rpc::execution::error::{BuildError, MissingAddr};
use amm_rpc::primitives::{B256, U256};

type AbiWord = alloy::primitives::U256;

/// A decoded number as a word.
fn word_of(n: AbiWord) -> U256 {
    let l = n.as_limbs();
    U256 { l3: l[3], l2: l[2], l1: l[1], l0: l[0] }
}

/// The word that ends in the given bytes.
fn left_padded(bytes: &[u8]) -> B256 {
    B256(word_of(AbiWord::from_be_slice(bytes)))
}

#[test]
fn every_build_error_has_its_text() {
    assert_eq!(BuildError::UnsupportedProtocol.message(), "protocol has no swap encoder");
    assert_eq!(
        BuildError::MissingChainConfig { chain: ChainId(8453), what: MissingAddr::CurveRouter }
            .message(),
        "missing CurveRouter for chain 8453"
    );
    assert_eq!(
        BuildError::UnresolvedRecipient.message(),
        "recipient must be resolved to an explicit address before building"
    );
    assert_eq!(
        BuildError::UnresolvedDeadline.message(),
        "deadline must be an absolute timestamp before building"
    );
    assert_eq!(
        BuildError::NativeMismatch.message(),
        "native intent used on both sides of the swap"
    );
    assert_eq!(BuildError::Overflow.message(), "numeric overflow encoding the swap");
    assert_eq!(BuildError::EmptyRoute.message(), "route has no pools");
    assert_eq!(BuildError::DisjointRoute.message(), "route pools and path do not connect");
    assert_eq!(
        BuildError::UnsupportedExactOut { kind: PoolKind::Curve }.message(),
        "exact output is not supported by Curve"
    );
}

#[test]
fn assets_are_shown_by_chain_and_word() {
    let input = AssetId::new(ChainId(1), left_padded(&[0xab, 0x0c]));
    let output = AssetId::new(ChainId(10), left_padded(&[]));
    let zeros = "0".repeat(60);
    assert_eq!(
        BuildError::AssetNotInPool { input, output }.message(),
        format!("asset not in pool: 1:0x{zeros}ab0c -> 10:0x{zeros}0000")
    );
}

#[test]
fn contracts_have_names() {
    assert_eq!(MissingAddr::V2Router.name(), "V2Router");
    assert_eq!(MissingAddr::V3Router.name(), "V3Router");
    assert_eq!(MissingAddr::UniversalRouter.name(), "UniversalRouter");
    assert_eq!(MissingAddr::PoolManager.name(), "PoolManager");
    assert_eq!(MissingAddr::Permit2.name(), "Permit2");
    assert_eq!(MissingAddr::Weth.name(), "Weth");
    assert_eq!(MissingAddr::SlipstreamRouter.name(), "SlipstreamRouter");
    assert_eq!(MissingAddr::AerodromeRouter.name(), "AerodromeRouter");
    assert_eq!(MissingAddr::AerodromeFactory.name(), "AerodromeFactory");
}

#[test]
fn every_rpc_error_has_its_text() {
    let detail = || "timeout".to_string();
    assert_eq!(RpcError::Transport(detail()).message(), "rpc transport error: timeout");
    assert_eq!(RpcError::Decode(detail()).message(), "decode error: timeout");
    assert_eq!(RpcError::NotFound(detail()).message(), "not found: timeout");
    assert_eq!(RpcError::Internal(detail()).message(), "internal error: timeout");
}
