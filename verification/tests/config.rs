//! Chain configuration.

use amm_rpc::asset::{AssetId, ChainId};
use amm_rpc::execution::config::{ChainConfig, Routers};
use amm_rpc::execution::error::{BuildError, MissingAddr};
use amm_rpc::primitives::{Address, B256, U256};

type AbiWord = alloy::primitives::U256;

/// A decoded number as a word.
fn word_of(n: AbiWord) -> U256 {
    let l = n.as_limbs();
    U256 { l3: l[3], l2: l[2], l1: l[1], l0: l[0] }
}

/// The address with the given bytes.
fn address_from(bytes: [u8; 20]) -> Address {
    let n = AbiWord::from_be_slice(&bytes);
    Address::from_word(B256(word_of(n)))
}

/// The address whose bytes are all `byte`.
fn repeat_byte(byte: u8) -> Address {
    address_from([byte; 20])
}

/// The word that ends in the given bytes.
fn left_padded(bytes: &[u8]) -> B256 {
    B256(word_of(AbiWord::from_be_slice(bytes)))
}

fn test_weth() -> AssetId {
    AssetId::new(ChainId(1), left_padded(&[0xC0]))
}

#[test]
fn native_sentinel_default_is_zero() {
    let cfg = ChainConfig::new(ChainId(1), test_weth());
    assert_eq!(cfg.native_sentinel, Address::zero());
}

#[test]
fn router_v2_missing_returns_missing_chain_config() {
    let cfg = ChainConfig::new(ChainId(1), test_weth());
    let err = cfg.router_v2().unwrap_err();
    assert!(
        matches!(
            err,
            BuildError::MissingChainConfig {
                what: MissingAddr::V2Router,
                ..
            }
        ),
        "expected MissingChainConfig {{ what: V2Router, .. }}, got: {err:?}"
    );
}

#[test]
fn router_v2_present_returns_ok_address() {
    let addr = repeat_byte(0xAB);
    let cfg = ChainConfig::new(ChainId(1), test_weth()).with_routers({
        let mut routers = Routers::default();
        routers.v2 = Some(addr);
        routers
    });
    assert_eq!(cfg.router_v2(), Ok(addr));
}

#[test]
fn router_v3_missing_returns_missing_chain_config() {
    let cfg = ChainConfig::new(ChainId(1), test_weth());
    let err = cfg.router_v3().unwrap_err();
    assert!(
        matches!(
            err,
            BuildError::MissingChainConfig {
                what: MissingAddr::V3Router,
                ..
            }
        ),
        "expected MissingChainConfig {{ what: V3Router, .. }}, got: {err:?}"
    );
}

#[test]
fn router_v3_present_returns_ok_address() {
    let addr = repeat_byte(0xCD);
    let cfg = ChainConfig::new(ChainId(1), test_weth()).with_routers({
        let mut routers = Routers::default();
        routers.v3 = Some(addr);
        routers
    });
    assert_eq!(cfg.router_v3(), Ok(addr));
}

#[test]
fn router_slipstream_missing_returns_missing_chain_config() {
    let cfg = ChainConfig::new(ChainId(1), test_weth());
    let err = cfg.router_slipstream().unwrap_err();
    assert!(
        matches!(
            err,
            BuildError::MissingChainConfig {
                what: MissingAddr::SlipstreamRouter,
                ..
            }
        ),
        "expected MissingChainConfig {{ what: SlipstreamRouter, .. }}, got: {err:?}"
    );
}

#[test]
fn router_slipstream_present_returns_ok_address() {
    let addr = repeat_byte(0xEF);
    let cfg = ChainConfig::new(ChainId(1), test_weth()).with_routers({
        let mut routers = Routers::default();
        routers.slipstream = Some(addr);
        routers
    });
    assert_eq!(cfg.router_slipstream(), Ok(addr));
}

#[test]
fn router_aerodrome_missing_returns_missing_chain_config() {
    let cfg = ChainConfig::new(ChainId(1), test_weth());
    let err = cfg.router_aerodrome().unwrap_err();
    assert!(
        matches!(
            err,
            BuildError::MissingChainConfig {
                what: MissingAddr::AerodromeRouter,
                ..
            }
        ),
        "expected MissingChainConfig {{ what: AerodromeRouter, .. }}, got: {err:?}"
    );
}

#[test]
fn router_aerodrome_present_returns_ok_address() {
    let addr = repeat_byte(0x12);
    let cfg = ChainConfig::new(ChainId(1), test_weth()).with_routers({
        let mut routers = Routers::default();
        routers.aerodrome = Some(addr);
        routers
    });
    assert_eq!(cfg.router_aerodrome(), Ok(addr));
}

#[test]
fn aerodrome_factory_missing_returns_missing_chain_config() {
    let cfg = ChainConfig::new(ChainId(1), test_weth());
    let err = cfg.aerodrome_factory().unwrap_err();
    assert!(
        matches!(
            err,
            BuildError::MissingChainConfig {
                what: MissingAddr::AerodromeFactory,
                ..
            }
        ),
        "expected MissingChainConfig {{ what: AerodromeFactory, .. }}, got: {err:?}"
    );
}

#[test]
fn aerodrome_factory_present_returns_ok_address() {
    let f = repeat_byte(0x42);
    let cfg = ChainConfig::new(ChainId(8453), test_weth()).with_routers({
        let mut routers = Routers::default();
        routers.aerodrome_factory = Some(f);
        routers
    });
    assert_eq!(cfg.aerodrome_factory(), Ok(f));
}

#[test]
fn router_universal_missing_returns_missing_chain_config() {
    let cfg = ChainConfig::new(ChainId(1), test_weth());
    let err = cfg.router_universal().unwrap_err();
    assert!(
        matches!(
            err,
            BuildError::MissingChainConfig {
                what: MissingAddr::UniversalRouter,
                ..
            }
        ),
        "expected MissingChainConfig {{ what: UniversalRouter, .. }}, got: {err:?}"
    );
}

#[test]
fn router_universal_present_returns_ok_address() {
    let addr = repeat_byte(0x34);
    let cfg = ChainConfig::new(ChainId(1), test_weth()).with_routers({
        let mut routers = Routers::default();
        routers.universal = Some(addr);
        routers
    });
    assert_eq!(cfg.router_universal(), Ok(addr));
}

#[test]
fn permit2_missing_returns_missing_chain_config() {
    let cfg = ChainConfig::new(ChainId(1), test_weth());
    let err = cfg.permit2().unwrap_err();
    assert!(
        matches!(
            err,
            BuildError::MissingChainConfig {
                what: MissingAddr::Permit2,
                ..
            }
        ),
        "expected MissingChainConfig {{ what: Permit2, .. }}, got: {err:?}"
    );
}

#[test]
fn permit2_present_returns_ok_address() {
    let addr = repeat_byte(0x56);
    let cfg = ChainConfig::new(ChainId(1), test_weth()).with_routers({
        let mut routers = Routers::default();
        routers.permit2 = Some(addr);
        routers
    });
    assert_eq!(cfg.permit2(), Ok(addr));
}
