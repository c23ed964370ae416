//! Floors, ceilings and compounded tolerances.

use amm_rpc::asset::{AssetAmount, AssetId, Bps, ChainId};
use amm_rpc::primitives::{B256, U256};
use amm_rpc::slippage::Slippage;

/// A small number as a word.
fn u(n: impl Into<u128>) -> U256 {
    let n: u128 = n.into();
    U256 { l3: 0, l2: 0, l1: (n >> 64) as u64, l0: n as u64 }
}

type AbiWord = alloy::primitives::U256;

/// A decoded number as a word.
fn word_of(n: AbiWord) -> U256 {
    let l = n.as_limbs();
    U256 { l3: l[3], l2: l[2], l1: l[1], l0: l[0] }
}

/// The word that ends in the given bytes.
fn left_padded(bytes: &[u8]) -> B256 {
    B256(word_of(AbiWord::from_be_slice(bytes)))
}

/// The floor of a quote under a tolerance.
fn floor(bps: u16, quoted: U256) -> U256 {
    Slippage::from_bps(Bps(bps)).min_amount_out(&AssetAmount::new(asset(), quoted)).raw
}

/// The ceiling of a quote under a tolerance.
fn ceiling(bps: u16, quoted: U256) -> U256 {
    Slippage::from_bps(Bps(bps)).max_amount_in(&AssetAmount::new(asset(), quoted)).raw
}

/// What a tolerance compounds to.
fn compounded(bps: u16, hops: usize) -> u16 {
    Slippage::from_bps(Bps(bps)).compound(hops).bps().0
}

fn asset() -> AssetId {
    AssetId::new(ChainId(1), left_padded(&[7]))
}

#[test]
fn the_floor_rounds_down() {
    assert_eq!(floor(100, u(1000u64)), u(990u64));
    assert_eq!(floor(50, u(1000u64)), u(995u64));
    assert_eq!(floor(50, u(999u64)), u(994u64));
    assert_eq!(floor(1, u(1u64)), u(0u64));
    assert_eq!(floor(10_000, u(1000u64)), u(0u64));
    assert_eq!(floor(u16::MAX, u(1000u64)), u(0u64));
}

#[test]
fn the_ceiling_rounds_up() {
    assert_eq!(ceiling(100, u(500u64)), u(505u64));
    assert_eq!(ceiling(50, u(999u64)), u(1004u64));
    assert_eq!(ceiling(1, u(1u64)), u(2u64));
    assert_eq!(ceiling(10_000, u(1000u64)), u(2000u64));
}

#[test]
fn the_quoted_asset_is_kept() {
    let quoted = AssetAmount::new(asset(), u(1000u64));
    let s = Slippage::from_bps(Bps(100));
    assert_eq!(s.bps(), Bps(100));
    assert_eq!(s.min_amount_out(&quoted).asset, asset());
    assert_eq!(s.max_amount_in(&quoted).asset, asset());
}

#[test]
fn bounds_of_wide_quotes() {
    assert_eq!(ceiling(50, U256::max()), U256::max());
    assert_eq!(floor(0, U256::max()), U256::max());
    // Half of two to the 255th.
    let top = U256 { l3: 1 << 63, l2: 0, l1: 0, l0: 0 };
    assert_eq!(floor(5000, top), U256 { l3: 1 << 62, l2: 0, l1: 0, l0: 0 });
    let half = U256 { l3: 0, l2: 1 << 63, l1: 0, l0: 0 };
    assert_eq!(ceiling(10_000, half), U256 { l3: 1, l2: 0, l1: 0, l0: 0 });
}

#[test]
fn bounds_enclose_quotes_and_widen() {
    let quoted = u(123_456_789u64);
    assert_eq!(floor(0, quoted), quoted);
    assert_eq!(ceiling(0, quoted), quoted);
    assert!(floor(50, quoted) < quoted && quoted < ceiling(50, quoted));
    assert!(floor(60, quoted) < floor(50, quoted));
    assert!(ceiling(60, quoted) > ceiling(50, quoted));
    assert!(floor(50, u(123_000_000u64)) < floor(50, quoted));
    assert!(ceiling(50, u(123_000_000u64)) < ceiling(50, quoted));
}

#[test]
fn tolerances_compound_by_what_is_kept() {
    assert_eq!(compounded(50, 0), 0);
    assert_eq!(compounded(50, 1), 50);
    // 1 - 0.995^2 is 0.009975.
    assert_eq!(compounded(50, 2), 99);
    // 1 - 0.99^3 is 0.029701.
    assert_eq!(compounded(100, 3), 297);
    // 1 - 0.5^4 is 0.9375.
    assert_eq!(compounded(5000, 4), 9375);
    assert_eq!(compounded(10_000, 2), 10_000);
    assert_eq!(compounded(u16::MAX, 2), 10_000);
    assert_eq!(compounded(0, 5), 0);
}

#[test]
fn more_hops_never_tolerate_less() {
    for hops in 0..12 {
        assert!(compounded(77, hops) <= compounded(77, hops + 1));
        assert!(compounded(77, hops) <= 10_000);
    }
}
