//! Routes and the spans they fall into.

use amm_rpc::asset::{AssetId, ChainId, PoolKind};
use amm_rpc::execution::error::BuildError;
use amm_rpc::execution::executable::as_executable;
use amm_rpc::execution::routing::{Route, RouterKind, RouterSpan, partition};
use amm_rpc::execution::types::TradeType;
use amm_rpc::pools::{
    AerodromeSlipstreamPool, AerodromeStablePool, AerodromeVolatilePool, CurvePool, OtherPool,
    Pool, UniswapV2Pool, UniswapV3Pool, UniswapV4Pool,
};
use amm_rpc::primitives::{Address, B256, U256};

type AbiWord = alloy::primitives::U256;

/// A decoded number as a word.
fn word_of(n: AbiWord) -> U256 {
    let l = n.as_limbs();
    U256 { l3: l[3], l2: l[2], l1: l[1], l0: l[0] }
}

/// The word that ends in the given bytes.
fn left_padded(bytes: &[u8]) -> B256 {
    B256(word_of(AbiWord::from_be_slice(bytes)))
}

fn asset(byte: u8) -> AssetId {
    AssetId::new(ChainId(1), left_padded(&[byte]))
}

fn v2(a: u8, b: u8) -> Pool {
    Pool::UniswapV2(UniswapV2Pool { assets: [asset(a), asset(b)] })
}

fn v3(a: u8, b: u8) -> Pool {
    Pool::UniswapV3(UniswapV3Pool { assets: [asset(a), asset(b)], fee_pips: 500 })
}

fn v4(a: u8, b: u8) -> Pool {
    Pool::UniswapV4(UniswapV4Pool {
        assets: [asset(a), asset(b)],
        key_fee: 500,
        tick_spacing: 10,
        hooks_address: Address::zero(),
    })
}

fn stable(a: u8, b: u8) -> Pool {
    Pool::AerodromeStable(AerodromeStablePool { assets: [asset(a), asset(b)] })
}

fn volatile(a: u8, b: u8) -> Pool {
    Pool::AerodromeVolatile(AerodromeVolatilePool { assets: [asset(a), asset(b)] })
}

fn slipstream(a: u8, b: u8) -> Pool {
    Pool::AerodromeSlipstream(AerodromeSlipstreamPool {
        assets: [asset(a), asset(b)],
        tick_spacing: 100,
    })
}

fn curve(a: u8, b: u8) -> Pool {
    Pool::Curve(CurvePool {
        assets: vec![asset(a), asset(b)],
        pool_address: None,
        interface: None,
    })
}

fn other(a: u8, b: u8) -> Pool {
    Pool::Other(OtherPool { assets: vec![asset(a), asset(b)] })
}

/// The route through the pools, over the assets 1, 2, 3, ...
fn route(pools: Vec<Pool>) -> Route {
    let mut path = vec![asset(1)];
    for i in 0..pools.len() {
        path.push(asset(i as u8 + 2));
    }
    Route { pools, path, trade_type: TradeType::ExactIn }
}

#[test]
fn every_family_has_its_router() {
    assert_eq!(RouterKind::of(&v2(1, 2)), Some(RouterKind::UniswapUniversal));
    assert_eq!(RouterKind::of(&v3(1, 2)), Some(RouterKind::UniswapUniversal));
    assert_eq!(RouterKind::of(&v4(1, 2)), Some(RouterKind::UniswapUniversal));
    assert_eq!(RouterKind::of(&stable(1, 2)), Some(RouterKind::Aerodrome));
    assert_eq!(RouterKind::of(&volatile(1, 2)), Some(RouterKind::Aerodrome));
    assert_eq!(RouterKind::of(&slipstream(1, 2)), Some(RouterKind::Slipstream));
    assert_eq!(RouterKind::of(&curve(1, 2)), Some(RouterKind::Curve));
    assert_eq!(RouterKind::of(&other(1, 2)), None);
}

#[test]
fn spans_are_the_longest_runs_of_one_router() {
    let r = route(vec![
        v2(1, 2),
        v3(2, 3),
        stable(3, 4),
        volatile(4, 5),
        slipstream(5, 6),
        curve(6, 7),
        v4(7, 8),
    ]);
    let span = |kind: RouterKind, start: usize, end: usize| RouterSpan { kind, start, end };
    assert_eq!(
        partition(&r).unwrap(),
        vec![
            span(RouterKind::UniswapUniversal, 0, 2),
            span(RouterKind::Aerodrome, 2, 4),
            span(RouterKind::Slipstream, 4, 5),
            span(RouterKind::Curve, 5, 6),
            span(RouterKind::UniswapUniversal, 6, 7),
        ]
    );
    assert_eq!(partition(&route(vec![v2(1, 2), v4(2, 3)])).unwrap().len(), 1);
    assert_eq!(partition(&route(vec![])).unwrap(), vec![]);
}

#[test]
fn an_unknown_pool_is_not_partitioned() {
    let r = route(vec![v2(1, 2), other(2, 3)]);
    assert_eq!(partition(&r), Err(BuildError::UnsupportedProtocol));
}

#[test]
fn a_route_has_to_connect() {
    assert_eq!(route(vec![v2(1, 2), v3(3, 2)]).validate(), Ok(()));
    assert_eq!(route(vec![]).validate(), Err(BuildError::EmptyRoute));
    assert_eq!(route(vec![v2(1, 3)]).validate(), Err(BuildError::DisjointRoute));
    let mut short = route(vec![v2(1, 2)]);
    short.path.pop();
    assert_eq!(short.validate(), Err(BuildError::DisjointRoute));
}

#[test]
fn encoders_of_pools() {
    assert!(as_executable(&v3(1, 2)).is_some());
    assert!(as_executable(&v4(1, 2)).is_some());
    assert!(as_executable(&other(1, 2)).is_none());
    assert_eq!(v4(1, 2).kind(), Some(PoolKind::UniswapV4));
    assert_eq!(other(1, 2).kind(), None);
    assert_eq!(curve(1, 2).assets(), &[asset(1), asset(2)]);
}

#[test]
fn coins_are_found_by_position() {
    let pool = CurvePool {
        assets: vec![asset(1), asset(2), asset(3)],
        pool_address: None,
        interface: None,
    };
    assert_eq!(pool.coin_indices(&asset(3), &asset(1)), Some((2, 0)));
    assert_eq!(pool.coin_indices(&asset(3), &asset(4)), None);
    assert_eq!(pool.coin_indices(&asset(4), &asset(1)), None);
}
