//! What the encoders read of a pool: its assets and its identity.
use crate::asset::{AssetId, PoolKind};
use crate::primitives::Address;
use vstd::prelude::*;

verus! {

/// A Uniswap V2 pair.
#[derive(Clone, Copy, Debug)]
pub struct UniswapV2Pool {
    pub assets: [AssetId; 2],
}

/// A Uniswap V3 pool with its fee in hundredths of a basis point.
#[derive(Clone, Copy, Debug)]
pub struct UniswapV3Pool {
    pub assets: [AssetId; 2],
    pub fee_pips: u32,
}

/// A Uniswap V4 pool, its assets in the order of its key.
#[derive(Clone, Copy, Debug)]
pub struct UniswapV4Pool {
    pub assets: [AssetId; 2],
    pub key_fee: u32,
    pub tick_spacing: i32,
    pub hooks_address: Address,
}

/// An Aerodrome stable pair.
#[derive(Clone, Copy, Debug)]
pub struct AerodromeStablePool {
    pub assets: [AssetId; 2],
}

/// An Aerodrome volatile pair.
#[derive(Clone, Copy, Debug)]
pub struct AerodromeVolatilePool {
    pub assets: [AssetId; 2],
}

/// An Aerodrome Slipstream pool.
#[derive(Clone, Copy, Debug)]
pub struct AerodromeSlipstreamPool {
    pub assets: [AssetId; 2],
    pub tick_spacing: i32,
}

/// The `exchange` entrypoint that a Curve pool has.
#[derive(Clone, Copy, Debug, PartialEq, Eq, Structural)]
#[non_exhaustive]
pub enum CurveInterface {
    /// `exchange(int128,int128,uint256,uint256)`.
    StableI128,
    /// The same, with a return value.
    StableI128Ng,
    /// `exchange(uint256,uint256,uint256,uint256,bool)`, the flag for native ETH.
    CryptoU256UseEth,
    /// `exchange(uint256,uint256,uint256,uint256,address)`, the address for the
    /// receiver.
    CryptoU256Receiver,
}

/// A Curve pool. Its address and entrypoint are known once it is registered for
/// execution.
#[derive(Clone, Debug)]
pub struct CurvePool {
    pub assets: Vec<AssetId>,
    pub pool_address: Option<Address>,
    pub interface: Option<CurveInterface>,
}

/// The place of an asset in a list: its first index.
pub open spec fn first_index(assets: Seq<AssetId>, a: AssetId, i: int) -> bool {
    &&& 0 <= i < assets.len()
    &&& assets[i] == a
    &&& forall|j: int| 0 <= j < i ==> assets[j] != a
}

/// The index of the first occurrence of `a`, if it occurs.
pub(crate) fn index_of(assets: &[AssetId], a: &AssetId) -> (r: Option<usize>)
    ensures
        match r {
            Some(i) => first_index(assets@, *a, i as int),
            None => !assets@.contains(*a),
        },
{
    let mut i: usize = 0;
    while i < assets.len()
        invariant
            i <= assets@.len(),
            forall|j: int| 0 <= j < i ==> assets@[j] != *a,
        decreases assets@.len() - i,
    {
        if assets[i] == *a {
            return Some(i);
        }
        i = i + 1;
    }
    None
}

impl CurvePool {
    /// The index of each of two coins, if the pool has both.
    pub open spec fn indices(self, input: AssetId, output: AssetId) -> Option<(nat, nat)> {
        if self.assets@.contains(input) && self.assets@.contains(output) {
            Some(
                (
                    (choose|i: int| first_index(self.assets@, input, i)) as nat,
                    (choose|j: int| first_index(self.assets@, output, j)) as nat,
                ),
            )
        } else {
            None
        }
    }

    /// The index of each of two coins, if the pool has both.
    pub fn coin_indices(&self, input: &AssetId, output: &AssetId) -> (r: Option<(usize, usize)>)
        ensures
            match r {
                Some((i, j)) => self.indices(*input, *output) == Some((i as nat, j as nat))
                    && first_index(self.assets@, *input, i as int) && first_index(
                    self.assets@,
                    *output,
                    j as int,
                ),
                None => self.indices(*input, *output) is None,
            },
    {
        let i = index_of(self.assets.as_slice(), input);
        let j = index_of(self.assets.as_slice(), output);
        match (i, j) {
            (Some(i), Some(j)) => {
                proof {
                    assert(self.assets@[i as int] == *input);
                    assert(self.assets@[j as int] == *output);
                    let a = choose|k: int| first_index(self.assets@, *input, k);
                    let b = choose|k: int| first_index(self.assets@, *output, k);
                    assert(first_index(self.assets@, *input, a));
                    assert(first_index(self.assets@, *output, b));
                    assert(a == i);
                    assert(b == j);
                }
                Some((i, j))
            },
            _ => None,
        }
    }
}

/// Two coins have indices exactly where the pool has both, and each goes by the
/// first place that it has.
pub proof fn coins_go_by_their_first_place(pool: CurvePool, input: AssetId, output: AssetId)
    ensures
        match pool.indices(input, output) {
            Some((i, j)) => {
                &&& i < pool.assets@.len() && j < pool.assets@.len()
                &&& pool.assets@[i as int] == input
                &&& pool.assets@[j as int] == output
                &&& !pool.assets@.take(i as int).contains(input)
                &&& !pool.assets@.take(j as int).contains(output)
            },
            None => !pool.assets@.contains(input) || !pool.assets@.contains(output),
        },
{
    if pool.assets@.contains(input) && pool.assets@.contains(output) {
        lemma_first_index(pool.assets@, input, pool.assets@.index_of(input));
        lemma_first_index(pool.assets@, output, pool.assets@.index_of(output));
    }
}

/// An asset that has a place has a first one.
proof fn lemma_first_index(assets: Seq<AssetId>, a: AssetId, i: int)
    requires
        0 <= i < assets.len(),
        assets[i] == a,
    ensures
        exists|k: int| first_index(assets, a, k),
    decreases i,
{
    if exists|j: int| 0 <= j < i && assets[j] == a {
        let j = choose|j: int| 0 <= j < i && assets[j] == a;
        lemma_first_index(assets, a, j);
    } else {
        assert(first_index(assets, a, i));
    }
}

/// A pool that the library has no encoder for.
#[derive(Clone, Debug)]
pub struct OtherPool {
    pub assets: Vec<AssetId>,
}

/// Any pool of a route.
#[derive(Clone, Debug)]
pub enum Pool {
    UniswapV2(UniswapV2Pool),
    UniswapV3(UniswapV3Pool),
    UniswapV4(UniswapV4Pool),
    AerodromeStable(AerodromeStablePool),
    AerodromeVolatile(AerodromeVolatilePool),
    AerodromeSlipstream(AerodromeSlipstreamPool),
    Curve(CurvePool),
    Other(OtherPool),
}

impl Pool {
    /// The assets that the pool trades.
    pub open spec fn asset_seq(self) -> Seq<AssetId> {
        match self {
            Pool::UniswapV2(p) => p.assets@,
            Pool::UniswapV3(p) => p.assets@,
            Pool::UniswapV4(p) => p.assets@,
            Pool::AerodromeStable(p) => p.assets@,
            Pool::AerodromeVolatile(p) => p.assets@,
            Pool::AerodromeSlipstream(p) => p.assets@,
            Pool::Curve(p) => p.assets@,
            Pool::Other(p) => p.assets@,
        }
    }

    /// The family of the pool, if it is a known one.
    pub open spec fn kind_of(self) -> Option<PoolKind> {
        match self {
            Pool::UniswapV2(_) => Some(PoolKind::UniswapV2),
            Pool::UniswapV3(_) => Some(PoolKind::UniswapV3),
            Pool::UniswapV4(_) => Some(PoolKind::UniswapV4),
            Pool::AerodromeStable(_) => Some(PoolKind::AerodromeStable),
            Pool::AerodromeVolatile(_) => Some(PoolKind::AerodromeVolatile),
            Pool::AerodromeSlipstream(_) => Some(PoolKind::AerodromeSlipstream),
            Pool::Curve(_) => Some(PoolKind::Curve),
            Pool::Other(_) => None,
        }
    }

    /// The assets that the pool trades.
    pub fn assets(&self) -> (r: &[AssetId])
        ensures
            r@ == self.asset_seq(),
    {
        match self {
            Pool::UniswapV2(p) => p.assets.as_slice(),
            Pool::UniswapV3(p) => p.assets.as_slice(),
            Pool::UniswapV4(p) => p.assets.as_slice(),
            Pool::AerodromeStable(p) => p.assets.as_slice(),
            Pool::AerodromeVolatile(p) => p.assets.as_slice(),
            Pool::AerodromeSlipstream(p) => p.assets.as_slice(),
            Pool::Curve(p) => p.assets.as_slice(),
            Pool::Other(p) => p.assets.as_slice(),
        }
    }

    /// The family of the pool, if it is a known one.
    pub fn kind(&self) -> (r: Option<PoolKind>)
        ensures
            r == self.kind_of(),
    {
        match self {
            Pool::UniswapV2(_) => Some(PoolKind::UniswapV2),
            Pool::UniswapV3(_) => Some(PoolKind::UniswapV3),
            Pool::UniswapV4(_) => Some(PoolKind::UniswapV4),
            Pool::AerodromeStable(_) => Some(PoolKind::AerodromeStable),
            Pool::AerodromeVolatile(_) => Some(PoolKind::AerodromeVolatile),
            Pool::AerodromeSlipstream(_) => Some(PoolKind::AerodromeSlipstream),
            Pool::Curve(_) => Some(PoolKind::Curve),
            Pool::Other(_) => None,
        }
    }
}

} // verus!
