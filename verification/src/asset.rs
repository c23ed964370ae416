//! Assets, amounts of them, and the prices and pool kinds that name them.
use crate::primitives::{Address, B256, U256};
use vstd::prelude::*;

verus! {

/// A chain, by its numeric id.
#[derive(Clone, Copy, Debug, PartialEq, Eq, PartialOrd, Ord, Hash, Structural)]
pub struct ChainId(pub u64);

/// A token on a chain. The slot holds the token's address in its rightmost 20
/// bytes.
#[derive(Clone, Copy, Debug, PartialEq, Eq, PartialOrd, Ord, Hash, Structural)]
pub struct AssetId {
    pub chain: ChainId,
    pub token: B256,
}

impl AssetId {
    pub fn new(chain: ChainId, token: B256) -> (r: AssetId)
        ensures
            r == (AssetId { chain, token }),
    {
        AssetId { chain, token }
    }

    /// The rightmost 20 bytes of the token slot.
    pub open spec fn address(self) -> Address {
        Address::from_word_spec(self.token)
    }
}

/// An amount of an asset in its smallest unit.
#[derive(Clone, Copy, Debug, PartialEq, Eq, PartialOrd, Ord, Hash, Structural)]
pub struct AssetAmount {
    pub asset: AssetId,
    pub raw: U256,
}

impl AssetAmount {
    pub fn new(asset: AssetId, raw: U256) -> (r: AssetAmount)
        ensures
            r == (AssetAmount { asset, raw }),
    {
        AssetAmount { asset, raw }
    }
}

/// A number of basis points: hundredths of a percent.
#[derive(Clone, Copy, Debug, PartialEq, Eq, PartialOrd, Ord, Hash, Structural)]
pub struct Bps(pub u16);

/// A price bound: `numerator / denominator` units of `quote` per unit of `base`.
#[derive(Clone, Copy, Debug, PartialEq, Eq, PartialOrd, Ord, Hash, Structural)]
pub struct Price {
    pub base: AssetId,
    pub quote: AssetId,
    pub numerator: U256,
    pub denominator: U256,
}

/// The pool families that the library can tell apart.
#[derive(Clone, Copy, Debug, PartialEq, Eq, PartialOrd, Ord, Hash, Structural)]
pub enum PoolKind {
    UniswapV2,
    UniswapV3,
    UniswapV4,
    AerodromeStable,
    AerodromeVolatile,
    AerodromeSlipstream,
    Curve,
}

/// Why the quoting layer had no figure for a pool or a path.
#[derive(Clone, Copy, Debug, PartialEq, Eq, Structural)]
#[non_exhaustive]
pub enum QuoteError {
    /// One of the two assets is not traded by the pool.
    AssetNotInPool { input: AssetId, output: AssetId },
    /// A pool on the path cannot be solved backwards from its output.
    ExactOutUnavailable { kind: PoolKind },
    /// The pool does not hold enough for the trade.
    InsufficientLiquidity,
    /// The arithmetic left the range of the pool's integers.
    Overflow,
}

} // verus!
