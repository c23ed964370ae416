//! Per-chain router and sentinel addresses.
use crate::asset::{AssetId, ChainId};
use crate::execution::error::{BuildError, MissingAddr};
use crate::primitives::Address;
use vstd::prelude::*;

verus! {

/// The router contracts of one chain. A protocol that is not deployed there has
/// no address.
#[derive(Clone, Copy, Debug, PartialEq, Eq, Structural)]
#[non_exhaustive]
pub struct Routers {
    /// Uniswap V2 router.
    pub v2: Option<Address>,
    /// Uniswap V3 swap router.
    pub v3: Option<Address>,
    /// Uniswap Universal Router.
    pub universal: Option<Address>,
    /// Uniswap V4 PoolManager.
    pub pool_manager: Option<Address>,
    /// Permit2.
    pub permit2: Option<Address>,
    /// Slipstream router.
    pub slipstream: Option<Address>,
    /// Aerodrome (Solidly) router.
    pub aerodrome: Option<Address>,
    /// Aerodrome (Solidly) pool factory.
    pub aerodrome_factory: Option<Address>,
    /// Curve router.
    pub curve: Option<Address>,
}

impl Routers {
    /// No address at all.
    pub open spec fn none() -> Routers {
        Routers {
            v2: None,
            v3: None,
            universal: None,
            pool_manager: None,
            permit2: None,
            slipstream: None,
            aerodrome: None,
            aerodrome_factory: None,
            curve: None,
        }
    }
}

impl Default for Routers {
    fn default() -> (r: Routers)
        ensures
            r == Routers::none(),
    {
        Routers {
            v2: None,
            v3: None,
            universal: None,
            pool_manager: None,
            permit2: None,
            slipstream: None,
            aerodrome: None,
            aerodrome_factory: None,
            curve: None,
        }
    }
}

/// What the build layer knows of one chain.
#[derive(Clone, Copy, Debug, PartialEq, Eq, Structural)]
#[non_exhaustive]
pub struct ChainConfig {
    /// The chain this configuration applies to.
    pub chain: ChainId,
    /// The wrapped native token.
    pub weth: AssetId,
    /// The address that stands for the native token where an address is asked
    /// for. The zero address unless overridden.
    pub native_sentinel: Address,
    /// The router contracts.
    pub routers: Routers,
}

/// An address that is configured, or the error that names the one that is not.
pub open spec fn configured(addr: Option<Address>, chain: ChainId, what: MissingAddr) -> Result<
    Address,
    BuildError,
> {
    match addr {
        Some(a) => Ok(a),
        None => Err(BuildError::MissingChainConfig { chain, what }),
    }
}

fn require_address(addr: Option<Address>, chain: ChainId, what: MissingAddr) -> (r: Result<
    Address,
    BuildError,
>)
    ensures
        r == configured(addr, chain, what),
{
    match addr {
        Some(a) => Ok(a),
        None => Err(BuildError::MissingChainConfig { chain, what }),
    }
}

impl ChainConfig {
    /// A configuration without routers, whose native sentinel is the zero
    /// address.
    pub fn new(chain: ChainId, weth: AssetId) -> (r: ChainConfig)
        ensures
            r.chain == chain,
            r.weth == weth,
            r.native_sentinel == Address::zero(),
            r.routers == Routers::none(),
    {
        ChainConfig { chain, weth, native_sentinel: Address::zero(), routers: Routers::default() }
    }

    /// The same configuration with these routers.
    pub fn with_routers(self, routers: Routers) -> (r: ChainConfig)
        ensures
            r == (ChainConfig { routers, ..self }),
    {
        ChainConfig { routers, ..self }
    }

    /// The same configuration with this native sentinel.
    pub fn with_native_sentinel(self, sentinel: Address) -> (r: ChainConfig)
        ensures
            r == (ChainConfig { native_sentinel: sentinel, ..self }),
    {
        ChainConfig { native_sentinel: sentinel, ..self }
    }

    /// The Uniswap V2 router, or the error that it is missing.
    pub fn router_v2(&self) -> (r: Result<Address, BuildError>)
        ensures
            r == configured(self.routers.v2, self.chain, MissingAddr::V2Router),
    {
        require_address(self.routers.v2, self.chain, MissingAddr::V2Router)
    }

    /// The Uniswap V3 router, or the error that it is missing.
    pub fn router_v3(&self) -> (r: Result<Address, BuildError>)
        ensures
            r == configured(self.routers.v3, self.chain, MissingAddr::V3Router),
    {
        require_address(self.routers.v3, self.chain, MissingAddr::V3Router)
    }

    /// The Slipstream router, or the error that it is missing.
    pub fn router_slipstream(&self) -> (r: Result<Address, BuildError>)
        ensures
            r == configured(self.routers.slipstream, self.chain, MissingAddr::SlipstreamRouter),
    {
        require_address(self.routers.slipstream, self.chain, MissingAddr::SlipstreamRouter)
    }

    /// The Aerodrome router, or the error that it is missing.
    pub fn router_aerodrome(&self) -> (r: Result<Address, BuildError>)
        ensures
            r == configured(self.routers.aerodrome, self.chain, MissingAddr::AerodromeRouter),
    {
        require_address(self.routers.aerodrome, self.chain, MissingAddr::AerodromeRouter)
    }

    /// The Aerodrome pool factory, or the error that it is missing.
    pub fn aerodrome_factory(&self) -> (r: Result<Address, BuildError>)
        ensures
            r == configured(
                self.routers.aerodrome_factory,
                self.chain,
                MissingAddr::AerodromeFactory,
            ),
    {
        require_address(self.routers.aerodrome_factory, self.chain, MissingAddr::AerodromeFactory)
    }

    /// The Curve router, or the error that it is missing.
    pub fn router_curve(&self) -> (r: Result<Address, BuildError>)
        ensures
            r == configured(self.routers.curve, self.chain, MissingAddr::CurveRouter),
    {
        require_address(self.routers.curve, self.chain, MissingAddr::CurveRouter)
    }

    /// The Universal Router, or the error that it is missing.
    pub fn router_universal(&self) -> (r: Result<Address, BuildError>)
        ensures
            r == configured(self.routers.universal, self.chain, MissingAddr::UniversalRouter),
    {
        require_address(self.routers.universal, self.chain, MissingAddr::UniversalRouter)
    }

    /// The Permit2 contract, or the error that it is missing.
    pub fn permit2(&self) -> (r: Result<Address, BuildError>)
        ensures
            r == configured(self.routers.permit2, self.chain, MissingAddr::Permit2),
    {
        require_address(self.routers.permit2, self.chain, MissingAddr::Permit2)
    }
}

} // verus!
