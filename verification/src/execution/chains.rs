//! Ready-made configurations of the supported chains.
use crate::asset::{AssetId, ChainId};
use crate::execution::config::{ChainConfig, Routers};
use crate::primitives::Address;
use vstd::prelude::*;

verus! {

/// `addr` as the wrapped native token of `chain`.
fn weth_asset(chain: ChainId, addr: Address) -> (r: AssetId)
    ensures
        r.chain == chain,
        r.address() == addr,
        r.token.value() == addr.value(),
{
    AssetId::new(chain, addr.into_word())
}

/// Whether an optional address is this number.
pub open spec fn is_address(a: Option<Address>, n: nat) -> bool {
    a matches Some(x) && x.value() == n
}

/// A number stands for one address alone, and for none that is missing.
pub proof fn numbers_name_one_address(a: Option<Address>, b: Option<Address>, n: nat)
    requires
        is_address(a, n),
        is_address(b, n),
    ensures
        a is Some,
        a->0.value() == n,
        a->0.bytes() == b->0.bytes(),
{
}

/// Ethereum mainnet: Uniswap V2, V3, V4 and Curve.
#[must_use]
pub fn ethereum() -> (r: ChainConfig)
    ensures
        r.chain == ChainId(1),
        r.weth.chain == ChainId(1),
        r.weth.token.value() == 0xC02aaA39b223FE8D0A0e5C4F27eAD9083C756Cc2nat,
        r.native_sentinel == Address::zero(),
        is_address(r.routers.v2, 0x7a250d5630B4cF539739dF2C5dAcb4c659F2488Dnat),
        is_address(r.routers.v3, 0x68b3465833fb72A70ecDF485E0e4C7bD8665Fc45nat),
        is_address(r.routers.universal, 0x66a9893cc07d91d95644aedd05d03f95e1dba8afnat),
        is_address(r.routers.pool_manager, 0x000000000004444c5dc75cB358380D2e3dE08A90nat),
        is_address(r.routers.permit2, 0x000000000022D473030F116dDEE9F6B43aC78BA3nat),
        is_address(r.routers.curve, 0x45312ea0eFf7E09C83CBE249fa1d7598c4C8cd4enat),
        r.routers.slipstream is None,
        r.routers.aerodrome is None,
        r.routers.aerodrome_factory is None,
{
    let chain = ChainId(1);
    let weth = Address { hi: 0xC02aaA39, mid: 0xb223FE8D0A0e5C4F, lo: 0x27eAD9083C756Cc2 };
    let mut routers = Routers::default();
    routers.v2 = Some(Address { hi: 0x7a250d56, mid: 0x30B4cF539739dF2C, lo: 0x5dAcb4c659F2488D });
    routers.v3 = Some(Address { hi: 0x68b34658, mid: 0x33fb72A70ecDF485, lo: 0xE0e4C7bD8665Fc45 });
    routers.universal = Some(
        Address { hi: 0x66a9893c, mid: 0xc07d91d95644aedd, lo: 0x05d03f95e1dba8af },
    );
    routers.pool_manager = Some(
        Address { hi: 0x00000000, mid: 0x0004444c5dc75cB3, lo: 0x58380D2e3dE08A90 },
    );
    routers.permit2 = Some(
        Address { hi: 0x00000000, mid: 0x0022D473030F116d, lo: 0xDEE9F6B43aC78BA3 },
    );
    routers.curve = Some(
        Address { hi: 0x45312ea0, mid: 0xeFf7E09C83CBE249, lo: 0xfa1d7598c4C8cd4e },
    );
    ChainConfig::new(chain, weth_asset(chain, weth)).with_routers(routers)
}

/// Base: Uniswap V2, V3 and V4, Aerodrome and Slipstream. The V2 router is the
/// `UniswapV2Router02` of Uniswap's published V2 deployments.
#[must_use]
pub fn base() -> (r: ChainConfig)
    ensures
        r.chain == ChainId(8453),
        r.weth.chain == ChainId(8453),
        r.weth.token.value() == 0x4200000000000000000000000000000000000006nat,
        r.native_sentinel == Address::zero(),
        is_address(r.routers.v2, 0x4752ba5DBc23f44D87826276BF6Fd6b1C372aD24nat),
        is_address(r.routers.v3, 0x2626664c2603336E57B271c5C0b26F421741e481nat),
        is_address(r.routers.universal, 0x6fF5693b99212Da76ad316178A184AB56D299b43nat),
        is_address(r.routers.permit2, 0x000000000022D473030F116dDEE9F6B43aC78BA3nat),
        is_address(r.routers.aerodrome, 0xcF77a3Ba9A5CA399B7c97c74d54e5b1Beb874E43nat),
        is_address(r.routers.aerodrome_factory, 0x420DD381b31aEf6683db6B902084cB0FFECe40Danat),
        is_address(r.routers.slipstream, 0xBE6D8f0d05cC4be24d5167a3eF062215bE6D18a5nat),
        r.routers.pool_manager is None,
        r.routers.curve is None,
{
    let chain = ChainId(8453);
    let weth = Address { hi: 0x42000000, mid: 0x0000000000000000, lo: 0x0000000000000006 };
    let mut routers = Routers::default();
    routers.v2 = Some(Address { hi: 0x4752ba5D, mid: 0xBc23f44D87826276, lo: 0xBF6Fd6b1C372aD24 });
    routers.v3 = Some(Address { hi: 0x2626664c, mid: 0x2603336E57B271c5, lo: 0xC0b26F421741e481 });
    routers.universal = Some(
        Address { hi: 0x6fF5693b, mid: 0x99212Da76ad31617, lo: 0x8A184AB56D299b43 },
    );
    routers.permit2 = Some(
        Address { hi: 0x00000000, mid: 0x0022D473030F116d, lo: 0xDEE9F6B43aC78BA3 },
    );
    routers.aerodrome = Some(
        Address { hi: 0xcF77a3Ba, mid: 0x9A5CA399B7c97c74, lo: 0xd54e5b1Beb874E43 },
    );
    routers.aerodrome_factory = Some(
        Address { hi: 0x420DD381, mid: 0xb31aEf6683db6B90, lo: 0x2084cB0FFECe40Da },
    );
    routers.slipstream = Some(
        Address { hi: 0xBE6D8f0d, mid: 0x05cC4be24d5167a3, lo: 0xeF062215bE6D18a5 },
    );
    ChainConfig::new(chain, weth_asset(chain, weth)).with_routers(routers)
}

} // verus!
