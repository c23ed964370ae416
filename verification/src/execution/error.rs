//! Why a swap could not be built.
use crate::asset::{AssetId, ChainId, PoolKind};
use crate::text::{asset_text, decimal, push_asset, push_decimal};
use vstd::prelude::*;
use vstd::string::StringExecFns;

verus! {

/// Which contract address a chain configuration lacks.
#[derive(Clone, Copy, Debug, PartialEq, Eq, Structural)]
pub enum MissingAddr {
    V2Router,
    V3Router,
    UniversalRouter,
    PoolManager,
    Permit2,
    Weth,
    SlipstreamRouter,
    AerodromeRouter,
    AerodromeFactory,
    CurveRouter,
}

/// Every way a build can fail before anything is sent.
#[derive(Clone, Copy, Debug, PartialEq, Eq, Structural)]
#[non_exhaustive]
pub enum BuildError {
    /// The protocol has no encoder for what was asked.
    UnsupportedProtocol,
    /// A contract address is absent from the chain configuration.
    MissingChainConfig { chain: ChainId, what: MissingAddr },
    /// The recipient is still a placeholder.
    UnresolvedRecipient,
    /// The deadline is not an absolute timestamp.
    UnresolvedDeadline,
    /// Both sides of the swap are the native token.
    NativeMismatch,
    /// The pool does not trade one of the two assets for the other.
    AssetNotInPool { input: AssetId, output: AssetId },
    /// A value does not fit the type it is encoded as.
    Overflow,
    /// The route has no pool.
    EmptyRoute,
    /// The route's pools and path do not fit together.
    DisjointRoute,
    /// An exact output cannot be guaranteed on this route.
    UnsupportedExactOut { kind: PoolKind },
}

impl MissingAddr {
    /// The name of the contract.
    pub open spec fn label(self) -> Seq<char> {
        match self {
            MissingAddr::V2Router => "V2Router"@,
            MissingAddr::V3Router => "V3Router"@,
            MissingAddr::UniversalRouter => "UniversalRouter"@,
            MissingAddr::PoolManager => "PoolManager"@,
            MissingAddr::Permit2 => "Permit2"@,
            MissingAddr::Weth => "Weth"@,
            MissingAddr::SlipstreamRouter => "SlipstreamRouter"@,
            MissingAddr::AerodromeRouter => "AerodromeRouter"@,
            MissingAddr::AerodromeFactory => "AerodromeFactory"@,
            MissingAddr::CurveRouter => "CurveRouter"@,
        }
    }

    /// The name of the contract.
    pub fn name(&self) -> (r: &'static str)
        ensures
            r@ == self.label(),
    {
        match self {
            MissingAddr::V2Router => "V2Router",
            MissingAddr::V3Router => "V3Router",
            MissingAddr::UniversalRouter => "UniversalRouter",
            MissingAddr::PoolManager => "PoolManager",
            MissingAddr::Permit2 => "Permit2",
            MissingAddr::Weth => "Weth",
            MissingAddr::SlipstreamRouter => "SlipstreamRouter",
            MissingAddr::AerodromeRouter => "AerodromeRouter",
            MissingAddr::AerodromeFactory => "AerodromeFactory",
            MissingAddr::CurveRouter => "CurveRouter",
        }
    }
}

/// The name of a pool family.
pub open spec fn kind_label(kind: PoolKind) -> Seq<char> {
    match kind {
        PoolKind::UniswapV2 => "UniswapV2"@,
        PoolKind::UniswapV3 => "UniswapV3"@,
        PoolKind::UniswapV4 => "UniswapV4"@,
        PoolKind::AerodromeStable => "AerodromeStable"@,
        PoolKind::AerodromeVolatile => "AerodromeVolatile"@,
        PoolKind::AerodromeSlipstream => "AerodromeSlipstream"@,
        PoolKind::Curve => "Curve"@,
    }
}

/// No two families go by one name.
pub proof fn families_are_named_apart(a: PoolKind, b: PoolKind)
    requires
        kind_label(a) == kind_label(b),
    ensures
        a == b,
{
    reveal_strlit("UniswapV2");
    reveal_strlit("UniswapV3");
    reveal_strlit("UniswapV4");
    reveal_strlit("AerodromeStable");
    reveal_strlit("AerodromeVolatile");
    reveal_strlit("AerodromeSlipstream");
    reveal_strlit("Curve");
    assert("UniswapV2"@.len() == 9 && "UniswapV2"@[8] == '2');
    assert("UniswapV3"@.len() == 9 && "UniswapV3"@[8] == '3');
    assert("UniswapV4"@.len() == 9 && "UniswapV4"@[8] == '4');
    assert("AerodromeStable"@.len() == 15);
    assert("AerodromeVolatile"@.len() == 17);
    assert("AerodromeSlipstream"@.len() == 19);
    assert("Curve"@.len() == 5);
}

fn kind_name(kind: PoolKind) -> (r: &'static str)
    ensures
        r@ == kind_label(kind),
{
    match kind {
        PoolKind::UniswapV2 => "UniswapV2",
        PoolKind::UniswapV3 => "UniswapV3",
        PoolKind::UniswapV4 => "UniswapV4",
        PoolKind::AerodromeStable => "AerodromeStable",
        PoolKind::AerodromeVolatile => "AerodromeVolatile",
        PoolKind::AerodromeSlipstream => "AerodromeSlipstream",
        PoolKind::Curve => "Curve",
    }
}

impl BuildError {
    /// What [`BuildError::message`] says.
    pub open spec fn text(self) -> Seq<char> {
        match self {
            BuildError::UnsupportedProtocol => "protocol has no swap encoder"@,
            BuildError::MissingChainConfig { chain, what } => "missing "@ + what.label()
                + " for chain "@ + decimal(chain.0 as nat),
            BuildError::UnresolvedRecipient =>
                "recipient must be resolved to an explicit address before building"@,
            BuildError::UnresolvedDeadline =>
                "deadline must be an absolute timestamp before building"@,
            BuildError::NativeMismatch => "native intent used on both sides of the swap"@,
            BuildError::AssetNotInPool { input, output } => "asset not in pool: "@ + asset_text(
                input,
            ) + " -> "@ + asset_text(output),
            BuildError::Overflow => "numeric overflow encoding the swap"@,
            BuildError::EmptyRoute => "route has no pools"@,
            BuildError::DisjointRoute => "route pools and path do not connect"@,
            BuildError::UnsupportedExactOut { kind } => "exact output is not supported by "@
                + kind_label(kind),
        }
    }

    /// The text shown for the error.
    pub fn message(&self) -> (r: String)
        ensures
            r@ == self.text(),
    {
        match self {
            BuildError::UnsupportedProtocol => "protocol has no swap encoder".to_owned(),
            BuildError::MissingChainConfig { chain, what } => {
                let mut out = "missing ".to_owned();
                out.append(what.name());
                out.append(" for chain ");
                push_decimal(&mut out, chain.0);
                out
            },
            BuildError::UnresolvedRecipient =>
                "recipient must be resolved to an explicit address before building".to_owned(),
            BuildError::UnresolvedDeadline =>
                "deadline must be an absolute timestamp before building".to_owned(),
            BuildError::NativeMismatch =>
                "native intent used on both sides of the swap".to_owned(),
            BuildError::AssetNotInPool { input, output } => {
                let mut out = "asset not in pool: ".to_owned();
                push_asset(&mut out, input);
                out.append(" -> ");
                push_asset(&mut out, output);
                out
            },
            BuildError::Overflow => "numeric overflow encoding the swap".to_owned(),
            BuildError::EmptyRoute => "route has no pools".to_owned(),
            BuildError::DisjointRoute => "route pools and path do not connect".to_owned(),
            BuildError::UnsupportedExactOut { kind } => {
                let mut out = "exact output is not supported by ".to_owned();
                out.append(kind_name(*kind));
                out
            },
        }
    }
}

} // verus!
