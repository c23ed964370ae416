//! What the build layer hands back, and the single-hop route it is asked for.
use crate::asset::{AssetAmount, AssetId, Bps, ChainId};
use crate::execution::error::BuildError;
use crate::execution::types::{TradeType, UnsignedTx};
use crate::primitives::{Address, U256};
use vstd::prelude::*;

verus! {

/// The assets a swap passes through, in order, and which side of it is fixed.
#[derive(Clone, Debug, PartialEq, Eq)]
pub struct Route {
    pub hops: Vec<AssetId>,
    pub trade_type: TradeType,
}

/// A [`Route`] with its assets as a sequence.
#[verifier::ext_equal]
pub struct RouteView {
    pub hops: Seq<AssetId>,
    pub trade_type: TradeType,
}

impl View for Route {
    type V = RouteView;

    open spec fn view(&self) -> RouteView {
        RouteView { hops: self.hops@, trade_type: self.trade_type }
    }
}

impl Route {
    /// The route of one pool: from `a` to `b`.
    pub fn new_single_hop(a: AssetId, b: AssetId, trade_type: TradeType) -> (r: Route)
        ensures
            r.hops@ == seq![a, b],
            r.trade_type == trade_type,
    {
        let hops: Vec<AssetId> = vec![a, b];
        assert(hops@ =~= seq![a, b]);
        Route { hops, trade_type }
    }
}

/// The allowance a swap needs before its transaction is sent.
#[derive(Clone, Copy, Debug, PartialEq, Eq, Structural)]
#[non_exhaustive]
pub struct ApprovalRequirement {
    /// The contract that will spend the tokens.
    pub spender: Address,
    /// The token to approve.
    pub token: AssetId,
    /// The least allowance that suffices.
    pub min_allowance: U256,
    /// Whether an existing allowance must be set to zero first.
    pub reset_first: bool,
}

/// Everything a signer and a submitter need for one swap.
#[derive(Clone, Debug, PartialEq, Eq)]
#[non_exhaustive]
pub struct PreparedSwap {
    /// The transaction to submit.
    pub tx: UnsignedTx,
    /// The least output the caller receives: the floor of an exact-in trade,
    /// the target of an exact-out trade. For native output the asset is the
    /// wrapped token, and the same amount arrives unwrapped.
    pub min_received: AssetAmount,
    /// The most input the caller spends; only an exact-out trade has it.
    pub max_spent: Option<AssetAmount>,
    /// The allowance to grant first, unless the input is native.
    pub approval: Option<ApprovalRequirement>,
    /// The estimated price impact, where there is an estimate.
    pub price_impact: Option<Bps>,
}

/// A [`PreparedSwap`] with its calldata as a sequence.
#[verifier::ext_equal]
pub struct SwapView {
    pub chain: ChainId,
    pub to: Address,
    pub data: Seq<u8>,
    pub value: U256,
    pub min_received: AssetAmount,
    pub max_spent: Option<AssetAmount>,
    pub approval: Option<ApprovalRequirement>,
    pub price_impact: Option<Bps>,
}

impl View for PreparedSwap {
    type V = SwapView;

    open spec fn view(&self) -> SwapView {
        SwapView {
            chain: self.tx.chain,
            to: self.tx.to,
            data: self.tx.data@,
            value: self.tx.value,
            min_received: self.min_received,
            max_spent: self.max_spent,
            approval: self.approval,
            price_impact: self.price_impact,
        }
    }
}

/// The result of a build with its calldata as a sequence.
pub open spec fn outcome(r: Result<PreparedSwap, BuildError>) -> Result<SwapView, BuildError> {
    match r {
        Ok(p) => Ok(p@),
        Err(e) => Err(e),
    }
}

} // verus!
