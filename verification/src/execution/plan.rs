//! Multi-pool swaps as a plan of transactions.
//!
//! [`plan`] cuts a route into spans of one router each and takes the quoted
//! amount at every boundary. [`Plan::next_tx`] then gives one transaction per
//! span, in order. Only the first span wraps native input, only the last pays
//! the recipient and unwraps native output; every other span delivers wrapped
//! tokens to the sender. A span behind the first spends what its predecessor
//! was seen to deliver.
//!
//! A span of one pool is encoded by the pool. A longer span is described by a
//! [`SpanCall`], for a builder of the span's router to encode.
use crate::asset::{AssetAmount, AssetId, Bps, QuoteError};
use crate::execution::config::ChainConfig;
use crate::execution::error::BuildError;
use crate::execution::executable::{as_executable, pool_exact_in};
use crate::execution::floor::{
    decided_by_floor, quotes_decide_only_the_floor, same_but_floor,
};
use crate::execution::laws::{exact_in_floors_the_output, exact_in_is_paid, paid_by};
use crate::execution::options::{ApprovalMode, Deadline, ExecutionOptions, OptionsView, Recipient};
use crate::execution::prepared::{self, outcome, PreparedSwap, RouteView, SwapView};
use crate::execution::protocols::common::resolve_deadline;
use crate::execution::routing::{
    all_classified, atomic_means_one_router, is_partition, lemma_span_bounds, one_router,
    partition, partition_is_unique, ExactOutPolicy, Route, RouterKind, RouterSpan,
};
use crate::execution::types::{Currency, CurrencyAmount, TradeType};
use crate::primitives::{two_128, u256_value_of, Address, U256};
use crate::slippage::{no_tolerance_is_exact, one_hop_keeps_the_tolerance, whole, Slippage};
use vstd::arithmetic::power::lemma_pow1;
use vstd::prelude::*;

verus! {

/// What a refusal of the quoting layer means for the plan: a pool that cannot be
/// solved backwards is named, anything else is a route that cannot be served.
pub open spec fn quote_error(e: QuoteError) -> BuildError {
    match e {
        QuoteError::ExactOutUnavailable { kind } => BuildError::UnsupportedExactOut { kind },
        _ => BuildError::UnsupportedProtocol,
    }
}

/// What a refusal of the quoting layer means for the plan: a pool that cannot be
/// solved backwards is named, anything else is a route that cannot be served.
pub fn map_quote_err(e: QuoteError) -> (r: BuildError)
    ensures
        r == quote_error(e),
{
    match e {
        QuoteError::ExactOutUnavailable { kind } => BuildError::UnsupportedExactOut { kind },
        _ => BuildError::UnsupportedProtocol,
    }
}

/// How a plan carries out its trade.
#[derive(Clone, Copy, Debug, PartialEq, Eq, Structural)]
pub enum ExactOutMode {
    /// By fixed inputs. The last span's floor is the override, where there is
    /// one: the target of an exact-out trade that may deliver more.
    ExactIn { final_floor_override: Option<U256> },
    /// By a fixed output, in one span, for at most this input.
    Strict { target: U256, amount_in_max: U256 },
}

/// The amount at every boundary of a route, from its start to its end, as the
/// quoting layer gave them.
pub struct PathQuotes {
    /// Solved forwards, from [`forward_start`].
    pub forward: Result<Vec<AssetAmount>, QuoteError>,
    /// Solved backwards, from [`backward_target`].
    pub backward: Result<Vec<AssetAmount>, QuoteError>,
}

/// Whether a quote has one amount for every boundary of a route.
pub open spec fn quotes_route(q: Result<Vec<AssetAmount>, QuoteError>, route: Route) -> bool {
    q matches Ok(v) ==> v@.len() == route.pools@.len() + 1
}

/// What an exact-out route is to be solved backwards from: the wanted amount of
/// its last asset. An exact-in route is not, nor one that does not hold together.
pub open spec fn target_of(route: Route, amount: U256) -> Option<AssetAmount> {
    if route.validity() is Ok && route.trade_type == TradeType::ExactOut {
        Some(AssetAmount { asset: route.path@.last(), raw: amount })
    } else {
        None
    }
}

/// What a route is to be quoted forwards from: the given amount of its first
/// asset, or, where the output is fixed, the amount that it was solved back to.
/// Without a solution, or on a route that does not hold together, from nothing.
pub open spec fn start_of(
    route: Route,
    amount: U256,
    backward: Result<Vec<AssetAmount>, QuoteError>,
) -> Option<AssetAmount> {
    if route.validity() is Err {
        None
    } else {
        match route.trade_type {
            TradeType::ExactIn => Some(AssetAmount { asset: route.path@[0], raw: amount }),
            TradeType::ExactOut => match backward {
                Ok(v) => if v@.len() > 0 {
                    Some(AssetAmount { asset: route.path@[0], raw: v@[0].raw })
                } else {
                    None
                },
                Err(_) => None,
            },
        }
    }
}

/// Whether quotes are those of a trade: one amount for every boundary, forwards
/// from what the trade starts with, backwards from what it is to deliver.
pub open spec fn quotes_trade(quotes: PathQuotes, route: Route, amount: U256) -> bool {
    &&& quotes_route(quotes.forward, route)
    &&& quotes_route(quotes.backward, route)
    &&& route.validity() is Ok ==> {
        &&& quotes.forward matches Ok(v) ==> start_of(route, amount, quotes.backward) == Some(v@[0])
        &&& route.trade_type == TradeType::ExactOut ==> (quotes.backward matches Ok(v)
            ==> target_of(route, amount) == Some(v@.last()))
    }
}

/// What an exact-out route is to be solved backwards from: the wanted amount of
/// its last asset. An exact-in route is not, nor one that does not hold together.
pub fn backward_target(route: &Route, amount: U256) -> (r: Option<AssetAmount>)
    ensures
        r == target_of(*route, amount),
{
    if route.validate().is_err() {
        return None;
    }
    match route.trade_type {
        TradeType::ExactIn => None,
        TradeType::ExactOut => Some(AssetAmount::new(route.path[route.path.len() - 1], amount)),
    }
}

/// What a route is to be quoted forwards from: the given amount of its first
/// asset, or, where the output is fixed, the amount that it was solved back to.
/// Without a solution, or on a route that does not hold together, from nothing.
pub fn forward_start(
    route: &Route,
    amount: U256,
    backward: &Result<Vec<AssetAmount>, QuoteError>,
) -> (r: Option<AssetAmount>)
    ensures
        r == start_of(*route, amount, *backward),
{
    if route.validate().is_err() {
        return None;
    }
    match route.trade_type {
        TradeType::ExactIn => Some(AssetAmount::new(route.path[0], amount)),
        TradeType::ExactOut => match backward {
            Ok(v) => {
                if v.len() > 0 {
                    Some(AssetAmount::new(route.path[0], v[0].raw))
                } else {
                    None
                }
            },
            Err(_) => None,
        },
    }
}

/// Whether a quote has one amount for every boundary of a route.
fn fits_route(q: &Result<Vec<AssetAmount>, QuoteError>, route: &Route) -> (r: bool)
    ensures
        r == quotes_route(*q, *route),
{
    match q {
        Ok(v) => v.len() > 0 && v.len() - 1 == route.pools.len(),
        Err(_) => true,
    }
}

/// Whether quotes are those of a trade.
pub fn fits_trade(quotes: &PathQuotes, route: &Route, amount: U256) -> (r: bool)
    ensures
        r == quotes_trade(*quotes, *route, amount),
{
    if !fits_route(&quotes.forward, route) || !fits_route(&quotes.backward, route) {
        return false;
    }
    if route.validate().is_err() {
        return true;
    }
    let starts = match &quotes.forward {
        Ok(v) => match forward_start(route, amount, &quotes.backward) {
            Some(start) => start == v[0],
            None => false,
        },
        Err(_) => true,
    };
    let ends = match &quotes.backward {
        Ok(v) => match backward_target(route, amount) {
            Some(target) => target == v[v.len() - 1],
            None => true,
        },
        Err(_) => true,
    };
    starts && ends
}

/// Whether a route can deliver an exact output: one router settles it, and that
/// router has a call for it.
pub open spec fn strict_gate(route: Route) -> Result<(), BuildError> {
    match route.pools@[0].kind_of() {
        None => Err(BuildError::UnsupportedProtocol),
        Some(kind) => if one_router(route) && (route.router_at(0) == Some(
            RouterKind::UniswapUniversal,
        ) || route.router_at(0) == Some(RouterKind::Slipstream)) {
            Ok(())
        } else {
            Err(BuildError::UnsupportedExactOut { kind })
        },
    }
}

/// Refuses a strict exact-out route that is more than one span, or whose router
/// has no call for it. The refusal names the first pool's family.
fn exact_out_strict_supported(route: &Route, spans: &Vec<RouterSpan>) -> (r: Result<
    (),
    BuildError,
>)
    requires
        route.pools@.len() > 0,
        is_partition(spans@, *route),
    ensures
        r == strict_gate(*route),
        r is Ok ==> spans@.len() == 1,
{
    proof {
        atomic_means_one_router(spans@, *route);
    }
    let kind = match route.pools[0].kind() {
        Some(kind) => kind,
        None => return Err(BuildError::UnsupportedProtocol),
    };
    if spans.len() != 1 {
        return Err(BuildError::UnsupportedExactOut { kind });
    }
    match RouterKind::of(&route.pools[0]) {
        Some(RouterKind::UniswapUniversal) | Some(RouterKind::Slipstream) => Ok(()),
        _ => Err(BuildError::UnsupportedExactOut { kind }),
    }
}

/// The boundary amounts of a plan and how it carries out its trade.
pub open spec fn trade_shape(
    route: Route,
    amount: U256,
    opts: OptionsView,
    policy: ExactOutPolicy,
    quotes: PathQuotes,
) -> Result<(Seq<AssetAmount>, ExactOutMode), BuildError> {
    match route.trade_type {
        TradeType::ExactIn => match quotes.forward {
            Err(e) => Err(quote_error(e)),
            Ok(v) => Ok((v@, ExactOutMode::ExactIn { final_floor_override: None })),
        },
        TradeType::ExactOut => match quotes.backward {
            Err(e) => Err(quote_error(e)),
            Ok(required) => match policy {
                ExactOutPolicy::Strict => match strict_gate(route) {
                    Err(e) => Err(e),
                    Ok(_) => Ok(
                        (
                            required@,
                            ExactOutMode::Strict {
                                target: amount,
                                amount_in_max: opts.slippage.max_in(required@[0]).raw,
                            },
                        ),
                    ),
                },
                ExactOutPolicy::OrBetter => match quotes.forward {
                    Err(e) => Err(quote_error(e)),
                    Ok(v) => Ok(
                        (v@, ExactOutMode::ExactIn { final_floor_override: Some(amount) }),
                    ),
                },
            },
        },
    }
}

/// Whether a plan can be made, and of what shape: the route has to hold
/// together, every pool needs a known router, the quotes have to be there, an
/// exact output has to be possible where it is insisted on, and the deadline
/// has to be a timestamp, in this order.
pub open spec fn plan_shape(
    route: Route,
    amount: U256,
    opts: OptionsView,
    policy: ExactOutPolicy,
    quotes: PathQuotes,
) -> Result<(Seq<AssetAmount>, ExactOutMode), BuildError> {
    match route.validity() {
        Err(e) => Err(e),
        Ok(_) => if !all_classified(route) {
            Err(BuildError::UnsupportedProtocol)
        } else {
            match trade_shape(route, amount, opts, policy, quotes) {
                Err(e) => Err(e),
                Ok(shape) => if opts.deadline is AtTimestamp {
                    Ok(shape)
                } else {
                    Err(BuildError::UnresolvedDeadline)
                },
            }
        },
    }
}

/// A cut and quoted route that gives one transaction per span.
pub struct Plan<'a> {
    route: &'a Route,
    spans: Vec<RouterSpan>,
    amounts: Vec<AssetAmount>,
    cursor: usize,
    ctx: &'a ChainConfig,
    opts: &'a ExecutionOptions,
    sender: Address,
    mode: ExactOutMode,
    deadline: u64,
    native_in: bool,
    native_out: bool,
}

/// What a [`Plan`] holds.
#[verifier::ext_equal]
pub struct PlanState {
    pub route: Route,
    /// The longest runs of one router, in order.
    pub spans: Seq<RouterSpan>,
    /// The quoted amount at every boundary of the route.
    pub amounts: Seq<AssetAmount>,
    /// The span that the next transaction is for.
    pub cursor: nat,
    pub ctx: ChainConfig,
    pub opts: OptionsView,
    pub sender: Address,
    pub mode: ExactOutMode,
    pub deadline: u64,
    pub native_in: bool,
    pub native_out: bool,
}

impl PlanState {
    /// What holds of every plan: its spans cut its route, there is a quote for
    /// every boundary, the cursor is at a span or behind the last, and a strict
    /// plan is one span.
    pub open spec fn well_formed(self) -> bool {
        &&& self.route.pools@.len() > 0
        &&& self.route.path@.len() == self.route.pools@.len() + 1
        &&& self.amounts.len() == self.route.pools@.len() + 1
        &&& is_partition(self.spans, self.route)
        &&& self.cursor <= self.spans.len()
        &&& self.mode is Strict ==> self.spans.len() == 1
    }

    /// The span that the next transaction is for.
    pub open spec fn span(self) -> RouterSpan {
        self.spans[self.cursor as int]
    }

    /// Whether the next transaction is the last.
    pub open spec fn at_last(self) -> bool {
        self.cursor == self.spans.len() - 1
    }

    /// What the span spends: the quoted start, or what the span before it was
    /// seen to deliver.
    pub open spec fn span_amount(self, observed: Option<AssetAmount>) -> Result<U256, BuildError> {
        if self.cursor == 0 {
            Ok(self.amounts[0].raw)
        } else {
            match observed {
                Some(a) => Ok(a.raw),
                None => Err(BuildError::UnresolvedRecipient),
            }
        }
    }

    /// Who the span pays: the recipient at the end, the sender before it.
    pub open spec fn span_recipient(self) -> Address {
        match self.opts.recipient {
            Recipient::To(a) => if self.at_last() {
                a
            } else {
                self.sender
            },
            Recipient::Sender => self.sender,
        }
    }

    /// Whether the span takes native input: only the first may.
    pub open spec fn span_native_in(self) -> bool {
        self.native_in && self.cursor == 0
    }

    /// Whether the span pays native output: only the last may.
    pub open spec fn span_native_out(self) -> bool {
        self.native_out && self.at_last()
    }

    /// The floor that replaces the tolerance on this span, if any.
    pub open spec fn floor_override(self) -> Option<U256> {
        match self.mode {
            ExactOutMode::ExactIn { final_floor_override } => if self.at_last() {
                final_floor_override
            } else {
                None
            },
            ExactOutMode::Strict { .. } => None,
        }
    }

    /// The least output of the span: the override, or what the tolerance,
    /// compounded over the span's pools, leaves of its quote.
    pub open spec fn span_floor(self) -> nat {
        let span = self.span();
        match self.floor_override() {
            Some(target) => target.value(),
            None => compounded_floor(
                self.opts.slippage,
                (span.end - span.start) as nat,
                self.amounts[span.end as int].raw.value(),
            ),
        }
    }

    /// The options that the pool of a single-pool span is given.
    pub open spec fn span_opts(self) -> OptionsView {
        OptionsView {
            recipient: Recipient::To(self.span_recipient()),
            sender: Some(self.sender),
            slippage: if self.floor_override() is Some {
                Slippage(Bps(0))
            } else {
                self.opts.slippage
            },
            ..self.opts
        }
    }

    /// The output quote that the pool of a single-pool span is given.
    pub open spec fn span_quote(self) -> AssetAmount {
        let quoted = self.amounts[self.span().end as int];
        match self.floor_override() {
            Some(target) => AssetAmount { asset: quoted.asset, raw: target },
            None => quoted,
        }
    }

    /// What the pool of a single-pool span makes of it.
    pub open spec fn single_pool(
        self,
        amount: U256,
        limit_x96: Result<U256, QuoteError>,
    ) -> Result<SwapView, BuildError> {
        let span = self.span();
        let from = self.route.path@[span.start as int];
        let to = self.route.path@[span.end as int];
        pool_exact_in(
            self.route.pools@[span.start as int],
            self.ctx,
            CurrencyAmount { currency: side(self.span_native_in(), from), raw: amount },
            side(self.span_native_out(), to),
            RouteView { hops: seq![from, to], trade_type: TradeType::ExactIn },
            self.span_quote(),
            limit_x96,
            self.span_opts(),
        )
    }

    /// The description of the span for a builder of its router.
    pub open spec fn span_call(self, trade: TradeType, amount: U256, limit: U256) -> SpanCall {
        SpanCall {
            trade,
            span: self.span(),
            amount,
            limit,
            recipient: self.span_recipient(),
            native_in: self.span_native_in(),
            native_out: self.span_native_out(),
            deadline: self.deadline,
            is_final: self.at_last(),
        }
    }

    /// What the span is given as, where it spends `amount` and its pool, if it
    /// is one, made `built` of it.
    pub open spec fn given(
        self,
        amount: U256,
        built: Result<SwapView, BuildError>,
    ) -> Result<Option<SpanTxView>, BuildError> {
        match self.mode {
            ExactOutMode::Strict { target, amount_in_max } => match self.span().kind {
                RouterKind::UniswapUniversal | RouterKind::Slipstream => Ok(
                    Some(
                        SpanTxView::Delegate(
                            self.span_call(TradeType::ExactOut, target, amount_in_max),
                        ),
                    ),
                ),
                _ => Err(BuildError::UnsupportedProtocol),
            },
            ExactOutMode::ExactIn { .. } => if self.span().end - self.span().start == 1 {
                match built {
                    Err(e) => Err(e),
                    Ok(p) => Ok(Some(SpanTxView::Ready(p))),
                }
            } else if self.span().kind == RouterKind::Curve {
                Err(BuildError::UnsupportedProtocol)
            } else {
                Ok(
                    Some(
                        SpanTxView::Delegate(
                            self.span_call(
                                TradeType::ExactIn,
                                amount,
                                U256::of(self.span_floor()),
                            ),
                        ),
                    ),
                )
            },
        }
    }

    /// What [`Plan::next_tx`] gives.
    pub open spec fn step(
        self,
        observed: Option<AssetAmount>,
        limit_x96: Result<U256, QuoteError>,
    ) -> Result<Option<SpanTxView>, BuildError> {
        if self.cursor == self.spans.len() {
            Ok(None)
        } else {
            match self.span_amount(observed) {
                Err(e) => Err(e),
                Ok(amount) => self.given(amount, self.single_pool(amount, limit_x96)),
            }
        }
    }
}

/// What the tolerance, compounded over `hops` hops, leaves of a quote.
pub open spec fn compounded_floor(slippage: Slippage, hops: nat, quoted: nat) -> nat {
    Slippage(Bps(slippage.compounded(hops) as u16)).floor_of(quoted)
}

/// A side of a span: the native token, or the asset at its boundary.
pub open spec fn side(native: bool, asset: AssetId) -> Currency {
    if native {
        Currency::Native
    } else {
        Currency::Token(asset)
    }
}

/// A span of several pools, or of a fixed output, for a builder of its router.
#[derive(Clone, Copy, Debug, PartialEq, Eq, Structural)]
pub struct SpanCall {
    /// Which side of the span is fixed.
    pub trade: TradeType,
    /// The router and the pools of the span.
    pub span: RouterSpan,
    /// The fixed side.
    pub amount: U256,
    /// The least output where the input is fixed, the most input where the
    /// output is.
    pub limit: U256,
    /// Who the span pays.
    pub recipient: Address,
    /// Whether the span takes native input.
    pub native_in: bool,
    /// Whether the span pays native output.
    pub native_out: bool,
    /// When the transaction expires.
    pub deadline: u64,
    /// Whether the span is the last of its plan.
    pub is_final: bool,
}

/// What a plan gives for a span.
#[derive(Clone, Debug, PartialEq, Eq)]
pub enum SpanTx {
    /// The transaction.
    Ready(PreparedSwap),
    /// What a builder of the span's router has to encode. The plan moves on
    /// when it is told, by [`Plan::span_built`], that this was done.
    Delegate(SpanCall),
}

/// A [`SpanTx`] with its calldata as a sequence.
#[verifier::ext_equal]
pub enum SpanTxView {
    Ready(SwapView),
    Delegate(SpanCall),
}

impl View for SpanTx {
    type V = SpanTxView;

    open spec fn view(&self) -> SpanTxView {
        match *self {
            SpanTx::Ready(p) => SpanTxView::Ready(p@),
            SpanTx::Delegate(c) => SpanTxView::Delegate(c),
        }
    }
}

/// The result of a step with its calldata as a sequence.
pub open spec fn step_outcome(r: Result<Option<SpanTx>, BuildError>) -> Result<
    Option<SpanTxView>,
    BuildError,
> {
    match r {
        Ok(Some(t)) => Ok(Some(t@)),
        Ok(None) => Ok(None),
        Err(e) => Err(e),
    }
}

/// The result of planning, with the plan by what it holds.
pub open spec fn planned(r: Result<Plan, BuildError>) -> Result<PlanState, BuildError> {
    match r {
        Ok(p) => Ok(p@),
        Err(e) => Err(e),
    }
}

/// Whether planning this trade gives `made`: the refusal of [`plan_shape`], or a
/// plan of that shape, at its first span.
pub open spec fn is_plan_of(
    made: Result<PlanState, BuildError>,
    ctx: ChainConfig,
    route: Route,
    amount: U256,
    opts: OptionsView,
    sender: Address,
    native_in: bool,
    native_out: bool,
    policy: ExactOutPolicy,
    quotes: PathQuotes,
) -> bool {
    match made {
        Err(e) => plan_shape(route, amount, opts, policy, quotes) == Err::<
            (Seq<AssetAmount>, ExactOutMode),
            BuildError,
        >(e),
        Ok(p) => {
            &&& p.well_formed()
            &&& plan_shape(route, amount, opts, policy, quotes) == Ok::<
                (Seq<AssetAmount>, ExactOutMode),
                BuildError,
            >((p.amounts, p.mode))
            &&& route.trade_type == TradeType::ExactIn ==> p.amounts[0].raw == amount
            &&& p.route == route
            &&& p.cursor == 0
            &&& p.ctx == ctx
            &&& p.opts == opts
            &&& p.sender == sender
            &&& opts.deadline == Deadline::AtTimestamp(p.deadline)
            &&& p.native_in == native_in
            &&& p.native_out == native_out
        },
    }
}

/// Plans a route as [`plan`] does, unless the quotes are not those of the trade.
pub fn plan_checked<'a>(
    ctx: &'a ChainConfig,
    route: &'a Route,
    amount: U256,
    opts: &'a ExecutionOptions,
    sender: Address,
    native_in: bool,
    native_out: bool,
    policy: ExactOutPolicy,
    quotes: PathQuotes,
) -> (r: Option<Result<Plan<'a>, BuildError>>)
    ensures
        r is Some <==> quotes_trade(quotes, *route, amount),
        r matches Some(p) ==> is_plan_of(
            planned(p),
            *ctx,
            *route,
            amount,
            opts@,
            sender,
            native_in,
            native_out,
            policy,
            quotes,
        ),
{
    if fits_trade(&quotes, route, amount) {
        Some(plan(ctx, route, amount, opts, sender, native_in, native_out, policy, quotes))
    } else {
        None
    }
}

/// Plans a route. `opts` has to be absolute, but for the recipient, which may
/// still be the sender. The route names only wrapped assets; `native_in` and
/// `native_out` say whether its ends are the native token.
///
/// For an exact-out route, `amount` is the wanted output. `Strict` delivers it
/// exactly, in one span, for at most the solved input and the tolerance on top.
/// `OrBetter` spends the solved input and floors the last span at `amount`.
pub fn plan<'a>(
    ctx: &'a ChainConfig,
    route: &'a Route,
    amount: U256,
    opts: &'a ExecutionOptions,
    sender: Address,
    native_in: bool,
    native_out: bool,
    policy: ExactOutPolicy,
    quotes: PathQuotes,
) -> (r: Result<Plan<'a>, BuildError>)
    requires
        quotes_trade(quotes, *route, amount),
    ensures
        is_plan_of(
            planned(r),
            *ctx,
            *route,
            amount,
            opts@,
            sender,
            native_in,
            native_out,
            policy,
            quotes,
        ),
{
    route.validate()?;
    let spans = partition(route)?;
    let (amounts, mode) = match route.trade_type {
        TradeType::ExactIn => match quotes.forward {
            Err(e) => return Err(map_quote_err(e)),
            Ok(v) => (v, ExactOutMode::ExactIn { final_floor_override: None }),
        },
        TradeType::ExactOut => match quotes.backward {
            Err(e) => return Err(map_quote_err(e)),
            Ok(required) => match policy {
                ExactOutPolicy::Strict => {
                    exact_out_strict_supported(route, &spans)?;
                    let amount_in_max = opts.slippage.max_amount_in(&required[0]).raw;
                    (required, ExactOutMode::Strict { target: amount, amount_in_max })
                },
                ExactOutPolicy::OrBetter => match quotes.forward {
                    Err(e) => return Err(map_quote_err(e)),
                    Ok(v) => (v, ExactOutMode::ExactIn { final_floor_override: Some(amount) }),
                },
            },
        },
    };
    let timestamp = resolve_deadline(&opts.deadline)?;
    let deadline = match timestamp.to_u64() {
        Some(t) => t,
        None => return Err(BuildError::UnresolvedDeadline),
    };
    Ok(
        Plan {
            route,
            spans,
            amounts,
            cursor: 0,
            ctx,
            opts,
            sender,
            mode,
            deadline,
            native_in,
            native_out,
        },
    )
}

/// A copy of an approval mode.
fn copy_approval(a: &ApprovalMode) -> (r: ApprovalMode)
    ensures
        r@ == a@,
{
    match a {
        ApprovalMode::AssumeApproved => ApprovalMode::AssumeApproved,
        ApprovalMode::Erc20 => ApprovalMode::Erc20,
        ApprovalMode::Permit2 { signature } => {
            let copy = signature.clone();
            assert(copy@ =~= signature@);
            ApprovalMode::Permit2 { signature: copy }
        },
    }
}

impl<'a> View for Plan<'a> {
    type V = PlanState;

    closed spec fn view(&self) -> PlanState {
        PlanState {
            route: *self.route,
            spans: self.spans@,
            amounts: self.amounts@,
            cursor: self.cursor as nat,
            ctx: *self.ctx,
            opts: self.opts@,
            sender: self.sender,
            mode: self.mode,
            deadline: self.deadline,
            native_in: self.native_in,
            native_out: self.native_out,
        }
    }
}

impl<'a> Plan<'a> {
    #[verifier::type_invariant]
    spec fn inv(self) -> bool {
        self@.well_formed()
    }

    /// Whether one transaction carries out the plan.
    pub fn is_atomic(&self) -> (r: bool)
        ensures
            r == (self@.spans.len() == 1),
            r == one_router(self@.route),
    {
        proof {
            use_type_invariant(self);
            atomic_means_one_router(self@.spans, self@.route);
        }
        self.spans.len() == 1
    }

    /// How many transactions carry out the plan.
    pub fn tx_count(&self) -> (r: usize)
        ensures
            r == self@.spans.len(),
    {
        self.spans.len()
    }

    /// The spans of the plan, in order.
    pub fn spans(&self) -> (r: &[RouterSpan])
        ensures
            r@ == self@.spans,
            is_partition(r@, self@.route),
    {
        proof {
            use_type_invariant(self);
        }
        self.spans.as_slice()
    }

    /// The span that the next transaction is for, unless the plan is done.
    pub fn next_span(&self) -> (r: Option<RouterSpan>)
        ensures
            r == (if self@.cursor < self@.spans.len() {
                Some(self@.spans[self@.cursor as int])
            } else {
                None
            }),
    {
        if self.cursor < self.spans.len() {
            Some(self.spans[self.cursor])
        } else {
            None
        }
    }

    /// What the current span spends.
    fn resolve_span_amount(&self, observed: Option<AssetAmount>) -> (r: Result<U256, BuildError>)
        requires
            self@.well_formed(),
        ensures
            r == self@.span_amount(observed),
    {
        if self.cursor == 0 {
            Ok(self.amounts[0].raw)
        } else {
            match observed {
                Some(a) => Ok(a.raw),
                None => Err(BuildError::UnresolvedRecipient),
            }
        }
    }

    /// Who the current span pays.
    fn resolve_span_recipient(&self, is_final: bool) -> (r: Address)
        requires
            is_final == self@.at_last(),
        ensures
            r == self@.span_recipient(),
    {
        if is_final {
            match self.opts.recipient {
                Recipient::To(a) => a,
                Recipient::Sender => self.sender,
            }
        } else {
            self.sender
        }
    }

    /// Has the pool of a single-pool span encode it. To floor the output at an
    /// override exactly, the pool is given the override as its quote, and no
    /// tolerance.
    fn build_single_pool_span(
        &self,
        span: RouterSpan,
        in_amount: U256,
        recipient: Address,
        native_in: bool,
        native_out: bool,
        final_floor: Option<U256>,
        limit_x96: Result<U256, QuoteError>,
    ) -> (r: Result<PreparedSwap, BuildError>)
        requires
            self@.well_formed(),
            self@.cursor < self@.spans.len(),
            span == self@.span(),
            recipient == self@.span_recipient(),
            native_in == self@.span_native_in(),
            native_out == self@.span_native_out(),
            final_floor == self@.floor_override(),
        ensures
            outcome(r) == self@.single_pool(in_amount, limit_x96),
    {
        proof {
            lemma_span_bounds(
                self@.spans,
                self@.route,
                self@.route.pools@.len() as int,
                self@.cursor as int,
            );
        }
        let from = self.route.path[span.start];
        let to = self.route.path[span.end];
        let in_currency = if native_in {
            Currency::Native
        } else {
            Currency::Token(from)
        };
        let out_currency = if native_out {
            Currency::Native
        } else {
            Currency::Token(to)
        };
        let quoted = self.amounts[span.end];
        let (slippage, quoted_out) = match final_floor {
            Some(target) => (Slippage::from_bps(Bps(0)), AssetAmount::new(quoted.asset, target)),
            None => (self.opts.slippage, quoted),
        };
        let span_opts = ExecutionOptions {
            recipient: Recipient::To(recipient),
            slippage,
            deadline: self.opts.deadline,
            price_limit: self.opts.price_limit,
            approval: copy_approval(&self.opts.approval),
            sender: Some(self.sender),
        };
        let route = prepared::Route::new_single_hop(from, to, TradeType::ExactIn);
        match as_executable(&self.route.pools[span.start]) {
            None => Err(BuildError::UnsupportedProtocol),
            Some(encoder) => encoder.build_swap(
                self.ctx,
                CurrencyAmount { currency: in_currency, raw: in_amount },
                out_currency,
                &route,
                &quoted_out,
                limit_x96,
                &span_opts,
            ),
        }
    }

    /// Describes the one span of a strict exact-out plan.
    fn build_strict_exact_out_span(
        &self,
        span: RouterSpan,
        target: U256,
        amount_in_max: U256,
        recipient: Address,
        native_in: bool,
        native_out: bool,
        is_final: bool,
    ) -> (r: Result<SpanCall, BuildError>)
        requires
            span == self@.span(),
            recipient == self@.span_recipient(),
            native_in == self@.span_native_in(),
            native_out == self@.span_native_out(),
            is_final == self@.at_last(),
        ensures
            r == (if span.kind == RouterKind::UniswapUniversal || span.kind
                == RouterKind::Slipstream {
                Ok::<SpanCall, BuildError>(
                    self@.span_call(TradeType::ExactOut, target, amount_in_max),
                )
            } else {
                Err(BuildError::UnsupportedProtocol)
            }),
    {
        match span.kind {
            RouterKind::UniswapUniversal | RouterKind::Slipstream => Ok(
                SpanCall {
                    trade: TradeType::ExactOut,
                    span,
                    amount: target,
                    limit: amount_in_max,
                    recipient,
                    native_in,
                    native_out,
                    deadline: self.deadline,
                    is_final,
                },
            ),
            _ => Err(BuildError::UnsupportedProtocol),
        }
    }

    /// The transaction of the next span, or `None` behind the last. `observed`
    /// is what the span before it was seen to deliver; every span but the first
    /// needs it. `limit_x96` is what the price converter made of the price limit
    /// for the span's pool; it is read only where the options carry a limit and
    /// the span is one pool.
    ///
    /// The plan moves on with a transaction that is ready. It stays where it is
    /// on an error, and on a description until [`Plan::span_built`].
    pub fn next_tx(
        &mut self,
        observed: Option<AssetAmount>,
        limit_x96: Result<U256, QuoteError>,
    ) -> (r: Result<Option<SpanTx>, BuildError>)
        ensures
            step_outcome(r) == old(self)@.step(observed, limit_x96),
            final(self)@ == (PlanState {
                cursor: if r matches Ok(Some(SpanTx::Ready(_))) {
                    old(self)@.cursor + 1
                } else {
                    old(self)@.cursor
                },
                ..old(self)@
            }),
            final(self)@.well_formed(),
    {
        proof {
            use_type_invariant(&*self);
        }
        if self.cursor == self.spans.len() {
            return Ok(None);
        }
        let span = self.spans[self.cursor];
        proof {
            lemma_span_bounds(
                self@.spans,
                self@.route,
                self@.route.pools@.len() as int,
                self@.cursor as int,
            );
        }
        let is_final = self.cursor == self.spans.len() - 1;
        let in_amount = self.resolve_span_amount(observed)?;
        let recipient = self.resolve_span_recipient(is_final);
        let span_native_in = self.native_in && self.cursor == 0;
        let span_native_out = self.native_out && is_final;
        let floor_override: Option<U256> = match self.mode {
            ExactOutMode::Strict { target, amount_in_max } => {
                let call = self.build_strict_exact_out_span(
                    span,
                    target,
                    amount_in_max,
                    recipient,
                    span_native_in,
                    span_native_out,
                    is_final,
                )?;
                return Ok(Some(SpanTx::Delegate(call)));
            },
            ExactOutMode::ExactIn { final_floor_override } => if is_final {
                final_floor_override
            } else {
                None
            },
        };
        let pool_count: usize = span.end - span.start;
        if pool_count == 1 {
            let prepared = self.build_single_pool_span(
                span,
                in_amount,
                recipient,
                span_native_in,
                span_native_out,
                floor_override,
                limit_x96,
            )?;
            self.cursor = self.cursor + 1;
            return Ok(Some(SpanTx::Ready(prepared)));
        }
        let min_out = match floor_override {
            Some(target) => target,
            None => {
                let tolerance = self.opts.slippage.compound(pool_count);
                tolerance.min_amount_out(&self.amounts[span.end]).raw
            },
        };
        match span.kind {
            RouterKind::Curve => Err(BuildError::UnsupportedProtocol),
            _ => Ok(
                Some(
                    SpanTx::Delegate(
                        SpanCall {
                            trade: TradeType::ExactIn,
                            span,
                            amount: in_amount,
                            limit: min_out,
                            recipient,
                            native_in: span_native_in,
                            native_out: span_native_out,
                            deadline: self.deadline,
                            is_final,
                        },
                    ),
                ),
            ),
        }
    }

    /// Moves the plan on from a span whose description was encoded elsewhere.
    /// Behind the last span there is nothing to move on from.
    pub fn span_built(&mut self)
        ensures
            final(self)@ == (PlanState {
                cursor: if old(self)@.cursor < old(self)@.spans.len() {
                    old(self)@.cursor + 1
                } else {
                    old(self)@.cursor
                },
                ..old(self)@
            }),
            final(self)@.well_formed(),
    {
        proof {
            use_type_invariant(&*self);
        }
        if self.cursor < self.spans.len() {
            self.cursor = self.cursor + 1;
        }
    }
}

/// A plan is done exactly when every span has had its transaction.
pub proof fn plan_ends_behind_its_last_span(
    s: PlanState,
    observed: Option<AssetAmount>,
    limit_x96: Result<U256, QuoteError>,
)
    ensures
        s.step(observed, limit_x96) == Ok::<Option<SpanTxView>, BuildError>(None) <==> s.cursor
            == s.spans.len(),
{
}

/// A description pays the recipient on the last span and the sender before it,
/// takes native input on the first span alone, and pays native output on the
/// last alone.
pub proof fn only_the_ends_are_native(
    s: PlanState,
    observed: Option<AssetAmount>,
    limit_x96: Result<U256, QuoteError>,
    c: SpanCall,
)
    requires
        s.step(observed, limit_x96) == Ok::<Option<SpanTxView>, BuildError>(
            Some(SpanTxView::Delegate(c)),
        ),
    ensures
        c.is_final <==> s.cursor + 1 == s.spans.len(),
        c.native_in <==> s.native_in && s.cursor == 0,
        c.native_out <==> s.native_out && c.is_final,
        !c.is_final ==> c.recipient == s.sender,
        c.is_final ==> c.recipient == (match s.opts.recipient {
            Recipient::To(a) => a,
            Recipient::Sender => s.sender,
        }),
        c.deadline == s.deadline,
        c.span == s.spans[s.cursor as int],
{
}

/// A pool is told to pay the recipient on the last span and the sender before
/// it.
pub proof fn only_the_last_span_pays_the_recipient(s: PlanState)
    ensures
        s.cursor + 1 != s.spans.len() ==> s.span_opts().recipient == Recipient::To(s.sender),
        s.cursor + 1 == s.spans.len() ==> s.span_opts().recipient == Recipient::To(
            match s.opts.recipient {
                Recipient::To(a) => a,
                Recipient::Sender => s.sender,
            },
        ),
        s.span_opts().sender == Some(s.sender),
{
}

/// A span of one pool attaches ETH only where it is the first and the route's
/// input is native, and then all of the quoted start.
pub proof fn only_the_first_span_attaches_eth(
    s: PlanState,
    observed: Option<AssetAmount>,
    limit_x96: Result<U256, QuoteError>,
    v: SwapView,
)
    requires
        s.step(observed, limit_x96) == Ok::<Option<SpanTxView>, BuildError>(
            Some(SpanTxView::Ready(v)),
        ),
    ensures
        s.native_in && s.cursor == 0 ==> v.value == s.amounts[0].raw && v.approval is None,
        !(s.native_in && s.cursor == 0) ==> v.value == U256::zero() && v.approval is Some,
{
    lemma_single_pool_paid(s, s.span_amount(observed)->Ok_0, limit_x96);
}

/// The first span of an exact-in plan spends exactly the amount that was to be
/// traded, whatever is observed.
pub proof fn exact_in_plans_spend_the_amount(
    s: PlanState,
    amount: U256,
    policy: ExactOutPolicy,
    quotes: PathQuotes,
    observed: Option<AssetAmount>,
    limit_x96: Result<U256, QuoteError>,
)
    requires
        s.route.trade_type == TradeType::ExactIn,
        quotes_trade(quotes, s.route, amount),
        plan_shape(s.route, amount, s.opts, policy, quotes) == Ok::<
            (Seq<AssetAmount>, ExactOutMode),
            BuildError,
        >((s.amounts, s.mode)),
        s.well_formed(),
        s.cursor == 0,
    ensures
        match s.step(observed, limit_x96) {
            Ok(Some(SpanTxView::Ready(v))) => if s.native_in {
                v.value == amount && v.approval is None
            } else {
                v.value == U256::zero() && (v.approval matches Some(p) && p.min_allowance
                    == amount && p.token == s.route.path@[0])
            },
            Ok(Some(SpanTxView::Delegate(c))) => c.amount == amount && c.trade
                == TradeType::ExactIn,
            Ok(None) => false,
            Err(_) => true,
        },
{
    lemma_span_bounds(s.spans, s.route, s.route.pools@.len() as int, 0);
    lemma_single_pool_paid(s, amount, limit_x96);
}

/// A span behind the first spends exactly what the span before it was seen to
/// deliver, and is not built before that is known.
pub proof fn later_spans_spend_what_arrived(
    s: PlanState,
    observed: Option<AssetAmount>,
    limit_x96: Result<U256, QuoteError>,
)
    requires
        s.well_formed(),
        0 < s.cursor < s.spans.len(),
    ensures
        observed is None ==> s.step(observed, limit_x96) == Err::<Option<SpanTxView>, BuildError>(
            BuildError::UnresolvedRecipient,
        ),
        observed matches Some(a) ==> match s.step(observed, limit_x96) {
            Ok(Some(SpanTxView::Ready(v))) => v.approval matches Some(p) && p.min_allowance
                == a.raw,
            Ok(Some(SpanTxView::Delegate(c))) => c.amount == a.raw,
            Ok(None) => false,
            Err(_) => true,
        },
{
    if let Some(a) = observed {
        lemma_single_pool_paid(s, a.raw, limit_x96);
    }
}

proof fn lemma_single_pool_paid(
    s: PlanState,
    amount: U256,
    limit_x96: Result<U256, QuoteError>,
)
    ensures
        s.single_pool(amount, limit_x96) matches Ok(v) ==> paid_by(
            v,
            side(s.span_native_in(), s.route.path@[s.span().start as int]),
            amount,
        ) && v.min_received.raw == s.span_opts().slippage.min_out(s.span_quote()).raw
            && v.max_spent is None,
{
    let span = s.span();
    let from = s.route.path@[span.start as int];
    let to = s.route.path@[span.end as int];
    let pool = s.route.pools@[span.start as int];
    let amount_in = CurrencyAmount { currency: side(s.span_native_in(), from), raw: amount };
    let out = side(s.span_native_out(), to);
    let route = RouteView { hops: seq![from, to], trade_type: TradeType::ExactIn };
    exact_in_is_paid(pool, s.ctx, amount_in, out, route, s.span_quote(), limit_x96, s.span_opts());
    exact_in_floors_the_output(
        pool,
        s.ctx,
        amount_in,
        out,
        route,
        s.span_quote(),
        limit_x96,
        s.span_opts(),
    );
}

/// What the pool of a last span makes of it, floored at a target and not.
proof fn lemma_last_floors(
    s: PlanState,
    t: PlanState,
    target: U256,
    amount: U256,
    limit_x96: Result<U256, QuoteError>,
)
    requires
        s.mode == (ExactOutMode::ExactIn { final_floor_override: Some(target) }),
        s.at_last(),
        t == (PlanState {
            route: as_exact_in(s.route),
            mode: ExactOutMode::ExactIn { final_floor_override: None },
            ..s
        }),
    ensures
        s.span().end - s.span().start == 1 ==> {
            let (one, two) = (s.single_pool(amount, limit_x96), t.single_pool(amount, limit_x96));
            &&& one matches Ok(v) ==> v.min_received.raw == target
            &&& two matches Ok(w) ==> w.min_received.raw == U256::of(t.span_floor())
            &&& decided_by_floor(
                one,
                two,
                s.route.pools@[s.span().start as int] is UniswapV4 ==> target.value() < two_128()
                    && U256::of(t.span_floor()).value() < two_128(),
            )
        },
{
    let span = s.span();
    let from = s.route.path@[span.start as int];
    let to = s.route.path@[span.end as int];
    u256_value_of(target);
    no_tolerance_is_exact(Slippage(Bps(0)), target.value());
    lemma_single_pool_paid(s, amount, limit_x96);
    lemma_single_pool_paid(t, amount, limit_x96);
    if span.end - span.start == 1 {
        lemma_single_floor(t);
    }
    quotes_decide_only_the_floor(
        s.route.pools@[span.start as int],
        s.ctx,
        CurrencyAmount { currency: side(s.span_native_in(), from), raw: amount },
        side(s.span_native_out(), to),
        RouteView { hops: seq![from, to], trade_type: TradeType::ExactIn },
        s.span_quote(),
        t.span_quote(),
        limit_x96,
        s.span_opts(),
        t.span_opts(),
    );
}

/// What the pool of a span before the last makes of it, whatever the last floor.
proof fn lemma_earlier_pool(
    s: PlanState,
    t: PlanState,
    target: U256,
    amount: U256,
    limit_x96: Result<U256, QuoteError>,
)
    requires
        s.mode == (ExactOutMode::ExactIn { final_floor_override: Some(target) }),
        !s.at_last(),
        t == (PlanState {
            route: as_exact_in(s.route),
            mode: ExactOutMode::ExactIn { final_floor_override: None },
            ..s
        }),
    ensures
        s.single_pool(amount, limit_x96) == t.single_pool(amount, limit_x96),
        s.span_floor() == t.span_floor(),
{
    assert(s.span_opts() == t.span_opts());
    assert(s.span_quote() == t.span_quote());
}

/// The floor that one pool is given is that of a span of one.
proof fn lemma_single_floor(s: PlanState)
    requires
        s.floor_override() is None,
        s.span().end - s.span().start == 1,
    ensures
        s.span_opts().slippage.min_out(s.span_quote()).raw == U256::of(s.span_floor()),
{
    let tolerance = s.opts.slippage;
    if tolerance.0.0 <= whole() {
        one_hop_keeps_the_tolerance(tolerance);
    } else {
        lemma_pow1(whole() as int);
        lemma_pow1(tolerance.kept() as int);
        assert(tolerance.kept() == 0);
        assert(tolerance.compounded(1) == 10000int * 10000 / 10000);
    }
}

/// An exact-out trade that may deliver more delivers at least its target: the
/// last span's floor is the target itself.
pub proof fn or_better_floors_at_the_target(
    s: PlanState,
    observed: Option<AssetAmount>,
    limit_x96: Result<U256, QuoteError>,
    target: U256,
)
    requires
        s.mode == (ExactOutMode::ExactIn { final_floor_override: Some(target) }),
        s.at_last(),
    ensures
        match s.step(observed, limit_x96) {
            Ok(Some(SpanTxView::Ready(v))) => v.min_received.raw == target,
            Ok(Some(SpanTxView::Delegate(c))) => c.limit == target,
            Ok(None) => false,
            Err(_) => true,
        },
{
    u256_value_of(target);
    no_tolerance_is_exact(Slippage(Bps(0)), target.value());
    match s.span_amount(observed) {
        Ok(amount) => {
            lemma_single_pool_paid(s, amount, limit_x96);
        },
        Err(_) => {},
    }
}

/// Every span without an override floors its output at what the tolerance,
/// compounded over its pools, leaves of its quote. For a single pool that is
/// the tolerance itself.
pub proof fn spans_floor_by_compounded_tolerance(
    s: PlanState,
    observed: Option<AssetAmount>,
    limit_x96: Result<U256, QuoteError>,
)
    requires
        s.mode is ExactIn,
        s.floor_override() is None,
        s.cursor < s.spans.len(),
    ensures
        match s.step(observed, limit_x96) {
            Ok(Some(SpanTxView::Ready(v))) => v.min_received.raw == U256::of(s.span_floor()),
            Ok(Some(SpanTxView::Delegate(c))) => c.limit == U256::of(s.span_floor()),
            Ok(None) => false,
            Err(_) => true,
        },
{
    if s.span().end - s.span().start == 1 {
        lemma_single_floor(s);
    }
    match s.span_amount(observed) {
        Ok(amount) => {
            lemma_single_pool_paid(s, amount, limit_x96);
        },
        Err(_) => {},
    }
}

/// The same pools and path, with the input fixed.
pub open spec fn as_exact_in(route: Route) -> Route {
    Route { trade_type: TradeType::ExactIn, ..route }
}

/// An exact-out trade that may deliver more is planned as the exact-in trade on
/// the input that it was solved back to, where that is quoted alike: there is
/// such a plan, of the same spans and amounts, and all that sets the two apart is
/// the floor of the last span.
pub proof fn or_better_plans_the_solved_input(
    p: PlanState,
    q: Result<PlanState, BuildError>,
    ctx: ChainConfig,
    route: Route,
    target: U256,
    opts: OptionsView,
    sender: Address,
    native_in: bool,
    native_out: bool,
    policy: ExactOutPolicy,
    quotes: PathQuotes,
    exact_in_quotes: PathQuotes,
)
    requires
        route.trade_type == TradeType::ExactOut,
        quotes_trade(quotes, route, target),
        is_plan_of(
            Ok(p),
            ctx,
            route,
            target,
            opts,
            sender,
            native_in,
            native_out,
            ExactOutPolicy::OrBetter,
            quotes,
        ),
        exact_in_quotes.forward matches Ok(v) && v@ == quotes.forward->Ok_0@,
        quotes_route(exact_in_quotes.backward, route),
        is_plan_of(
            q,
            ctx,
            as_exact_in(route),
            quotes.backward->Ok_0@[0].raw,
            opts,
            sender,
            native_in,
            native_out,
            policy,
            exact_in_quotes,
        ),
    ensures
        quotes_trade(exact_in_quotes, as_exact_in(route), quotes.backward->Ok_0@[0].raw),
        p.mode == (ExactOutMode::ExactIn { final_floor_override: Some(target) }),
        q == Ok::<PlanState, BuildError>(
            PlanState {
                route: as_exact_in(route),
                mode: ExactOutMode::ExactIn { final_floor_override: None },
                ..p
            },
        ),
{
    let exact = as_exact_in(route);
    assert forall|i: int| #[trigger] route.router_at(i) == exact.router_at(i) by {}
    assert forall|i: int| #[trigger] exact.router_at(i) == route.router_at(i) by {}
    assert forall|i: int| #[trigger] route.hop_fits(i) == exact.hop_fits(i) by {}
    assert forall|i: int| #[trigger] exact.hop_fits(i) == route.hop_fits(i) by {}
    assert(route.validity() is Ok);
    assert(exact.validity() is Ok);
    assert(all_classified(exact));
    assert(q is Ok);
    let made = q->Ok_0;
    assert(is_partition(made.spans, route));
    partition_is_unique(p.spans, made.spans, route);
    assert(made =~= (PlanState {
        route: exact,
        mode: ExactOutMode::ExactIn { final_floor_override: None },
        ..p
    }));
}

/// Whether two last steps differ in their floors alone: `target` in the one,
/// `floor` in the other. They are refused alike, unless a pool `v4` whose call
/// holds 128 bits is to carry a wider floor.
pub open spec fn last_steps_match(
    one: Result<Option<SpanTxView>, BuildError>,
    two: Result<Option<SpanTxView>, BuildError>,
    target: U256,
    floor: U256,
    v4: bool,
) -> bool {
    match (one, two) {
        (Ok(Some(SpanTxView::Ready(v))), Ok(Some(SpanTxView::Ready(w)))) => {
            &&& same_but_floor(v, w)
            &&& v.min_received.raw == target
            &&& w.min_received.raw == floor
        },
        (Ok(Some(SpanTxView::Delegate(c))), Ok(Some(SpanTxView::Delegate(d)))) => {
            &&& c == (SpanCall { limit: target, ..d })
            &&& d.limit == floor
        },
        (Ok(Some(SpanTxView::Delegate(_))), _) | (_, Ok(Some(SpanTxView::Delegate(_)))) => false,
        (Ok(None), _) | (_, Ok(None)) => false,
        _ => {
            ||| one == two
            ||| v4 && (target.value() >= two_128() || floor.value() >= two_128())
        },
    }
}

/// A last span, given what its pool made of it under the two floors.
proof fn lemma_last_given(
    s: PlanState,
    t: PlanState,
    target: U256,
    amount: U256,
    one: Result<SwapView, BuildError>,
    two: Result<SwapView, BuildError>,
    v4: bool,
)
    requires
        s.mode == (ExactOutMode::ExactIn { final_floor_override: Some(target) }),
        s.at_last(),
        t == (PlanState {
            route: as_exact_in(s.route),
            mode: ExactOutMode::ExactIn { final_floor_override: None },
            ..s
        }),
        s.span().end - s.span().start == 1 ==> {
            &&& one matches Ok(v) ==> v.min_received.raw == target
            &&& two matches Ok(w) ==> w.min_received.raw == U256::of(t.span_floor())
            &&& decided_by_floor(
                one,
                two,
                v4 ==> target.value() < two_128() && U256::of(t.span_floor()).value() < two_128(),
            )
        },
    ensures
        last_steps_match(
            s.given(amount, one),
            t.given(amount, two),
            target,
            U256::of(t.span_floor()),
            v4,
        ),
{
    u256_value_of(target);
}

/// A plan whose last span is floored at `target` gives the transactions of the
/// exact-in plan beside it. Its last one differs in the floor alone, which is
/// `target` in place of what the compounded tolerance leaves; and the two are
/// refused alike, unless a Uniswap V4 pool is to hold a floor past 128 bits.
pub proof fn or_better_steps_as_exact_in(
    s: PlanState,
    t: PlanState,
    target: U256,
    observed: Option<AssetAmount>,
    limit_x96: Result<U256, QuoteError>,
)
    requires
        s.well_formed(),
        s.mode == (ExactOutMode::ExactIn { final_floor_override: Some(target) }),
        t == (PlanState {
            route: as_exact_in(s.route),
            mode: ExactOutMode::ExactIn { final_floor_override: None },
            ..s
        }),
    ensures
        s.step(observed, limit_x96) matches Ok(Some(SpanTxView::Ready(v))) ==> v.max_spent is None,
        !s.at_last() ==> s.step(observed, limit_x96) == t.step(observed, limit_x96),
        s.at_last() ==> last_steps_match(
            s.step(observed, limit_x96),
            t.step(observed, limit_x96),
            target,
            U256::of(t.span_floor()),
            s.route.pools@[s.span().start as int] is UniswapV4,
        ),
{
    match s.span_amount(observed) {
        Ok(amount) => {
            lemma_single_pool_paid(s, amount, limit_x96);
            if s.at_last() {
                lemma_last_floors(s, t, target, amount, limit_x96);
                lemma_last_given(
                    s,
                    t,
                    target,
                    amount,
                    s.single_pool(amount, limit_x96),
                    t.single_pool(amount, limit_x96),
                    s.route.pools@[s.span().start as int] is UniswapV4,
                );
            } else {
                lemma_earlier_pool(s, t, target, amount, limit_x96);
            }
        },
        Err(_) => {},
    }
}

/// A strict exact-out plan is one transaction, through a router that can
/// deliver an exact output, for at most the solved input and the tolerance on
/// top.
pub proof fn strict_plans_are_atomic(
    route: Route,
    amount: U256,
    opts: OptionsView,
    quotes: PathQuotes,
)
    requires
        route.trade_type == TradeType::ExactOut,
        plan_shape(route, amount, opts, ExactOutPolicy::Strict, quotes) is Ok,
    ensures
        one_router(route),
        route.router_at(0) == Some(RouterKind::UniswapUniversal) || route.router_at(0) == Some(
            RouterKind::Slipstream,
        ),
        ({
            let shape = plan_shape(route, amount, opts, ExactOutPolicy::Strict, quotes)->Ok_0;
            shape.1 == (ExactOutMode::Strict {
                target: amount,
                amount_in_max: opts.slippage.max_in(quotes.backward->Ok_0@[0]).raw,
            })
        }),
{
}

} // verus!
