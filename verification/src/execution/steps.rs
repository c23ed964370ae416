//! What the steps of a plan come to, told from what the plan was made with.
use crate::abi::word;
use crate::asset::{AssetAmount, AssetId, Bps, PoolKind, QuoteError};
use crate::execution::config::ChainConfig;
use crate::execution::delivery::{
    names, slipstream_exact_in_pays_the_recipient, stable_pays_the_recipient,
    v2_exact_in_pays_the_recipient, v3_exact_in_pays_the_recipient, volatile_pays_the_recipient,
};
use crate::execution::error::BuildError;
use crate::execution::executable::pool_exact_in;
use crate::execution::options::{Deadline, OptionsView, Recipient};
use crate::execution::plan::{
    is_plan_of, quotes_trade, start_of, strict_gate, target_of, ExactOutMode, PathQuotes, PlanState,
    SpanCall, SpanTxView,
};
use crate::execution::prepared::{RouteView, SwapView};
use crate::execution::protocols::swaprouter02::UNWRAP_WETH9;
use crate::execution::protocols::{aerodrome, uniswap_v2, uniswap_v4};
use crate::execution::route_planner::{address_this, UNWRAP_WETH, V4_SWAP, WRAP_ETH};
use crate::execution::routing::{all_classified, one_router, ExactOutPolicy, Route, RouterKind};
use crate::execution::trades::{
    curve_trades_the_coins, enters, goes, goes_by_leg, moved, needs_weth, pays_out, settles,
    slipstream_exact_in_trades_the_pool, stable_trades_the_stable_pair, swaps_on,
    v2_exact_in_trades_the_pair, v3_exact_in_trades_the_pool, v4_currency,
    v4_exact_in_trades_the_pool, volatile_trades_the_volatile_pair,
};
use crate::execution::types::{Currency, CurrencyAmount, TradeType};
use crate::pools::{CurveInterface, Pool};
use crate::primitives::{two_256, u256_value_of, Address, U256};
use crate::reading::{arguments, read_bytes, read_bytes_list, read_word};
use crate::slippage::{
    compounding_multiplies_the_kept_share, compounding_stays_below_the_whole,
    floor_is_the_kept_share, Slippage,
};
use vstd::arithmetic::power::pow;
use vstd::prelude::*;

verus! {

/// A span of one pool is what the pool builds for it: from the asset at the
/// span's start to the asset at its end, with the native token in their place
/// only where the route itself starts or ends natively; of the quoted start, or
/// what arrived; quoted at the span's end, or at the target of a trade that may
/// deliver more; and paid to the recipient on the last span, to the sender
/// before it. All else is as the plan was told.
pub proof fn single_pools_build_their_spans(
    s: PlanState,
    observed: Option<AssetAmount>,
    limit_x96: Result<U256, QuoteError>,
    target: Option<U256>,
)
    requires
        s.well_formed(),
        s.cursor < s.spans.len(),
        s.mode == (ExactOutMode::ExactIn { final_floor_override: target }),
        s.spans[s.cursor as int].end - s.spans[s.cursor as int].start == 1,
        s.cursor > 0 ==> observed is Some,
    ensures
        ({
            let span = s.spans[s.cursor as int];
            let last = s.cursor + 1 == s.spans.len();
            let from = s.route.path@[span.start as int];
            let to = s.route.path@[span.end as int];
            let quoted = s.amounts[span.end as int];
            let targeted = last && target is Some;
            s.step(observed, limit_x96) == match pool_exact_in(
                s.route.pools@[span.start as int],
                s.ctx,
                CurrencyAmount {
                    currency: if s.native_in && s.cursor == 0 {
                        Currency::Native
                    } else {
                        Currency::Token(from)
                    },
                    raw: if s.cursor == 0 {
                        s.amounts[0].raw
                    } else {
                        observed->0.raw
                    },
                },
                if s.native_out && last {
                    Currency::Native
                } else {
                    Currency::Token(to)
                },
                RouteView { hops: seq![from, to], trade_type: TradeType::ExactIn },
                if targeted {
                    AssetAmount { asset: quoted.asset, raw: target->0 }
                } else {
                    quoted
                },
                limit_x96,
                OptionsView {
                    recipient: Recipient::To(
                        match s.opts.recipient {
                            Recipient::To(a) if last => a,
                            _ => s.sender,
                        },
                    ),
                    slippage: if targeted {
                        Slippage(Bps(0))
                    } else {
                        s.opts.slippage
                    },
                    deadline: s.opts.deadline,
                    price_limit: s.opts.price_limit,
                    approval: s.opts.approval,
                    sender: Some(s.sender),
                },
            ) {
                Ok(v) => Ok::<Option<SpanTxView>, BuildError>(Some(SpanTxView::Ready(v))),
                Err(e) => Err(e),
            }
        }),
{
}

/// A span of several pools, in a plan by fixed inputs, is described to a builder
/// of its router, unless that is Curve, which has none. A strict plan describes
/// its one span to a router that can fix the output. Every description carries
/// what the plan was told.
pub proof fn longer_spans_are_described(
    s: PlanState,
    observed: Option<AssetAmount>,
    limit_x96: Result<U256, QuoteError>,
)
    requires
        s.well_formed(),
        s.cursor < s.spans.len(),
        s.cursor > 0 ==> observed is Some,
        s.mode is Strict || s.spans[s.cursor as int].end - s.spans[s.cursor as int].start > 1,
    ensures
        ({
            let span = s.spans[s.cursor as int];
            let last = s.cursor + 1 == s.spans.len();
            match s.step(observed, limit_x96) {
                Ok(Some(SpanTxView::Delegate(c))) => {
                    &&& s.mode is Strict ==> span.kind == RouterKind::UniswapUniversal || span.kind
                        == RouterKind::Slipstream
                    &&& s.mode is ExactIn ==> span.kind != RouterKind::Curve
                    &&& c == SpanCall {
                        trade: if s.mode is Strict {
                            TradeType::ExactOut
                        } else {
                            TradeType::ExactIn
                        },
                        span,
                        amount: match s.mode {
                            ExactOutMode::Strict { target, amount_in_max } => target,
                            ExactOutMode::ExactIn { final_floor_override } => if s.cursor == 0 {
                                s.amounts[0].raw
                            } else {
                                observed->0.raw
                            },
                        },
                        limit: match s.mode {
                            ExactOutMode::Strict { target, amount_in_max } => amount_in_max,
                            ExactOutMode::ExactIn { final_floor_override } => c.limit,
                        },
                        recipient: match s.opts.recipient {
                            Recipient::To(a) if last => a,
                            _ => s.sender,
                        },
                        native_in: s.native_in && s.cursor == 0,
                        native_out: s.native_out && last,
                        deadline: s.deadline,
                        is_final: last,
                    }
                },
                Ok(_) => false,
                Err(e) => e == BuildError::UnsupportedProtocol && match s.mode {
                    ExactOutMode::Strict { target, amount_in_max } => span.kind
                        == RouterKind::Aerodrome || span.kind == RouterKind::Curve,
                    ExactOutMode::ExactIn { final_floor_override } => span.kind
                        == RouterKind::Curve,
                },
            }
        }),
{
}

/// Whether a transaction that a pool built, read out of its calldata, takes
/// `spend` of the currency `input` and pays the currency `output` to `payee`. The routers of
/// Uniswap V2 and Aerodrome are entered by the call for those sides; those of
/// Uniswap V3 and Slipstream unwrap native output to the payee behind the swap;
/// the Universal Router wraps and unwraps where the pool holds WETH; and Curve
/// is told to move ETH.
pub open spec fn meets_ends(
    pool: Pool,
    ctx: ChainConfig,
    v: SwapView,
    input: Currency,
    output: Currency,
    spend: U256,
    payee: Address,
) -> bool {
    let list = if input is Native {
        1int
    } else {
        2
    };
    let from = moved(input, ctx.weth).address();
    let to = moved(output, ctx.weth).address();
    match pool {
        Pool::UniswapV2(_) => {
            &&& goes(v.data, list, from, to)
            &&& names(v.data, list + 1, payee)
            &&& enters(
                v.data,
                if input is Native {
                    uniswap_v2::SWAP_EXACT_ETH_FOR_TOKENS
                } else if output is Native {
                    uniswap_v2::SWAP_EXACT_TOKENS_FOR_ETH
                } else {
                    uniswap_v2::SWAP_EXACT_TOKENS_FOR_TOKENS
                },
            )
        },
        Pool::AerodromeStable(_) | Pool::AerodromeVolatile(_) => {
            &&& goes_by_leg(
                v.data,
                list,
                from,
                to,
                pool is AerodromeStable,
                ctx.routers.aerodrome_factory->0,
            )
            &&& names(v.data, list + 1, payee)
            &&& enters(
                v.data,
                if input is Native {
                    aerodrome::SWAP_EXACT_ETH_FOR_TOKENS
                } else if output is Native {
                    aerodrome::SWAP_EXACT_TOKENS_FOR_ETH
                } else {
                    aerodrome::SWAP_EXACT_TOKENS_FOR_TOKENS
                },
            )
        },
        Pool::UniswapV3(_) => ends_in_payment(
            read_bytes_list(arguments(v.data), 1),
            from,
            to,
            output is Native,
            payee,
        ),
        Pool::AerodromeSlipstream(_) => ends_in_payment(
            if output is Native {
                read_bytes_list(arguments(v.data), 0)
            } else {
                seq![v.data]
            },
            from,
            to,
            output is Native,
            payee,
        ),
        Pool::UniswapV4(p) => {
            let commands = read_bytes(arguments(v.data), 0);
            let inputs = read_bytes_list(arguments(v.data), 1);
            let wrap = needs_weth(p, ctx, input, output);
            let swap = inputs[if wrap && input is Native {
                1int
            } else {
                0
            }];
            &&& swaps_on(swap, p, v4_currency(input, wrap, ctx))
            &&& settles(
                swap,
                uniswap_v4::ACTION_SWAP_EXACT_IN_SINGLE,
                wrap && input is Native,
                v4_currency(input, wrap, ctx),
                spend,
                v4_currency(output, wrap, ctx),
                if wrap && output is Native {
                    address_this()
                } else {
                    payee
                },
            )
            &&& if wrap && input is Native {
                commands == seq![WRAP_ETH, V4_SWAP]
            } else if wrap {
                commands == seq![V4_SWAP, UNWRAP_WETH] && pays_out(
                    inputs[1],
                    payee,
                    v.min_received.raw.value(),
                )
            } else {
                commands == seq![V4_SWAP]
            }
        },
        Pool::Curve(p) => p.interface == Some(CurveInterface::CryptoU256UseEth) ==> read_word(
            arguments(v.data),
            4,
        ) == word(
            if input is Native || output is Native {
                1
            } else {
                0
            },
        ),
        Pool::Other(_) => false,
    }
}

/// Whether calls swap from one token to the other and end in the payment of
/// `payee`: an unwrap to it of native output, or the swap itself.
pub open spec fn ends_in_payment(
    calls: Seq<Seq<u8>>,
    from: Address,
    to: Address,
    native_out: bool,
    payee: Address,
) -> bool {
    &&& calls.len() == (if native_out {
        2int
    } else {
        1
    })
    &&& names(calls[0], 0, from)
    &&& names(calls[0], 1, to)
    &&& native_out ==> enters(calls[1], UNWRAP_WETH9) && names(calls[1], 1, payee)
    &&& !native_out ==> names(calls[0], 3, payee)
}

/// Whatever pool builds an exact-in swap, its calldata takes the input's currency
/// and pays the output's to the recipient.
pub proof fn built_swaps_meet_their_ends(
    pool: Pool,
    ctx: ChainConfig,
    amount: CurrencyAmount,
    other: Currency,
    route: RouteView,
    quoted: AssetAmount,
    limit_x96: Result<U256, QuoteError>,
    opts: OptionsView,
    a: Address,
    v: SwapView,
)
    requires
        opts.recipient == Recipient::To(a),
        pool_exact_in(pool, ctx, amount, other, route, quoted, limit_x96, opts) == Ok::<
            SwapView,
            BuildError,
        >(v),
        v.data.len() < two_256(),
    ensures
        meets_ends(pool, ctx, v, amount.currency, other, amount.raw, a),
{
    match pool {
        Pool::UniswapV2(p) => {
            v2_exact_in_trades_the_pair(p, ctx, amount, other, route, quoted, limit_x96, opts, v);
            v2_exact_in_pays_the_recipient(
                p, ctx, amount, other, route, quoted, limit_x96, opts, a, v,
            );
        },
        Pool::UniswapV3(p) => {
            v3_exact_in_trades_the_pool(p, ctx, amount, other, route, quoted, limit_x96, opts, v);
            v3_exact_in_pays_the_recipient(
                p, ctx, amount, other, route, quoted, limit_x96, opts, a, v,
            );
        },
        Pool::UniswapV4(p) => {
            v4_exact_in_trades_the_pool(p, ctx, amount, other, route, quoted, limit_x96, opts, v);
        },
        Pool::AerodromeStable(p) => {
            stable_trades_the_stable_pair(p, ctx, amount, other, route, quoted, limit_x96, opts, v);
            stable_pays_the_recipient(p, ctx, amount, other, route, quoted, limit_x96, opts, a, v);
        },
        Pool::AerodromeVolatile(p) => {
            volatile_trades_the_volatile_pair(
                p, ctx, amount, other, route, quoted, limit_x96, opts, v,
            );
            volatile_pays_the_recipient(
                p, ctx, amount, other, route, quoted, limit_x96, opts, a, v,
            );
        },
        Pool::AerodromeSlipstream(p) => {
            slipstream_exact_in_trades_the_pool(
                p, ctx, amount, other, route, quoted, limit_x96, opts, v,
            );
            slipstream_exact_in_pays_the_recipient(
                p, ctx, amount, other, route, quoted, limit_x96, opts, a, v,
            );
        },
        Pool::Curve(p) => {
            curve_trades_the_coins(p, ctx, amount, other, route, quoted, limit_x96, opts, v);
        },
        Pool::Other(_) => {},
    }
}

/// The transaction of a span takes native input on the first span alone, and
/// then where the route's input is native. It pays native output on the last
/// span alone, and then where the route's output is native: to the recipient,
/// as every other span pays wrapped tokens to the sender.
pub proof fn ready_spans_meet_their_ends(
    s: PlanState,
    observed: Option<AssetAmount>,
    limit_x96: Result<U256, QuoteError>,
    v: SwapView,
)
    requires
        s.well_formed(),
        s.step(observed, limit_x96) == Ok::<Option<SpanTxView>, BuildError>(
            Some(SpanTxView::Ready(v)),
        ),
        v.data.len() < two_256(),
    ensures
        s.cursor < s.spans.len(),
        ({
            let span = s.spans[s.cursor as int];
            let last = s.cursor + 1 == s.spans.len();
            &&& span.end - span.start == 1
            &&& meets_ends(
                s.route.pools@[span.start as int],
                s.ctx,
                v,
                if s.native_in && s.cursor == 0 {
                    Currency::Native
                } else {
                    Currency::Token(s.route.path@[span.start as int])
                },
                if s.native_out && last {
                    Currency::Native
                } else {
                    Currency::Token(s.route.path@[span.end as int])
                },
                if s.cursor == 0 {
                    s.amounts[0].raw
                } else {
                    observed->0.raw
                },
                match s.opts.recipient {
                    Recipient::To(a) if last => a,
                    _ => s.sender,
                },
            )
        }),
{
    let span = s.spans[s.cursor as int];
    let last = s.cursor + 1 == s.spans.len();
    let from = s.route.path@[span.start as int];
    let to = s.route.path@[span.end as int];
    let quoted = s.amounts[span.end as int];
    let target = s.mode->final_floor_override;
    let targeted = last && target is Some;
    let payee = match s.opts.recipient {
        Recipient::To(a) if last => a,
        _ => s.sender,
    };
    single_pools_build_their_spans(s, observed, limit_x96, target);
    let opts = OptionsView {
        recipient: Recipient::To(payee),
        slippage: if targeted {
            Slippage(Bps(0))
        } else {
            s.opts.slippage
        },
        deadline: s.opts.deadline,
        price_limit: s.opts.price_limit,
        approval: s.opts.approval,
        sender: Some(s.sender),
    };
    built_swaps_meet_their_ends(
        s.route.pools@[span.start as int],
        s.ctx,
        CurrencyAmount {
            currency: if s.native_in && s.cursor == 0 {
                Currency::Native
            } else {
                Currency::Token(from)
            },
            raw: if s.cursor == 0 {
                s.amounts[0].raw
            } else {
                observed->0.raw
            },
        },
        if s.native_out && last {
            Currency::Native
        } else {
            Currency::Token(to)
        },
        RouteView { hops: seq![from, to], trade_type: TradeType::ExactIn },
        if targeted {
            AssetAmount { asset: quoted.asset, raw: target->0 }
        } else {
            quoted
        },
        limit_x96,
        opts,
        payee,
        v,
    );
}

/// A span of several pools that is to deliver no fixed target is floored by the
/// tolerance of every hop: of the quote at its end, the least output is what a
/// share keeps that was multiplied once per pool, rounded down.
pub proof fn described_spans_are_floored(
    s: PlanState,
    observed: Option<AssetAmount>,
    limit_x96: Result<U256, QuoteError>,
    target: Option<U256>,
    c: SpanCall,
)
    requires
        s.well_formed(),
        s.mode == (ExactOutMode::ExactIn { final_floor_override: target }),
        s.step(observed, limit_x96) == Ok::<Option<SpanTxView>, BuildError>(
            Some(SpanTxView::Delegate(c)),
        ),
    ensures
        ({
            let span = s.spans[s.cursor as int];
            let hops = (span.end - span.start) as nat;
            let quoted = s.amounts[span.end as int].raw.value();
            let all = pow(10000, hops);
            let kept = pow(
                if s.opts.slippage.0.0 < 10000 {
                    10000 - s.opts.slippage.0.0
                } else {
                    0
                },
                hops,
            );
            if s.cursor + 1 == s.spans.len() && target is Some {
                c.limit == target->0
            } else {
                exists|t: int|
                    {
                        &&& #[trigger] (t * all) <= (all - kept) * 10000 < (t + 1) * all
                        &&& c.limit.value() * 10000 <= quoted * (10000 - t) < (c.limit.value() + 1)
                            * 10000
                    }
            }
        }),
{
    let span = s.spans[s.cursor as int];
    let hops = (span.end - span.start) as nat;
    let t = s.opts.slippage.compounded(hops);
    compounding_multiplies_the_kept_share(s.opts.slippage, hops);
    compounding_stays_below_the_whole(s.opts.slippage, hops);
    let whole_span = Slippage(Bps(t as u16));
    floor_is_the_kept_share(whole_span, s.amounts[span.end as int]);
    if s.cursor + 1 == s.spans.len() && target is Some {
        u256_value_of(target->0);
    } else {
        assert(c.limit == whole_span.min_out(s.amounts[span.end as int]).raw);
        assert(t * pow(10000, hops) <= t * pow(10000, hops));
        if t == 10000 {
            assert(s.amounts[span.end as int].raw.value() * 0 == 0) by (nonlinear_arith);
        }
    }
}

/// A plan keeps what it was made with, starts at its first span, and takes its
/// amounts from the quotes: those solved backwards where the output is to be
/// met exactly, with the tolerance on top of the solved input, else those solved
/// forwards, floored at the wanted output where there is one.
pub proof fn plans_keep_their_terms(
    p: PlanState,
    ctx: ChainConfig,
    route: Route,
    amount: U256,
    opts: OptionsView,
    sender: Address,
    native_in: bool,
    native_out: bool,
    policy: ExactOutPolicy,
    quotes: PathQuotes,
)
    requires
        is_plan_of(
            Ok(p),
            ctx,
            route,
            amount,
            opts,
            sender,
            native_in,
            native_out,
            policy,
            quotes,
        ),
    ensures
        p.route == route,
        p.ctx == ctx,
        p.opts == opts,
        p.sender == sender,
        p.native_in == native_in,
        p.native_out == native_out,
        p.cursor == 0,
        opts.deadline == Deadline::AtTimestamp(p.deadline),
        match (route.trade_type, policy) {
            (TradeType::ExactIn, _) => {
                &&& quotes.forward matches Ok(v)
                &&& p.amounts == v@
                &&& p.amounts[0].raw == amount
                &&& p.mode == ExactOutMode::ExactIn { final_floor_override: None }
            },
            (TradeType::ExactOut, ExactOutPolicy::Strict) => {
                &&& quotes.backward matches Ok(v)
                &&& p.amounts == v@
                &&& p.mode == ExactOutMode::Strict {
                    target: amount,
                    amount_in_max: opts.slippage.max_in(v@[0]).raw,
                }
            },
            (TradeType::ExactOut, ExactOutPolicy::OrBetter) => {
                &&& quotes.backward is Ok
                &&& quotes.forward matches Ok(v)
                &&& p.amounts == v@
                &&& p.mode == ExactOutMode::ExactIn { final_floor_override: Some(amount) }
            },
        },
{
}

/// Whether a pool trades an asset.
pub open spec fn trades_asset(pool: Pool, a: AssetId) -> bool {
    match pool {
        Pool::UniswapV2(p) => p.assets@.contains(a),
        Pool::UniswapV3(p) => p.assets@.contains(a),
        Pool::UniswapV4(p) => p.assets@.contains(a),
        Pool::AerodromeStable(p) => p.assets@.contains(a),
        Pool::AerodromeVolatile(p) => p.assets@.contains(a),
        Pool::AerodromeSlipstream(p) => p.assets@.contains(a),
        Pool::Curve(p) => p.assets@.contains(a),
        Pool::Other(p) => p.assets@.contains(a),
    }
}

/// Whether the pools of a route trade the assets between them, one after the
/// other, and there is a pool.
pub open spec fn holds_together(route: Route) -> bool {
    &&& route.pools@.len() > 0
    &&& route.path@.len() == route.pools@.len() + 1
    &&& forall|i: int|
        0 <= i < route.pools@.len() ==> trades_asset(#[trigger] route.pools@[i], route.path@[i])
            && trades_asset(route.pools@[i], route.path@[i + 1])
}

/// Whether one router can deliver an exact output over all of a route: every pool
/// is one of Uniswap, or every pool one of Slipstream.
pub open spec fn can_fix_the_output(route: Route) -> bool {
    ||| forall|i: int|
        0 <= i < route.pools@.len() ==> (#[trigger] route.pools@[i]) is UniswapV2
            || route.pools@[i] is UniswapV3 || route.pools@[i] is UniswapV4
    ||| forall|i: int|
        0 <= i < route.pools@.len() ==> (#[trigger] route.pools@[i]) is AerodromeSlipstream
}

/// The router that settles a pool goes by the pool's family.
pub proof fn families_share_a_router(pool: Pool)
    ensures
        RouterKind::router_of(pool) == (match pool {
            Pool::UniswapV2(_) | Pool::UniswapV3(_) | Pool::UniswapV4(_) => Some(
                RouterKind::UniswapUniversal,
            ),
            Pool::AerodromeStable(_) | Pool::AerodromeVolatile(_) => Some(RouterKind::Aerodrome),
            Pool::AerodromeSlipstream(_) => Some(RouterKind::Slipstream),
            Pool::Curve(_) => Some(RouterKind::Curve),
            Pool::Other(_) => None,
        }),
{
}

proof fn lemma_validity(route: Route)
    ensures
        route.validity() is Ok <==> holds_together(route),
        route.pools@.len() == 0 ==> route.validity() == Err::<(), BuildError>(
            BuildError::EmptyRoute,
        ),
        route.pools@.len() > 0 && !holds_together(route) ==> route.validity() == Err::<
            (),
            BuildError,
        >(BuildError::DisjointRoute),
{
    if route.path@.len() == route.pools@.len() + 1 {
        assert forall|i: int| 0 <= i < route.pools@.len() implies route.hop_fits(i) == (
        trades_asset(#[trigger] route.pools@[i], route.path@[i]) && trades_asset(
            route.pools@[i],
            route.path@[i + 1],
        )) by {}
        if holds_together(route) {
            assert forall|i: int| 0 <= i < route.pools@.len() implies #[trigger] route.hop_fits(
                i,
            ) by {
                assert(trades_asset(route.pools@[i], route.path@[i]));
            }
        }
        if route.connected() && route.pools@.len() > 0 {
            assert forall|i: int| 0 <= i < route.pools@.len() implies trades_asset(
                #[trigger] route.pools@[i],
                route.path@[i],
            ) && trades_asset(route.pools@[i], route.path@[i + 1]) by {
                assert(route.hop_fits(i));
            }
        }
    }
}

/// Whether every pool of a route is of a known family.
pub open spec fn all_known(route: Route) -> bool {
    forall|i: int| 0 <= i < route.pools@.len() ==> !((#[trigger] route.pools@[i]) is Other)
}

proof fn lemma_classified(route: Route)
    ensures
        all_classified(route) <==> all_known(route),
{
    if all_classified(route) {
        assert forall|i: int| 0 <= i < route.pools@.len() implies !((
        #[trigger] route.pools@[i]) is Other) by {
            assert(route.router_at(i) is Some);
        }
    }
    if all_known(route) {
        assert forall|i: int| 0 <= i < route.pools@.len() implies #[trigger] route.router_at(
            i,
        ) is Some by {
            assert(!(route.pools@[i] is Other));
        }
    }
}

proof fn lemma_gate(route: Route)
    requires
        route.pools@.len() > 0,
        all_known(route),
    ensures
        strict_gate(route) is Ok <==> can_fix_the_output(route),
        !can_fix_the_output(route) ==> strict_gate(route) == Err::<(), BuildError>(
            BuildError::UnsupportedExactOut { kind: family(route.pools@[0]) },
        ),
{
    assert(!(route.pools@[0] is Other));
    if strict_gate(route) is Ok {
        assert(one_router(route));
        if route.router_at(0) == Some(RouterKind::UniswapUniversal) {
            assert forall|i: int| 0 <= i < route.pools@.len() implies (
            #[trigger] route.pools@[i]) is UniswapV2 || route.pools@[i] is UniswapV3
                || route.pools@[i] is UniswapV4 by {
                assert(route.router_at(i) == route.router_at(0));
            }
        } else {
            assert forall|i: int| 0 <= i < route.pools@.len() implies (
            #[trigger] route.pools@[i]) is AerodromeSlipstream by {
                assert(route.router_at(i) == route.router_at(0));
            }
        }
    }
    if can_fix_the_output(route) {
        assert forall|i: int, j: int|
            0 <= i < route.pools@.len() && 0 <= j < route.pools@.len() implies
            #[trigger] route.router_at(i) == #[trigger] route.router_at(j) by {
            let (a, b) = (route.pools@[i], route.pools@[j]);
        }
        let first = route.pools@[0];
    }
}

/// The family of a known pool.
pub open spec fn family(pool: Pool) -> PoolKind
    recommends
        !(pool is Other),
{
    match pool {
        Pool::UniswapV2(_) => PoolKind::UniswapV2,
        Pool::UniswapV3(_) => PoolKind::UniswapV3,
        Pool::UniswapV4(_) => PoolKind::UniswapV4,
        Pool::AerodromeStable(_) => PoolKind::AerodromeStable,
        Pool::AerodromeVolatile(_) => PoolKind::AerodromeVolatile,
        Pool::AerodromeSlipstream(_) => PoolKind::AerodromeSlipstream,
        _ => PoolKind::Curve,
    }
}

/// A trade is quoted from what it fixes. A route that holds together starts from
/// the given amount of its first asset, or from what its wanted output was solved
/// back to; that is solved from the wanted amount of its last asset. Quotes are
/// those of the trade exactly where they have an amount for every boundary and
/// start, or end, there.
pub proof fn trades_are_quoted_from_what_they_fix(quotes: PathQuotes, route: Route, amount: U256)
    ensures
        ({
            let n = route.pools@.len();
            let sells = route.trade_type == TradeType::ExactIn;
            let first = route.path@[0];
            let wanted = AssetAmount { asset: route.path@.last(), raw: amount };
            let given = AssetAmount {
                asset: first,
                raw: if sells {
                    amount
                } else {
                    quotes.backward->Ok_0@[0].raw
                },
            };
            let solved = quotes.backward is Ok && quotes.backward->Ok_0@.len() > 0;
            &&& target_of(route, amount) == (if holds_together(route) && !sells {
                Some(wanted)
            } else {
                None
            })
            &&& start_of(route, amount, quotes.backward) == (if holds_together(route) && (sells
                || solved) {
                Some(given)
            } else {
                None
            })
            &&& quotes_trade(quotes, route, amount) <==> {
                &&& quotes.forward matches Ok(v) ==> v@.len() == n + 1 && (holds_together(route)
                    ==> (sells || solved) && v@[0] == given)
                &&& quotes.backward matches Ok(v) ==> v@.len() == n + 1 && (holds_together(route)
                    && !sells ==> v@.last() == wanted)
            }
        }),
{
    lemma_validity(route);
}

/// A route is planned exactly where it holds together over known pools, the
/// quotes that its trade needs are there, the deadline is a time, and, for an
/// output that is to be met exactly, one router can fix it. A refusal names the
/// first of these that is not so.
pub proof fn plans_are_refused_for_cause(
    made: Result<PlanState, BuildError>,
    ctx: ChainConfig,
    route: Route,
    amount: U256,
    opts: OptionsView,
    sender: Address,
    native_in: bool,
    native_out: bool,
    policy: ExactOutPolicy,
    quotes: PathQuotes,
)
    requires
        is_plan_of(
            made,
            ctx,
            route,
            amount,
            opts,
            sender,
            native_in,
            native_out,
            policy,
            quotes,
        ),
    ensures
        ({
            let exact_out = route.trade_type == TradeType::ExactOut;
            let strict = exact_out && policy == ExactOutPolicy::Strict;
            if route.pools@.len() == 0 {
                made == Err::<PlanState, BuildError>(BuildError::EmptyRoute)
            } else if !holds_together(route) {
                made == Err::<PlanState, BuildError>(BuildError::DisjointRoute)
            } else if !all_known(route) {
                made == Err::<PlanState, BuildError>(BuildError::UnsupportedProtocol)
            } else if exact_out && quotes.backward is Err {
                made == Err::<PlanState, BuildError>(
                    match quotes.backward->Err_0 {
                        QuoteError::ExactOutUnavailable { kind } =>
                            BuildError::UnsupportedExactOut { kind },
                        _ => BuildError::UnsupportedProtocol,
                    },
                )
            } else if strict && !can_fix_the_output(route) {
                made == Err::<PlanState, BuildError>(
                    BuildError::UnsupportedExactOut { kind: family(route.pools@[0]) },
                )
            } else if !strict && quotes.forward is Err {
                made == Err::<PlanState, BuildError>(
                    match quotes.forward->Err_0 {
                        QuoteError::ExactOutUnavailable { kind } =>
                            BuildError::UnsupportedExactOut { kind },
                        _ => BuildError::UnsupportedProtocol,
                    },
                )
            } else if !(opts.deadline is AtTimestamp) {
                made == Err::<PlanState, BuildError>(BuildError::UnresolvedDeadline)
            } else {
                made is Ok
            }
        }),
{
    lemma_validity(route);
    lemma_classified(route);
    if holds_together(route) && all_known(route) {
        lemma_gate(route);
    }
}

} // verus!
