//! What holds of a built swap, whatever pool built it.
use crate::asset::{AssetAmount, QuoteError};
use crate::execution::config::ChainConfig;
use crate::execution::executable::{pool_exact_in, pool_exact_out};
use crate::execution::options::OptionsView;
use crate::execution::prepared::{RouteView, SwapView};
use crate::execution::protocols::common::promised;
use crate::execution::types::{Currency, CurrencyAmount, TradeType};
use crate::pools::Pool;
use crate::primitives::U256;
use vstd::prelude::*;

verus! {

/// An input is paid in one of two ways. Native input is attached in full and
/// needs no allowance; token input attaches nothing and needs an allowance of
/// the amount, in that token.
pub open spec fn paid_by(v: SwapView, input: Currency, spend: U256) -> bool {
    match input {
        Currency::Native => v.value == spend && v.approval is None,
        Currency::Token(token) => v.value == U256::zero() && (v.approval matches Some(a)
            && a.token == token && a.min_allowance == spend && !a.reset_first),
    }
}

/// An exact-in swap on any pool attaches the input or asks for an allowance of
/// it, never both.
#[verifier::spinoff_prover]
#[verifier::rlimit(40)]
pub proof fn exact_in_is_paid(
    pool: Pool,
    ctx: ChainConfig,
    amount_in: CurrencyAmount,
    to: Currency,
    route: RouteView,
    quoted_out: AssetAmount,
    limit_x96: Result<U256, QuoteError>,
    opts: OptionsView,
)
    ensures
        pool_exact_in(pool, ctx, amount_in, to, route, quoted_out, limit_x96, opts) matches Ok(v)
            ==> paid_by(v, amount_in.currency, amount_in.raw),
{
}

/// An exact-out swap on any pool attaches the input ceiling or asks for an
/// allowance of it, never both.
pub proof fn exact_out_is_paid(
    pool: Pool,
    ctx: ChainConfig,
    amount_out: CurrencyAmount,
    from: Currency,
    route: RouteView,
    quoted_in: AssetAmount,
    limit_x96: Result<U256, QuoteError>,
    opts: OptionsView,
)
    ensures
        pool_exact_out(pool, ctx, amount_out, from, route, quoted_in, limit_x96, opts) matches Ok(v)
            ==> paid_by(v, from, opts.slippage.max_in(quoted_in).raw),
{
}

/// An exact-in swap on any pool promises what the tolerance leaves of the
/// quote, in the wrapped token where the output is native, states no input
/// ceiling, and is for the configured chain.
pub proof fn exact_in_floors_the_output(
    pool: Pool,
    ctx: ChainConfig,
    amount_in: CurrencyAmount,
    to: Currency,
    route: RouteView,
    quoted_out: AssetAmount,
    limit_x96: Result<U256, QuoteError>,
    opts: OptionsView,
)
    ensures
        pool_exact_in(pool, ctx, amount_in, to, route, quoted_out, limit_x96, opts) matches Ok(v)
            ==> v.min_received == promised(opts.slippage, quoted_out, to, ctx.weth)
            && v.max_spent is None
            && v.price_impact is None && v.chain == ctx.chain,
{
}

/// An exact-out swap on any pool promises the target itself, in the wrapped
/// token where it is native, and bounds the input by what the tolerance adds to
/// the quote.
pub proof fn exact_out_caps_the_input(
    pool: Pool,
    ctx: ChainConfig,
    amount_out: CurrencyAmount,
    from: Currency,
    route: RouteView,
    quoted_in: AssetAmount,
    limit_x96: Result<U256, QuoteError>,
    opts: OptionsView,
)
    ensures
        pool_exact_out(pool, ctx, amount_out, from, route, quoted_in, limit_x96, opts) matches Ok(v)
            ==> v.min_received == (AssetAmount {
            asset: amount_out.currency.resolved(ctx.weth),
            raw: amount_out.raw,
        }) && (v.max_spent matches Some(m) && m.raw
            == opts.slippage.max_in(quoted_in).raw) && v.price_impact is None && v.chain
            == ctx.chain,
{
}

/// Whether options are what [`crate::execution::options::resolve`] leaves, with
/// a deadline that is a time.
pub open spec fn absolute_terms(opts: OptionsView) -> bool {
    opts.recipient is To && opts.deadline is AtTimestamp
}

/// Whether a swap between these currencies names two different sides, at most
/// one of them native, and the pool trades every token among them.
pub open spec fn tradable(pool: Pool, input: Currency, output: Currency) -> bool {
    &&& !(input is Native && output is Native)
    &&& input matches Currency::Token(a) ==> pool.asset_seq().contains(a)
    &&& output matches Currency::Token(b) ==> pool.asset_seq().contains(b)
    &&& input != output
}

/// No pool builds an exact-in swap from options that were not resolved, between
/// two native sides, or on assets it does not trade.
pub proof fn exact_in_needs_absolute_terms(
    pool: Pool,
    ctx: ChainConfig,
    amount_in: CurrencyAmount,
    to: Currency,
    route: RouteView,
    quoted_out: AssetAmount,
    limit_x96: Result<U256, QuoteError>,
    opts: OptionsView,
)
    ensures
        pool_exact_in(pool, ctx, amount_in, to, route, quoted_out, limit_x96, opts) is Ok
            ==> absolute_terms(opts) && tradable(pool, amount_in.currency, to),
{
}

/// No pool builds an exact-out swap from options that were not resolved,
/// between two native sides, or on assets it does not trade.
pub proof fn exact_out_needs_absolute_terms(
    pool: Pool,
    ctx: ChainConfig,
    amount_out: CurrencyAmount,
    from: Currency,
    route: RouteView,
    quoted_in: AssetAmount,
    limit_x96: Result<U256, QuoteError>,
    opts: OptionsView,
)
    ensures
        pool_exact_out(pool, ctx, amount_out, from, route, quoted_in, limit_x96, opts) is Ok
            ==> absolute_terms(opts) && tradable(pool, from, amount_out.currency),
{
}

/// A price limit is never dropped: only pools whose call carries one build a
/// swap with it.
pub proof fn price_limit_is_not_dropped(
    pool: Pool,
    ctx: ChainConfig,
    amount: CurrencyAmount,
    other: Currency,
    route: RouteView,
    quoted: AssetAmount,
    limit_x96: Result<U256, QuoteError>,
    opts: OptionsView,
)
    requires
        opts.price_limit is Some,
    ensures
        pool_exact_in(pool, ctx, amount, other, route, quoted, limit_x96, opts) is Ok ==> pool
            is UniswapV3 || pool is AerodromeSlipstream,
        pool_exact_out(pool, ctx, amount, other, route, quoted, limit_x96, opts) is Ok ==> pool
            is UniswapV3 || pool is AerodromeSlipstream,
{
}

/// Without a price limit, what the price converter said makes no difference.
pub proof fn converter_is_read_only_for_a_limit(
    pool: Pool,
    ctx: ChainConfig,
    amount: CurrencyAmount,
    other: Currency,
    route: RouteView,
    quoted: AssetAmount,
    one: Result<U256, QuoteError>,
    two: Result<U256, QuoteError>,
    opts: OptionsView,
)
    requires
        opts.price_limit is None,
    ensures
        pool_exact_in(pool, ctx, amount, other, route, quoted, one, opts) == pool_exact_in(
            pool,
            ctx,
            amount,
            other,
            route,
            quoted,
            two,
            opts,
        ),
        pool_exact_out(pool, ctx, amount, other, route, quoted, one, opts) == pool_exact_out(
            pool,
            ctx,
            amount,
            other,
            route,
            quoted,
            two,
            opts,
        ),
{
}

/// A trade of the wrong kind is refused by every pool that is asked by route.
pub proof fn wrong_trade_type_is_refused(
    pool: Pool,
    ctx: ChainConfig,
    amount: CurrencyAmount,
    other: Currency,
    route: RouteView,
    quoted: AssetAmount,
    limit_x96: Result<U256, QuoteError>,
    opts: OptionsView,
)
    requires
        !(pool is AerodromeSlipstream),
        !(pool is Curve),
    ensures
        route.trade_type == TradeType::ExactOut ==> pool_exact_in(
            pool,
            ctx,
            amount,
            other,
            route,
            quoted,
            limit_x96,
            opts,
        ) is Err,
        route.trade_type == TradeType::ExactIn ==> pool_exact_out(
            pool,
            ctx,
            amount,
            other,
            route,
            quoted,
            limit_x96,
            opts,
        ) is Err,
{
}

} // verus!
