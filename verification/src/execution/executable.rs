//! Pools that can encode a swap.
use crate::asset::{AssetAmount, QuoteError};
use crate::execution::config::ChainConfig;
use crate::execution::error::BuildError;
use crate::execution::options::{ExecutionOptions, OptionsView};
use crate::execution::prepared::{outcome, PreparedSwap, Route, RouteView, SwapView};
use crate::execution::sealed::Sealed;
use crate::execution::types::{Currency, CurrencyAmount};
use crate::pools::Pool;
use crate::primitives::U256;
use vstd::prelude::*;

verus! {

/// A pool that can encode a swap on itself. Only the pools of this crate
/// implement it: [`Executable::sealed`] takes a trait object that cannot be
/// named elsewhere.
pub trait Executable {
    /// What [`Executable::build_swap`] returns.
    spec fn exact_in_outcome(
        &self,
        ctx: ChainConfig,
        amount_in: CurrencyAmount,
        to: Currency,
        route: RouteView,
        quoted_out: AssetAmount,
        limit_x96: Result<U256, QuoteError>,
        opts: OptionsView,
    ) -> Result<SwapView, BuildError>;

    /// What [`Executable::build_swap_exact_out`] returns.
    spec fn exact_out_outcome(
        &self,
        ctx: ChainConfig,
        amount_out: CurrencyAmount,
        from: Currency,
        route: RouteView,
        quoted_in: AssetAmount,
        limit_x96: Result<U256, QuoteError>,
        opts: OptionsView,
    ) -> Result<SwapView, BuildError>;

    /// Closes the trait to other crates. It does nothing.
    fn sealed(&self, by: &dyn Sealed);

    /// Spends `amount_in` on as much of `to` as the pool gives, and no less than
    /// the tolerance leaves of `quoted_out`. `limit_x96` is what the price
    /// converter made of the price limit for this pool; it is read only where
    /// the options carry a limit.
    fn build_swap(
        &self,
        ctx: &ChainConfig,
        amount_in: CurrencyAmount,
        to: Currency,
        route: &Route,
        quoted_out: &AssetAmount,
        limit_x96: Result<U256, QuoteError>,
        opts: &ExecutionOptions,
    ) -> (r: Result<PreparedSwap, BuildError>)
        ensures
            outcome(r) == self.exact_in_outcome(
                *ctx,
                amount_in,
                to,
                route@,
                *quoted_out,
                limit_x96,
                opts@,
            ),
    ;

    /// Obtains exactly `amount_out` for as little of `from` as the pool takes,
    /// and no more than the tolerance adds to `quoted_in`. `limit_x96` is as in
    /// [`Executable::build_swap`].
    fn build_swap_exact_out(
        &self,
        ctx: &ChainConfig,
        amount_out: CurrencyAmount,
        from: Currency,
        route: &Route,
        quoted_in: &AssetAmount,
        limit_x96: Result<U256, QuoteError>,
        opts: &ExecutionOptions,
    ) -> (r: Result<PreparedSwap, BuildError>)
        ensures
            outcome(r) == self.exact_out_outcome(
                *ctx,
                amount_out,
                from,
                route@,
                *quoted_in,
                limit_x96,
                opts@,
            ),
    ;
}

/// What an exact-in build on any pool returns. A pool without an encoder is
/// refused.
pub open spec fn pool_exact_in(
    pool: Pool,
    ctx: ChainConfig,
    amount_in: CurrencyAmount,
    to: Currency,
    route: RouteView,
    quoted_out: AssetAmount,
    limit_x96: Result<U256, QuoteError>,
    opts: OptionsView,
) -> Result<SwapView, BuildError> {
    match pool {
        Pool::UniswapV2(p) => p.exact_in_outcome(
            ctx, amount_in, to, route, quoted_out, limit_x96, opts,
        ),
        Pool::UniswapV3(p) => p.exact_in_outcome(
            ctx, amount_in, to, route, quoted_out, limit_x96, opts,
        ),
        Pool::UniswapV4(p) => p.exact_in_outcome(
            ctx, amount_in, to, route, quoted_out, limit_x96, opts,
        ),
        Pool::AerodromeStable(p) => p.exact_in_outcome(
            ctx, amount_in, to, route, quoted_out, limit_x96, opts,
        ),
        Pool::AerodromeVolatile(p) => p.exact_in_outcome(
            ctx, amount_in, to, route, quoted_out, limit_x96, opts,
        ),
        Pool::AerodromeSlipstream(p) => p.exact_in_outcome(
            ctx, amount_in, to, route, quoted_out, limit_x96, opts,
        ),
        Pool::Curve(p) => p.exact_in_outcome(
            ctx, amount_in, to, route, quoted_out, limit_x96, opts,
        ),
        Pool::Other(_) => Err(BuildError::UnsupportedProtocol),
    }
}

/// What an exact-out build on any pool returns. A pool without an encoder is
/// refused.
pub open spec fn pool_exact_out(
    pool: Pool,
    ctx: ChainConfig,
    amount_out: CurrencyAmount,
    from: Currency,
    route: RouteView,
    quoted_in: AssetAmount,
    limit_x96: Result<U256, QuoteError>,
    opts: OptionsView,
) -> Result<SwapView, BuildError> {
    match pool {
        Pool::UniswapV2(p) => p.exact_out_outcome(
            ctx, amount_out, from, route, quoted_in, limit_x96, opts,
        ),
        Pool::UniswapV3(p) => p.exact_out_outcome(
            ctx, amount_out, from, route, quoted_in, limit_x96, opts,
        ),
        Pool::UniswapV4(p) => p.exact_out_outcome(
            ctx, amount_out, from, route, quoted_in, limit_x96, opts,
        ),
        Pool::AerodromeStable(p) => p.exact_out_outcome(
            ctx, amount_out, from, route, quoted_in, limit_x96, opts,
        ),
        Pool::AerodromeVolatile(p) => p.exact_out_outcome(
            ctx, amount_out, from, route, quoted_in, limit_x96, opts,
        ),
        Pool::AerodromeSlipstream(p) => p.exact_out_outcome(
            ctx, amount_out, from, route, quoted_in, limit_x96, opts,
        ),
        Pool::Curve(p) => p.exact_out_outcome(
            ctx, amount_out, from, route, quoted_in, limit_x96, opts,
        ),
        Pool::Other(_) => Err(BuildError::UnsupportedProtocol),
    }
}

/// The encoder of a pool, where there is one.
pub fn as_executable(pool: &Pool) -> (r: Option<&dyn Executable>)
    ensures
        r is None <==> *pool is Other,
        r matches Some(e) ==> forall|
            ctx: ChainConfig,
            amount: CurrencyAmount,
            other: Currency,
            route: RouteView,
            quoted: AssetAmount,
            limit_x96: Result<U256, QuoteError>,
            opts: OptionsView,
        | #[trigger]
            e.exact_in_outcome(ctx, amount, other, route, quoted, limit_x96, opts)
                == pool_exact_in(*pool, ctx, amount, other, route, quoted, limit_x96, opts),
        r matches Some(e) ==> forall|
            ctx: ChainConfig,
            amount: CurrencyAmount,
            other: Currency,
            route: RouteView,
            quoted: AssetAmount,
            limit_x96: Result<U256, QuoteError>,
            opts: OptionsView,
        | #[trigger]
            e.exact_out_outcome(ctx, amount, other, route, quoted, limit_x96, opts)
                == pool_exact_out(*pool, ctx, amount, other, route, quoted, limit_x96, opts),
{
    match pool {
        Pool::UniswapV2(p) => Some(p),
        Pool::UniswapV3(p) => Some(p),
        Pool::UniswapV4(p) => Some(p),
        Pool::AerodromeStable(p) => Some(p),
        Pool::AerodromeVolatile(p) => Some(p),
        Pool::AerodromeSlipstream(p) => Some(p),
        Pool::Curve(p) => Some(p),
        Pool::Other(_) => None,
    }
}

} // verus!
