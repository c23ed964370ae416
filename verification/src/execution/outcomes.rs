//! When a pool builds a swap, why it refuses one, and what a built swap says of
//! itself.
use crate::asset::{AssetAmount, AssetId, QuoteError};
use crate::execution::config::ChainConfig;
use crate::execution::error::{BuildError, MissingAddr};
use crate::execution::executable::{pool_exact_in, pool_exact_out, Executable};
use crate::execution::options::OptionsView;
use crate::execution::prepared::{RouteView, SwapView};
use crate::execution::trades::{moved, needs_weth};
use crate::execution::types::{Currency, CurrencyAmount, TradeType};
use crate::pools::{
    AerodromeSlipstreamPool, AerodromeStablePool, AerodromeVolatilePool, CurveInterface, CurvePool,
    Pool, UniswapV2Pool, UniswapV3Pool, UniswapV4Pool,
};
use crate::primitives::{two_128, two_160, two_256, u256_of_value, Address, B256, U256};
use crate::slippage::{ceiling_is_the_quote_and_the_tolerance, floor_is_the_kept_share};
use vstd::prelude::*;

verus! {

/// Whether a build came to the first of these reasons to refuse that there is, or
/// to a swap where there is none.
pub open spec fn comes_to(
    built: Result<SwapView, BuildError>,
    reasons: Seq<Option<BuildError>>,
) -> bool {
    &&& (forall|i: int| 0 <= i < reasons.len() ==> (#[trigger] reasons[i]) is None) ==> built is Ok
    &&& forall|i: int|
        0 <= i < reasons.len() && (#[trigger] reasons[i]) is Some && (forall|j: int|
            0 <= j < i ==> (#[trigger] reasons[j]) is None) ==> built == Err::<
            SwapView,
            BuildError,
        >(reasons[i]->0)
}

/// A reason to refuse, where it holds.
pub open spec fn when(holds: bool, e: BuildError) -> Option<BuildError> {
    if holds {
        Some(e)
    } else {
        None
    }
}

/// Why the sides and the terms of a swap are refused on a pool with these assets:
/// both sides are native, the pool does not trade one for the other, or the
/// recipient or the deadline is still open.
pub open spec fn sides_refused(
    assets: Seq<AssetId>,
    wrapped: AssetId,
    input: Currency,
    output: Currency,
    opts: OptionsView,
) -> Option<BuildError> {
    let (sold, bought) = (moved(input, wrapped), moved(output, wrapped));
    let traded = assets.contains(sold) && assets.contains(bought) && sold != bought;
    if input is Native && output is Native {
        Some(BuildError::NativeMismatch)
    } else if !traded {
        Some(BuildError::AssetNotInPool { input: sold, output: bought })
    } else if opts.recipient is Sender {
        Some(BuildError::UnresolvedRecipient)
    } else {
        when(!(opts.deadline is AtTimestamp), BuildError::UnresolvedDeadline)
    }
}

/// Why a price limit is refused by a pool that takes one: the route is of more
/// than two assets, the price has no square root on the pool, or that needs more
/// than 160 bits.
pub open spec fn limit_refused(
    opts: OptionsView,
    two_assets: bool,
    limit_x96: Result<U256, QuoteError>,
) -> Option<BuildError> {
    if opts.price_limit is None {
        None
    } else if !two_assets {
        Some(BuildError::UnsupportedProtocol)
    } else {
        match limit_x96 {
            Ok(x) => when(x.value() >= two_160(), BuildError::Overflow),
            Err(QuoteError::AssetNotInPool { input, output }) => Some(
                BuildError::AssetNotInPool { input, output },
            ),
            Err(_) => Some(BuildError::Overflow),
        }
    }
}

/// Why a contract that is not configured refuses a swap.
pub open spec fn unconfigured(
    entry: Option<Address>,
    ctx: ChainConfig,
    what: MissingAddr,
) -> Option<BuildError> {
    when(entry is None, BuildError::MissingChainConfig { chain: ctx.chain, what })
}

/// The asset of a native side of a Uniswap V4 swap: WETH where ETH is wrapped,
/// else the asset at the zero address.
pub open spec fn v4_native(ctx: ChainConfig, wrap: bool) -> AssetId {
    if wrap {
        ctx.weth
    } else {
        AssetId { chain: ctx.chain, token: B256(U256::zero()) }
    }
}

proof fn lemma_deadline(opts: OptionsView)
    ensures
        opts.deadline is AtTimestamp ==> U256::of(
            opts.deadline->AtTimestamp_0 as nat,
        ).value() == opts.deadline->AtTimestamp_0,
{
    if opts.deadline is AtTimestamp {
        u256_of_value(opts.deadline->AtTimestamp_0 as nat);
    }
}

/// A Uniswap V2 pool builds every exact-in swap of its two assets, by absolute terms
/// and without a price limit, once its router is configured.
pub proof fn v2_exact_in_is_refused_for_cause(
    pool: UniswapV2Pool,
    ctx: ChainConfig,
    amount: CurrencyAmount,
    other: Currency,
    route: RouteView,
    quoted: AssetAmount,
    limit_x96: Result<U256, QuoteError>,
    opts: OptionsView,
)
    ensures
        comes_to(
            pool.exact_in_outcome(ctx, amount, other, route, quoted, limit_x96, opts),
            seq![
                when(opts.price_limit is Some, BuildError::UnsupportedProtocol),
                when(route.trade_type != TradeType::ExactIn, BuildError::UnsupportedProtocol),
                sides_refused(pool.assets@, ctx.weth, amount.currency, other, opts),
                unconfigured(ctx.routers.v2, ctx, MissingAddr::V2Router),
            ],
        ),
{
}

/// A Uniswap V3 pool builds every exact-in swap of its two assets, by absolute terms
/// and within a price limit that its call can carry, once its router is
/// configured. Its fee has to fit 24 bits.
pub proof fn v3_exact_in_is_refused_for_cause(
    pool: UniswapV3Pool,
    ctx: ChainConfig,
    amount: CurrencyAmount,
    other: Currency,
    route: RouteView,
    quoted: AssetAmount,
    limit_x96: Result<U256, QuoteError>,
    opts: OptionsView,
)
    ensures
        comes_to(
            pool.exact_in_outcome(ctx, amount, other, route, quoted, limit_x96, opts),
            seq![
                when(route.trade_type != TradeType::ExactIn, BuildError::UnsupportedProtocol),
                sides_refused(pool.assets@, ctx.weth, amount.currency, other, opts),
                limit_refused(opts, route.hops.len() == 2, limit_x96),
                unconfigured(ctx.routers.v3, ctx, MissingAddr::V3Router),
                when(pool.fee_pips >= 0x100_0000, BuildError::Overflow),
            ],
        ),
{
    lemma_deadline(opts);
}

/// A Slipstream pool builds every exact-in swap of its two assets, by absolute terms
/// and within a price limit that its call can carry, once its router is
/// configured. Its tick spacing has to fit 24 bits.
pub proof fn slipstream_exact_in_is_refused_for_cause(
    pool: AerodromeSlipstreamPool,
    ctx: ChainConfig,
    amount: CurrencyAmount,
    other: Currency,
    route: RouteView,
    quoted: AssetAmount,
    limit_x96: Result<U256, QuoteError>,
    opts: OptionsView,
)
    ensures
        comes_to(
            pool.exact_in_outcome(ctx, amount, other, route, quoted, limit_x96, opts),
            seq![
                sides_refused(pool.assets@, ctx.weth, amount.currency, other, opts),
                limit_refused(opts, true, limit_x96),
                unconfigured(ctx.routers.slipstream, ctx, MissingAddr::SlipstreamRouter),
                when(
                    pool.tick_spacing < -0x80_0000 || pool.tick_spacing >= 0x80_0000,
                    BuildError::Overflow,
                ),
            ],
        ),
{
    lemma_deadline(opts);
}

/// A Uniswap V4 pool builds every exact-in swap of its two currencies, or of ETH for
/// its WETH, by absolute terms and without a price limit, once the Universal
/// Router is configured, and Permit2 where a token is drawn. Its key has to fit
/// 24 bits twice, and both amounts 128.
pub proof fn v4_exact_in_is_refused_for_cause(
    pool: UniswapV4Pool,
    ctx: ChainConfig,
    amount: CurrencyAmount,
    other: Currency,
    route: RouteView,
    quoted: AssetAmount,
    limit_x96: Result<U256, QuoteError>,
    opts: OptionsView,
)
    ensures
        comes_to(
            pool.exact_in_outcome(ctx, amount, other, route, quoted, limit_x96, opts),
            seq![
                when(
                    pool.key_fee >= 0x100_0000
                        || pool.tick_spacing < -0x80_0000
                        || pool.tick_spacing >= 0x80_0000,
                    BuildError::Overflow,
                ),
                when(route.trade_type != TradeType::ExactIn, BuildError::UnsupportedProtocol),
                sides_refused(
                    pool.assets@,
                    v4_native(ctx, needs_weth(pool, ctx, amount.currency, other)),
                    amount.currency,
                    other,
                    opts,
                ),
                when(opts.price_limit is Some, BuildError::UnsupportedProtocol),
                when(
                    amount.raw.value() >= two_128()
                        || opts.slippage.min_out(quoted).raw.value() >= two_128(),
                    BuildError::Overflow,
                ),
                if amount.currency is Native {
                    None
                } else {
                    unconfigured(ctx.routers.permit2, ctx, MissingAddr::Permit2)
                },
                unconfigured(ctx.routers.universal, ctx, MissingAddr::UniversalRouter),
            ],
        ),
{
    lemma_deadline(opts);
}

/// An Aerodrome stable pool builds every exact-in swap of its two assets, by absolute
/// terms and without a price limit, once its router and factory are configured.
pub proof fn stable_is_refused_for_cause(
    pool: AerodromeStablePool,
    ctx: ChainConfig,
    amount: CurrencyAmount,
    other: Currency,
    route: RouteView,
    quoted: AssetAmount,
    limit_x96: Result<U256, QuoteError>,
    opts: OptionsView,
)
    ensures
        comes_to(
            pool.exact_in_outcome(ctx, amount, other, route, quoted, limit_x96, opts),
            seq![
                when(opts.price_limit is Some, BuildError::UnsupportedProtocol),
                when(route.trade_type != TradeType::ExactIn, BuildError::UnsupportedProtocol),
                sides_refused(pool.assets@, ctx.weth, amount.currency, other, opts),
                unconfigured(ctx.routers.aerodrome, ctx, MissingAddr::AerodromeRouter),
                unconfigured(ctx.routers.aerodrome_factory, ctx, MissingAddr::AerodromeFactory),
            ],
        ),
{
}

/// An Aerodrome volatile pool builds every exact-in swap of its two assets, by absolute
/// terms and without a price limit, once its router and factory are configured.
pub proof fn volatile_is_refused_for_cause(
    pool: AerodromeVolatilePool,
    ctx: ChainConfig,
    amount: CurrencyAmount,
    other: Currency,
    route: RouteView,
    quoted: AssetAmount,
    limit_x96: Result<U256, QuoteError>,
    opts: OptionsView,
)
    ensures
        comes_to(
            pool.exact_in_outcome(ctx, amount, other, route, quoted, limit_x96, opts),
            seq![
                when(opts.price_limit is Some, BuildError::UnsupportedProtocol),
                when(route.trade_type != TradeType::ExactIn, BuildError::UnsupportedProtocol),
                sides_refused(pool.assets@, ctx.weth, amount.currency, other, opts),
                unconfigured(ctx.routers.aerodrome, ctx, MissingAddr::AerodromeRouter),
                unconfigured(ctx.routers.aerodrome_factory, ctx, MissingAddr::AerodromeFactory),
            ],
        ),
{
}

/// A Curve pool builds every exact-in swap of two of its coins, by absolute terms
/// and without a price limit, where its address and its entrypoint are known.
/// Native sides need the entrypoint that can take ETH.
pub proof fn curve_is_refused_for_cause(
    pool: CurvePool,
    ctx: ChainConfig,
    amount: CurrencyAmount,
    other: Currency,
    route: RouteView,
    quoted: AssetAmount,
    limit_x96: Result<U256, QuoteError>,
    opts: OptionsView,
)
    ensures
        comes_to(
            pool.exact_in_outcome(ctx, amount, other, route, quoted, limit_x96, opts),
            seq![
                when(opts.price_limit is Some, BuildError::UnsupportedProtocol),
                when(
                    (amount.currency is Native || other is Native) && pool.interface != Some(
                        CurveInterface::CryptoU256UseEth,
                    ),
                    BuildError::UnsupportedProtocol,
                ),
                sides_refused(pool.assets@, ctx.weth, amount.currency, other, opts),
                when(
                    pool.pool_address is None || pool.interface is None,
                    BuildError::UnsupportedProtocol,
                ),
            ],
        ),
{
}

/// A Uniswap V2 pool builds every exact-out swap of its two assets, by absolute terms
/// and without a price limit, once its router is configured.
pub proof fn v2_exact_out_is_refused_for_cause(
    pool: UniswapV2Pool,
    ctx: ChainConfig,
    amount: CurrencyAmount,
    other: Currency,
    route: RouteView,
    quoted: AssetAmount,
    limit_x96: Result<U256, QuoteError>,
    opts: OptionsView,
)
    ensures
        comes_to(
            pool.exact_out_outcome(ctx, amount, other, route, quoted, limit_x96, opts),
            seq![
                when(opts.price_limit is Some, BuildError::UnsupportedProtocol),
                when(route.trade_type != TradeType::ExactOut, BuildError::UnsupportedProtocol),
                sides_refused(pool.assets@, ctx.weth, other, amount.currency, opts),
                unconfigured(ctx.routers.v2, ctx, MissingAddr::V2Router),
            ],
        ),
{
}

/// A Uniswap V3 pool builds every exact-out swap of its two assets, by absolute terms
/// and within a price limit that its call can carry, once its router is
/// configured. Its fee has to fit 24 bits.
pub proof fn v3_exact_out_is_refused_for_cause(
    pool: UniswapV3Pool,
    ctx: ChainConfig,
    amount: CurrencyAmount,
    other: Currency,
    route: RouteView,
    quoted: AssetAmount,
    limit_x96: Result<U256, QuoteError>,
    opts: OptionsView,
)
    ensures
        comes_to(
            pool.exact_out_outcome(ctx, amount, other, route, quoted, limit_x96, opts),
            seq![
                when(route.trade_type != TradeType::ExactOut, BuildError::UnsupportedProtocol),
                sides_refused(pool.assets@, ctx.weth, other, amount.currency, opts),
                limit_refused(opts, route.hops.len() == 2, limit_x96),
                unconfigured(ctx.routers.v3, ctx, MissingAddr::V3Router),
                when(pool.fee_pips >= 0x100_0000, BuildError::Overflow),
            ],
        ),
{
    lemma_deadline(opts);
}

/// A Slipstream pool builds every exact-out swap of its two assets, by absolute terms
/// and within a price limit that its call can carry, once its router is
/// configured. Its tick spacing has to fit 24 bits.
pub proof fn slipstream_exact_out_is_refused_for_cause(
    pool: AerodromeSlipstreamPool,
    ctx: ChainConfig,
    amount: CurrencyAmount,
    other: Currency,
    route: RouteView,
    quoted: AssetAmount,
    limit_x96: Result<U256, QuoteError>,
    opts: OptionsView,
)
    ensures
        comes_to(
            pool.exact_out_outcome(ctx, amount, other, route, quoted, limit_x96, opts),
            seq![
                sides_refused(pool.assets@, ctx.weth, other, amount.currency, opts),
                limit_refused(opts, true, limit_x96),
                unconfigured(ctx.routers.slipstream, ctx, MissingAddr::SlipstreamRouter),
                when(
                    pool.tick_spacing < -0x80_0000 || pool.tick_spacing >= 0x80_0000,
                    BuildError::Overflow,
                ),
            ],
        ),
{
    lemma_deadline(opts);
}

/// A Uniswap V4 pool builds every exact-out swap of its two currencies, or of ETH for
/// its WETH, by absolute terms and without a price limit, once the Universal
/// Router is configured, and Permit2 where a token is drawn. Its key has to fit
/// 24 bits twice, and both amounts 128.
pub proof fn v4_exact_out_is_refused_for_cause(
    pool: UniswapV4Pool,
    ctx: ChainConfig,
    amount: CurrencyAmount,
    other: Currency,
    route: RouteView,
    quoted: AssetAmount,
    limit_x96: Result<U256, QuoteError>,
    opts: OptionsView,
)
    ensures
        comes_to(
            pool.exact_out_outcome(ctx, amount, other, route, quoted, limit_x96, opts),
            seq![
                when(
                    pool.key_fee >= 0x100_0000
                        || pool.tick_spacing < -0x80_0000
                        || pool.tick_spacing >= 0x80_0000,
                    BuildError::Overflow,
                ),
                when(route.trade_type != TradeType::ExactOut, BuildError::UnsupportedProtocol),
                sides_refused(
                    pool.assets@,
                    v4_native(ctx, needs_weth(pool, ctx, other, amount.currency)),
                    other,
                    amount.currency,
                    opts,
                ),
                when(opts.price_limit is Some, BuildError::UnsupportedProtocol),
                when(
                    amount.raw.value() >= two_128()
                        || opts.slippage.max_in(quoted).raw.value() >= two_128(),
                    BuildError::Overflow,
                ),
                if other is Native {
                    None
                } else {
                    unconfigured(ctx.routers.permit2, ctx, MissingAddr::Permit2)
                },
                unconfigured(ctx.routers.universal, ctx, MissingAddr::UniversalRouter),
            ],
        ),
{
    lemma_deadline(opts);
}

/// Whatever its family, a pool is asked by what it is: dispatch changes nothing.
pub proof fn pools_answer_as_their_family(
    pool: Pool,
    ctx: ChainConfig,
    amount: CurrencyAmount,
    other: Currency,
    route: RouteView,
    quoted: AssetAmount,
    limit_x96: Result<U256, QuoteError>,
    opts: OptionsView,
)
    ensures
        pool_exact_in(pool, ctx, amount, other, route, quoted, limit_x96, opts) == (match pool {
            Pool::UniswapV2(p) => p.exact_in_outcome(
                ctx, amount, other, route, quoted, limit_x96, opts,
            ),
            Pool::UniswapV3(p) => p.exact_in_outcome(
                ctx, amount, other, route, quoted, limit_x96, opts,
            ),
            Pool::UniswapV4(p) => p.exact_in_outcome(
                ctx, amount, other, route, quoted, limit_x96, opts,
            ),
            Pool::AerodromeStable(p) => p.exact_in_outcome(
                ctx, amount, other, route, quoted, limit_x96, opts,
            ),
            Pool::AerodromeVolatile(p) => p.exact_in_outcome(
                ctx, amount, other, route, quoted, limit_x96, opts,
            ),
            Pool::AerodromeSlipstream(p) => p.exact_in_outcome(
                ctx, amount, other, route, quoted, limit_x96, opts,
            ),
            Pool::Curve(p) => p.exact_in_outcome(
                ctx, amount, other, route, quoted, limit_x96, opts,
            ),
            Pool::Other(_) => Err(BuildError::UnsupportedProtocol),
        }),
        pool_exact_out(pool, ctx, amount, other, route, quoted, limit_x96, opts) == (match pool {
            Pool::UniswapV2(p) => p.exact_out_outcome(
                ctx, amount, other, route, quoted, limit_x96, opts,
            ),
            Pool::UniswapV3(p) => p.exact_out_outcome(
                ctx, amount, other, route, quoted, limit_x96, opts,
            ),
            Pool::UniswapV4(p) => p.exact_out_outcome(
                ctx, amount, other, route, quoted, limit_x96, opts,
            ),
            Pool::AerodromeStable(p) => p.exact_out_outcome(
                ctx, amount, other, route, quoted, limit_x96, opts,
            ),
            Pool::AerodromeVolatile(p) => p.exact_out_outcome(
                ctx, amount, other, route, quoted, limit_x96, opts,
            ),
            Pool::AerodromeSlipstream(p) => p.exact_out_outcome(
                ctx, amount, other, route, quoted, limit_x96, opts,
            ),
            Pool::Curve(p) => p.exact_out_outcome(
                ctx, amount, other, route, quoted, limit_x96, opts,
            ),
            Pool::Other(_) => Err(BuildError::UnsupportedProtocol),
        }),
{
}

/// Only Uniswap and Slipstream pools fix an output; every other pool refuses to.
pub proof fn other_pools_fix_no_output(
    pool: Pool,
    ctx: ChainConfig,
    amount: CurrencyAmount,
    other: Currency,
    route: RouteView,
    quoted: AssetAmount,
    limit_x96: Result<U256, QuoteError>,
    opts: OptionsView,
)
    requires
        pool is AerodromeStable || pool is AerodromeVolatile || pool is Curve || pool is Other,
    ensures
        pool_exact_out(pool, ctx, amount, other, route, quoted, limit_x96, opts) == Err::<
            SwapView,
            BuildError,
        >(BuildError::UnsupportedProtocol),
        pool is Other ==> pool_exact_in(
            pool,
            ctx,
            amount,
            other,
            route,
            quoted,
            limit_x96,
            opts,
        ) == Err::<SwapView, BuildError>(BuildError::UnsupportedProtocol),
{
}

/// The contract that a swap on a pool is sent to.
pub open spec fn called(pool: Pool, ctx: ChainConfig) -> Option<Address> {
    match pool {
        Pool::UniswapV2(_) => ctx.routers.v2,
        Pool::UniswapV3(_) => ctx.routers.v3,
        Pool::UniswapV4(_) => ctx.routers.universal,
        Pool::AerodromeStable(_) | Pool::AerodromeVolatile(_) => ctx.routers.aerodrome,
        Pool::AerodromeSlipstream(_) => ctx.routers.slipstream,
        Pool::Curve(p) => p.pool_address,
        Pool::Other(_) => None,
    }
}

/// Whether a swap goes to the contract that settles the pool, for the configured
/// chain, and pays `spend` of its input: attached, or drawn by that contract, or
/// by Permit2 for the Universal Router.
pub open spec fn sends(
    v: SwapView,
    pool: Pool,
    ctx: ChainConfig,
    input: Currency,
    spend: U256,
) -> bool {
    &&& called(pool, ctx) == Some(v.to)
    &&& v.chain == ctx.chain
    &&& v.price_impact is None
    &&& match input {
        Currency::Native => v.value == spend && v.approval is None,
        Currency::Token(token) => {
            &&& v.value.value() == 0
            &&& v.approval matches Some(p)
            &&& p.token == token
            &&& p.min_allowance == spend
            &&& !p.reset_first
            &&& if pool is UniswapV4 {
                ctx.routers.permit2 == Some(p.spender)
            } else {
                p.spender == v.to
            }
        },
    }
}

/// A built exact-in swap goes to the contract that settles the pool and pays the
/// input. It promises the part of the quote that the tolerance leaves, in the
/// wrapped token where the output is native, and caps nothing.
#[verifier::spinoff_prover]
#[verifier::rlimit(60)]
pub proof fn exact_in_states_its_terms(
    pool: Pool,
    ctx: ChainConfig,
    amount: CurrencyAmount,
    other: Currency,
    route: RouteView,
    quoted: AssetAmount,
    limit_x96: Result<U256, QuoteError>,
    opts: OptionsView,
)
    ensures
        match pool_exact_in(pool, ctx, amount, other, route, quoted, limit_x96, opts) {
            Ok(v) => {
                let floor = v.min_received.raw.value();
                &&& sends(v, pool, ctx, amount.currency, amount.raw)
                &&& v.max_spent is None
                &&& v.min_received.asset == (match other {
                    Currency::Native => ctx.weth,
                    Currency::Token(_) => quoted.asset,
                })
                &&& floor * 10000 <= quoted.raw.value() * (if opts.slippage.0.0 < 10000 {
                    10000 - opts.slippage.0.0
                } else {
                    0
                }) < (floor + 1) * 10000
            },
            Err(_) => true,
        },
{
    floor_is_the_kept_share(opts.slippage, quoted);
    assert(U256::zero().value() == 0);
    match pool {
        Pool::UniswapV2(_) => {},
        Pool::UniswapV3(_) => {},
        Pool::UniswapV4(_) => {},
        Pool::AerodromeStable(_) => {},
        Pool::AerodromeVolatile(_) => {},
        Pool::AerodromeSlipstream(_) => {},
        Pool::Curve(_) => {},
        Pool::Other(_) => {},
    }
}

/// A built exact-out swap goes to the contract that settles the pool and pays at
/// most the quote and the tolerance on top, in the asset that the input moves as.
/// It promises the wanted output itself.
#[verifier::spinoff_prover]
#[verifier::rlimit(60)]
pub proof fn exact_out_states_its_terms(
    pool: Pool,
    ctx: ChainConfig,
    amount: CurrencyAmount,
    other: Currency,
    route: RouteView,
    quoted: AssetAmount,
    limit_x96: Result<U256, QuoteError>,
    opts: OptionsView,
)
    ensures
        match pool_exact_out(pool, ctx, amount, other, route, quoted, limit_x96, opts) {
            Ok(v) => {
                let share = quoted.raw.value() * (10000 + opts.slippage.0.0);
                &&& v.max_spent matches Some(max)
                &&& sends(v, pool, ctx, other, max.raw)
                &&& v.min_received == AssetAmount {
                    asset: moved(amount.currency, ctx.weth),
                    raw: amount.raw,
                }
                &&& max.asset == (match pool {
                    Pool::UniswapV4(p) => moved(
                        other,
                        v4_native(ctx, needs_weth(p, ctx, other, amount.currency)),
                    ),
                    _ => moved(other, ctx.weth),
                })
                &&& (max.raw.value() - 1) * 10000 < share
                &&& share <= max.raw.value() * 10000 || max.raw.value() == two_256() - 1
            },
            Err(_) => true,
        },
{
    ceiling_is_the_quote_and_the_tolerance(opts.slippage, quoted);
    assert(U256::zero().value() == 0);
    match pool {
        Pool::UniswapV2(_) => {},
        Pool::UniswapV3(_) => {},
        Pool::UniswapV4(_) => {},
        Pool::AerodromeStable(_) => {},
        Pool::AerodromeVolatile(_) => {},
        Pool::AerodromeSlipstream(_) => {},
        Pool::Curve(_) => {},
        Pool::Other(_) => {},
    }
}

} // verus!
