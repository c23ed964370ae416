//! Aerodrome (Solidly) router calls, exact-in only: the lineage has no
//! exact-out entrypoint.
use crate::abi::{
    address_slot, address_word, bool_word, call_data, encode_leg_swap, encode_leg_swap_payable,
    layout, leg_views, leg_words, static_list_tail, uint_slot, LegBytes, Slot,
};
use crate::asset::{AssetAmount, AssetId, QuoteError};
use crate::execution::config::{configured, ChainConfig};
use crate::execution::error::{BuildError, MissingAddr};
use crate::execution::executable::Executable;
use crate::execution::options::{ExecutionOptions, OptionsView};
use crate::execution::prepared::{outcome, PreparedSwap, Route, RouteView, SwapView};
use crate::execution::protocols::common::{
    assembled, attached, evm_addr, payment, prepared, promise, promised, required_allowance,
    resolve_swap, resolved_swap, ResolvedSwap,
};
use crate::execution::sealed::Sealed;
use crate::execution::types::{Currency, CurrencyAmount, TradeType};
use crate::pools::{AerodromeStablePool, AerodromeVolatilePool};
use crate::primitives::{be_bytes, Address, U256};
use vstd::prelude::*;

verus! {

/// Selector of `swapExactTokensForTokens` with a list of legs.
pub const SWAP_EXACT_TOKENS_FOR_TOKENS: u32 = 0xcac88ea9;

/// Selector of `swapExactETHForTokens` with a list of legs.
pub const SWAP_EXACT_ETH_FOR_TOKENS: u32 = 0x903638a4;

/// Selector of `swapExactTokensForETH` with a list of legs.
pub const SWAP_EXACT_TOKENS_FOR_ETH: u32 = 0xc6b7f1b6;

/// One leg: from, to, whether the pair is stable, and the pair's factory.
pub open spec fn leg(r: ResolvedSwap, stable: bool, factory: Address) -> Seq<u8> {
    address_word(r.input.address().bytes()) + address_word(r.output.address().bytes())
        + bool_word(stable) + address_word(factory.bytes())
}

/// A router call over one leg. The native-in entrypoint takes one amount, the
/// input being the attached ETH.
pub open spec fn router_call(
    selector: u32,
    amounts: Seq<U256>,
    r: ResolvedSwap,
    stable: bool,
    factory: Address,
) -> Seq<u8> {
    let legs = Slot::Tail(static_list_tail(seq![leg(r, stable, factory)]));
    let rest = seq![legs, address_slot(r.recipient), uint_slot(r.deadline)];
    be_bytes(selector as nat, 4) + layout(amounts.map_values(|a: U256| uint_slot(a)) + rest)
}

/// The entrypoint for the native sides of a swap.
pub open spec fn exact_in_call(
    r: ResolvedSwap,
    stable: bool,
    factory: Address,
    amount_in: U256,
    min: U256,
) -> Seq<u8> {
    if r.native_in {
        router_call(SWAP_EXACT_ETH_FOR_TOKENS, seq![min], r, stable, factory)
    } else if r.native_out {
        router_call(SWAP_EXACT_TOKENS_FOR_ETH, seq![amount_in, min], r, stable, factory)
    } else {
        router_call(SWAP_EXACT_TOKENS_FOR_TOKENS, seq![amount_in, min], r, stable, factory)
    }
}

/// An exact-in swap on a pair with these assets.
pub open spec fn solidly_exact_in(
    assets: Seq<AssetId>,
    stable: bool,
    ctx: ChainConfig,
    amount_in: CurrencyAmount,
    to: Currency,
    route: RouteView,
    quoted_out: AssetAmount,
    opts: OptionsView,
) -> Result<SwapView, BuildError> {
    let resolved = resolved_swap(
        assets,
        ctx.weth,
        amount_in.currency,
        to,
        route,
        opts,
        TradeType::ExactIn,
    );
    let min = promised(opts.slippage, quoted_out, to, ctx.weth);
    if opts.price_limit is Some {
        Err(BuildError::UnsupportedProtocol)
    } else {
        match resolved {
            Err(e) => Err(e),
            Ok(r) => match configured(
                ctx.routers.aerodrome,
                ctx.chain,
                MissingAddr::AerodromeRouter,
            ) {
                Err(e) => Err(e),
                Ok(router) => match configured(
                    ctx.routers.aerodrome_factory,
                    ctx.chain,
                    MissingAddr::AerodromeFactory,
                ) {
                    Err(e) => Err(e),
                    Ok(factory) => Ok(
                        assembled(
                            ctx,
                            router,
                            exact_in_call(r, stable, factory, amount_in.raw, min.raw),
                            attached(r.native_in, amount_in.raw),
                            min,
                            None,
                            required_allowance(r.native_in, router, r.input, amount_in.raw),
                        ),
                    ),
                },
            },
        }
    }
}

fn legs_of(r: &ResolvedSwap, stable: bool, factory: Address) -> (legs: Vec<LegBytes>)
    ensures
        leg_views(legs@) == seq![leg(*r, stable, factory)],
{
    let one = LegBytes {
        from: evm_addr(&r.input).to_bytes(),
        to: evm_addr(&r.output).to_bytes(),
        stable,
        factory: factory.to_bytes(),
    };
    let ghost words = leg_words(one);
    let legs: Vec<LegBytes> = vec![one];
    assert(words == leg(*r, stable, factory));
    assert(leg_views(legs@) =~= seq![words]);
    legs
}

fn encode_payable(selector: u32, min: U256, r: &ResolvedSwap, stable: bool, factory: Address) -> (d:
    Vec<u8>)
    ensures
        d@ == router_call(selector, seq![min], *r, stable, factory),
{
    let legs = legs_of(r, stable, factory);
    let d = call_data(
        selector,
        encode_leg_swap_payable(
            &min.to_be_bytes(),
            &legs,
            &r.recipient.to_bytes(),
            &r.deadline.to_be_bytes(),
        ),
    );
    proof {
        let slots = seq![
            uint_slot(min),
            Slot::Tail(static_list_tail(leg_views(legs@))),
            address_slot(r.recipient),
            uint_slot(r.deadline),
        ];
        assert(seq![min].map_values(|a: U256| uint_slot(a)) + slots.skip(1) =~= slots);
        assert(slots.skip(1) =~= seq![slots[1], slots[2], slots[3]]);
    }
    d
}

fn encode_drawn(
    selector: u32,
    amount_in: U256,
    min: U256,
    r: &ResolvedSwap,
    stable: bool,
    factory: Address,
) -> (d: Vec<u8>)
    ensures
        d@ == router_call(selector, seq![amount_in, min], *r, stable, factory),
{
    let legs = legs_of(r, stable, factory);
    let d = call_data(
        selector,
        encode_leg_swap(
            &amount_in.to_be_bytes(),
            &min.to_be_bytes(),
            &legs,
            &r.recipient.to_bytes(),
            &r.deadline.to_be_bytes(),
        ),
    );
    proof {
        let slots = seq![
            uint_slot(amount_in),
            uint_slot(min),
            Slot::Tail(static_list_tail(leg_views(legs@))),
            address_slot(r.recipient),
            uint_slot(r.deadline),
        ];
        assert(seq![amount_in, min].map_values(|a: U256| uint_slot(a)) + slots.skip(2) =~= slots);
        assert(slots.skip(2) =~= seq![slots[2], slots[3], slots[4]]);
    }
    d
}

/// Builds an exact-in swap on a pair with these assets. `stable` tells the two
/// pair types apart and goes into the leg.
pub fn build_solidly(
    assets: &[AssetId],
    stable: bool,
    ctx: &ChainConfig,
    amount_in: CurrencyAmount,
    to: Currency,
    route: &Route,
    quoted_out: &AssetAmount,
    opts: &ExecutionOptions,
) -> (r: Result<PreparedSwap, BuildError>)
    ensures
        outcome(r) == solidly_exact_in(
            assets@,
            stable,
            *ctx,
            amount_in,
            to,
            route@,
            *quoted_out,
            opts@,
        ),
{
    // The pair has no price bound to pass on.
    if opts.price_limit.is_some() {
        return Err(BuildError::UnsupportedProtocol);
    }
    let r = resolve_swap(ctx, assets, amount_in.currency, to, route, opts, TradeType::ExactIn)?;
    let router = ctx.router_aerodrome()?;
    let factory = ctx.aerodrome_factory()?;
    let min = promise(&opts.slippage, quoted_out, to, ctx.weth);
    let data = if r.native_in {
        encode_payable(SWAP_EXACT_ETH_FOR_TOKENS, min.raw, &r, stable, factory)
    } else if r.native_out {
        encode_drawn(SWAP_EXACT_TOKENS_FOR_ETH, amount_in.raw, min.raw, &r, stable, factory)
    } else {
        encode_drawn(SWAP_EXACT_TOKENS_FOR_TOKENS, amount_in.raw, min.raw, &r, stable, factory)
    };
    let (value, approval) = payment(r.native_in, router, r.input, amount_in.raw);
    Ok(prepared(ctx, router, data, value, min, None, approval))
}

impl Sealed for AerodromeStablePool {

}

impl Executable for AerodromeStablePool {
    open spec fn exact_in_outcome(
        &self,
        ctx: ChainConfig,
        amount_in: CurrencyAmount,
        to: Currency,
        route: RouteView,
        quoted_out: AssetAmount,
        limit_x96: Result<U256, QuoteError>,
        opts: OptionsView,
    ) -> Result<SwapView, BuildError> {
        solidly_exact_in(self.assets@, true, ctx, amount_in, to, route, quoted_out, opts)
    }

    open spec fn exact_out_outcome(
        &self,
        ctx: ChainConfig,
        amount_out: CurrencyAmount,
        from: Currency,
        route: RouteView,
        quoted_in: AssetAmount,
        limit_x96: Result<U256, QuoteError>,
        opts: OptionsView,
    ) -> Result<SwapView, BuildError> {
        Err(BuildError::UnsupportedProtocol)
    }

    fn sealed(&self, by: &dyn Sealed) {
    }

    fn build_swap(
        &self,
        ctx: &ChainConfig,
        amount_in: CurrencyAmount,
        to: Currency,
        route: &Route,
        quoted_out: &AssetAmount,
        limit_x96: Result<U256, QuoteError>,
        opts: &ExecutionOptions,
    ) -> (r: Result<PreparedSwap, BuildError>) {
        build_solidly(self.assets.as_slice(), true, ctx, amount_in, to, route, quoted_out, opts)
    }

    fn build_swap_exact_out(
        &self,
        ctx: &ChainConfig,
        amount_out: CurrencyAmount,
        from: Currency,
        route: &Route,
        quoted_in: &AssetAmount,
        limit_x96: Result<U256, QuoteError>,
        opts: &ExecutionOptions,
    ) -> (r: Result<PreparedSwap, BuildError>) {
        Err(BuildError::UnsupportedProtocol)
    }
}

impl Sealed for AerodromeVolatilePool {

}

impl Executable for AerodromeVolatilePool {
    open spec fn exact_in_outcome(
        &self,
        ctx: ChainConfig,
        amount_in: CurrencyAmount,
        to: Currency,
        route: RouteView,
        quoted_out: AssetAmount,
        limit_x96: Result<U256, QuoteError>,
        opts: OptionsView,
    ) -> Result<SwapView, BuildError> {
        solidly_exact_in(self.assets@, false, ctx, amount_in, to, route, quoted_out, opts)
    }

    open spec fn exact_out_outcome(
        &self,
        ctx: ChainConfig,
        amount_out: CurrencyAmount,
        from: Currency,
        route: RouteView,
        quoted_in: AssetAmount,
        limit_x96: Result<U256, QuoteError>,
        opts: OptionsView,
    ) -> Result<SwapView, BuildError> {
        Err(BuildError::UnsupportedProtocol)
    }

    fn sealed(&self, by: &dyn Sealed) {
    }

    fn build_swap(
        &self,
        ctx: &ChainConfig,
        amount_in: CurrencyAmount,
        to: Currency,
        route: &Route,
        quoted_out: &AssetAmount,
        limit_x96: Result<U256, QuoteError>,
        opts: &ExecutionOptions,
    ) -> (r: Result<PreparedSwap, BuildError>) {
        build_solidly(self.assets.as_slice(), false, ctx, amount_in, to, route, quoted_out, opts)
    }

    fn build_swap_exact_out(
        &self,
        ctx: &ChainConfig,
        amount_out: CurrencyAmount,
        from: Currency,
        route: &Route,
        quoted_in: &AssetAmount,
        limit_x96: Result<U256, QuoteError>,
        opts: &ExecutionOptions,
    ) -> (r: Result<PreparedSwap, BuildError>) {
        Err(BuildError::UnsupportedProtocol)
    }
}

} // verus!
