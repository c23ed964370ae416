//! Aerodrome Slipstream `exactInputSingle` and `exactOutputSingle`. The swap
//! call carries the deadline and a tick spacing in place of a fee, so a single
//! call goes out as it is.
use crate::abi::{
    address_slot, call_data, encode_single_by_spacing, int_word, layout, uint_slot, Slot,
};
use crate::asset::{AssetAmount, QuoteError};
use crate::execution::config::{configured, ChainConfig};
use crate::execution::error::{BuildError, MissingAddr};
use crate::execution::executable::Executable;
use crate::execution::options::{ExecutionOptions, OptionsView};
use crate::execution::prepared::{PreparedSwap, Route, RouteView, SwapView};
use crate::execution::protocols::swaprouter02::{
    build_exact_in, build_exact_out, family_exact_in, family_exact_out, SingleParams, SwapRouter02,
};
use crate::execution::sealed::Sealed;
use crate::execution::types::{Currency, CurrencyAmount, TradeType};
use crate::pools::AerodromeSlipstreamPool;
use crate::primitives::{
    be_bytes, be_bytes_round_trip, lemma_pow256_values, two_160, u256_value_of, Address, U256,
};
use vstd::prelude::*;

verus! {

/// Selector of `exactInputSingle` with an `int24` tick spacing and a deadline.
pub const EXACT_INPUT_SINGLE: u32 = 0xa026383e;

/// Selector of `exactOutputSingle` with an `int24` tick spacing and a deadline.
pub const EXACT_OUTPUT_SINGLE: u32 = 0xc714e838;

/// Whether a tick spacing fits a signed 24-bit integer.
pub open spec fn spacing_fits(tick_spacing: i32) -> bool {
    -0x80_0000 <= tick_spacing < 0x80_0000
}

/// The swap call of a pool with this tick spacing.
pub open spec fn call_by_spacing(selector: u32, tick_spacing: i32, p: SingleParams) -> Seq<u8> {
    be_bytes(selector as nat, 4) + layout(
        seq![
            address_slot(p.token_in),
            address_slot(p.token_out),
            Slot::Word(int_word(tick_spacing as int)),
            address_slot(p.recipient),
            uint_slot(p.deadline),
            uint_slot(p.amount),
            uint_slot(p.limit_amount),
            uint_slot(p.sqrt_limit),
        ],
    )
}

fn encode_by_spacing(selector: u32, tick_spacing: i32, p: &SingleParams) -> (r: Result<
    Vec<u8>,
    BuildError,
>)
    requires
        p.sqrt_limit.value() < two_160(),
    ensures
        match r {
            Ok(d) => spacing_fits(tick_spacing) && d@ == call_by_spacing(
                selector,
                tick_spacing,
                *p,
            ),
            Err(e) => !spacing_fits(tick_spacing) && e == BuildError::Overflow,
        },
{
    if tick_spacing < -0x80_0000 || tick_spacing >= 0x80_0000 {
        return Err(BuildError::Overflow);
    }
    proof {
        lemma_pow256_values();
        u256_value_of(p.sqrt_limit);
        be_bytes_round_trip(p.sqrt_limit.value(), 32);
    }
    let args = encode_single_by_spacing(
        &p.token_in.to_bytes(),
        &p.token_out.to_bytes(),
        tick_spacing,
        &p.recipient.to_bytes(),
        &p.deadline.to_be_bytes(),
        &p.amount.to_be_bytes(),
        &p.limit_amount.to_be_bytes(),
        &p.sqrt_limit.to_be_bytes(),
    );
    Ok(call_data(selector, args))
}

impl SwapRouter02 for AerodromeSlipstreamPool {
    open spec fn router_of(&self, ctx: ChainConfig) -> Result<Address, BuildError> {
        configured(ctx.routers.slipstream, ctx.chain, MissingAddr::SlipstreamRouter)
    }

    open spec fn single_call(&self, trade: TradeType, p: SingleParams) -> Result<
        Seq<u8>,
        BuildError,
    > {
        if !spacing_fits(self.tick_spacing) {
            Err(BuildError::Overflow)
        } else {
            match trade {
                TradeType::ExactIn => Ok(
                    call_by_spacing(EXACT_INPUT_SINGLE, self.tick_spacing, p),
                ),
                TradeType::ExactOut => Ok(
                    call_by_spacing(EXACT_OUTPUT_SINGLE, self.tick_spacing, p),
                ),
            }
        }
    }

    open spec fn multicall_carries_deadline(&self) -> bool {
        false
    }

    open spec fn custody_of(&self, router: Address) -> Address {
        router
    }

    fn router(&self, ctx: &ChainConfig) -> (r: Result<Address, BuildError>) {
        ctx.router_slipstream()
    }

    fn encode_exact_in(&self, p: &SingleParams) -> (r: Result<Vec<u8>, BuildError>) {
        encode_by_spacing(EXACT_INPUT_SINGLE, self.tick_spacing, p)
    }

    fn encode_exact_out(&self, p: &SingleParams) -> (r: Result<Vec<u8>, BuildError>) {
        encode_by_spacing(EXACT_OUTPUT_SINGLE, self.tick_spacing, p)
    }

    fn deadline_in_multicall(&self) -> (r: bool) {
        false
    }

    /// This router knows no stand-in for itself.
    fn custody_recipient(&self, router: Address) -> (r: Address) {
        router
    }
}

impl Sealed for AerodromeSlipstreamPool {

}

impl Executable for AerodromeSlipstreamPool {
    open spec fn exact_in_outcome(
        &self,
        ctx: ChainConfig,
        amount_in: CurrencyAmount,
        to: Currency,
        route: RouteView,
        quoted_out: AssetAmount,
        limit_x96: Result<U256, QuoteError>,
        opts: OptionsView,
    ) -> Result<SwapView, BuildError> {
        family_exact_in(self, self.assets@, ctx, amount_in, to, 2, quoted_out, limit_x96, opts)
    }

    open spec fn exact_out_outcome(
        &self,
        ctx: ChainConfig,
        amount_out: CurrencyAmount,
        from: Currency,
        route: RouteView,
        quoted_in: AssetAmount,
        limit_x96: Result<U256, QuoteError>,
        opts: OptionsView,
    ) -> Result<SwapView, BuildError> {
        family_exact_out(self, self.assets@, ctx, amount_out, from, 2, quoted_in, limit_x96, opts)
    }

    fn sealed(&self, by: &dyn Sealed) {
    }

    /// The route is not read: a single pool is always a route of two assets.
    fn build_swap(
        &self,
        ctx: &ChainConfig,
        amount_in: CurrencyAmount,
        to: Currency,
        route: &Route,
        quoted_out: &AssetAmount,
        limit_x96: Result<U256, QuoteError>,
        opts: &ExecutionOptions,
    ) -> (r: Result<PreparedSwap, BuildError>) {
        build_exact_in(
            self,
            self.assets.as_slice(),
            ctx,
            amount_in,
            to,
            2,
            quoted_out,
            limit_x96,
            opts,
        )
    }

    /// The route is not read, as in [`Executable::build_swap`].
    fn build_swap_exact_out(
        &self,
        ctx: &ChainConfig,
        amount_out: CurrencyAmount,
        from: Currency,
        route: &Route,
        quoted_in: &AssetAmount,
        limit_x96: Result<U256, QuoteError>,
        opts: &ExecutionOptions,
    ) -> (r: Result<PreparedSwap, BuildError>) {
        build_exact_out(
            self,
            self.assets.as_slice(),
            ctx,
            amount_out,
            from,
            2,
            quoted_in,
            limit_x96,
            opts,
        )
    }
}

} // verus!
