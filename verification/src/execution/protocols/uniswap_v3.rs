//! Uniswap V3 `exactInputSingle` and `exactOutputSingle` on SwapRouter02. Every
//! call goes into the multicall that carries the deadline; native output is
//! unwrapped there, and unspent native input refunded.
use crate::abi::{address_slot, call_data, encode_single_by_fee, layout, uint_slot, word, Slot};
use crate::asset::{AssetAmount, QuoteError};
use crate::execution::config::{configured, ChainConfig};
use crate::execution::error::{BuildError, MissingAddr};
use crate::execution::executable::Executable;
use crate::execution::options::{ExecutionOptions, OptionsView};
use crate::execution::prepared::{PreparedSwap, Route, RouteView, SwapView};
use crate::execution::protocols::swaprouter02::{
    build_exact_in, build_exact_out, family_exact_in, family_exact_out, SingleParams, SwapRouter02,
};
use crate::execution::route_planner::address_this;
use crate::execution::sealed::Sealed;
use crate::execution::types::{Currency, CurrencyAmount, TradeType};
use crate::pools::UniswapV3Pool;
use crate::primitives::{
    be_bytes, be_bytes_round_trip, lemma_pow256_values, two_160, u256_value_of, Address, U256,
};
use vstd::prelude::*;

verus! {

/// Selector of `exactInputSingle` with a `uint24` fee.
pub const EXACT_INPUT_SINGLE: u32 = 0x04e45aaf;

/// Selector of `exactOutputSingle` with a `uint24` fee.
pub const EXACT_OUTPUT_SINGLE: u32 = 0x5023b4df;

/// The swap call of a pool with this fee.
pub open spec fn call_by_fee(selector: u32, fee: u32, p: SingleParams) -> Seq<u8> {
    be_bytes(selector as nat, 4) + layout(
        seq![
            address_slot(p.token_in),
            address_slot(p.token_out),
            Slot::Word(word(fee as nat)),
            address_slot(p.recipient),
            uint_slot(p.amount),
            uint_slot(p.limit_amount),
            uint_slot(p.sqrt_limit),
        ],
    )
}

fn encode_by_fee(selector: u32, fee: u32, p: &SingleParams) -> (r: Result<Vec<u8>, BuildError>)
    requires
        p.sqrt_limit.value() < two_160(),
    ensures
        match r {
            Ok(d) => fee < 0x100_0000 && d@ == call_by_fee(selector, fee, *p),
            Err(e) => fee >= 0x100_0000 && e == BuildError::Overflow,
        },
{
    if fee >= 0x100_0000 {
        return Err(BuildError::Overflow);
    }
    proof {
        lemma_pow256_values();
        u256_value_of(p.sqrt_limit);
        be_bytes_round_trip(p.sqrt_limit.value(), 32);
    }
    let args = encode_single_by_fee(
        &p.token_in.to_bytes(),
        &p.token_out.to_bytes(),
        fee,
        &p.recipient.to_bytes(),
        &p.amount.to_be_bytes(),
        &p.limit_amount.to_be_bytes(),
        &p.sqrt_limit.to_be_bytes(),
    );
    Ok(call_data(selector, args))
}

impl SwapRouter02 for UniswapV3Pool {
    open spec fn router_of(&self, ctx: ChainConfig) -> Result<Address, BuildError> {
        configured(ctx.routers.v3, ctx.chain, MissingAddr::V3Router)
    }

    open spec fn single_call(&self, trade: TradeType, p: SingleParams) -> Result<
        Seq<u8>,
        BuildError,
    > {
        if self.fee_pips >= 0x100_0000 {
            Err(BuildError::Overflow)
        } else {
            match trade {
                TradeType::ExactIn => Ok(call_by_fee(EXACT_INPUT_SINGLE, self.fee_pips, p)),
                TradeType::ExactOut => Ok(call_by_fee(EXACT_OUTPUT_SINGLE, self.fee_pips, p)),
            }
        }
    }

    open spec fn multicall_carries_deadline(&self) -> bool {
        true
    }

    open spec fn custody_of(&self, router: Address) -> Address {
        address_this()
    }

    fn router(&self, ctx: &ChainConfig) -> (r: Result<Address, BuildError>) {
        ctx.router_v3()
    }

    fn encode_exact_in(&self, p: &SingleParams) -> (r: Result<Vec<u8>, BuildError>) {
        encode_by_fee(EXACT_INPUT_SINGLE, self.fee_pips, p)
    }

    fn encode_exact_out(&self, p: &SingleParams) -> (r: Result<Vec<u8>, BuildError>) {
        encode_by_fee(EXACT_OUTPUT_SINGLE, self.fee_pips, p)
    }

    fn deadline_in_multicall(&self) -> (r: bool) {
        true
    }

    fn custody_recipient(&self, router: Address) -> (r: Address) {
        address_this()
    }
}

impl Sealed for UniswapV3Pool {

}

impl Executable for UniswapV3Pool {
    open spec fn exact_in_outcome(
        &self,
        ctx: ChainConfig,
        amount_in: CurrencyAmount,
        to: Currency,
        route: RouteView,
        quoted_out: AssetAmount,
        limit_x96: Result<U256, QuoteError>,
        opts: OptionsView,
    ) -> Result<SwapView, BuildError> {
        if route.trade_type != TradeType::ExactIn {
            Err(BuildError::UnsupportedProtocol)
        } else {
            family_exact_in(
                self,
                self.assets@,
                ctx,
                amount_in,
                to,
                route.hops.len(),
                quoted_out,
                limit_x96,
                opts,
            )
        }
    }

    open spec fn exact_out_outcome(
        &self,
        ctx: ChainConfig,
        amount_out: CurrencyAmount,
        from: Currency,
        route: RouteView,
        quoted_in: AssetAmount,
        limit_x96: Result<U256, QuoteError>,
        opts: OptionsView,
    ) -> Result<SwapView, BuildError> {
        if route.trade_type != TradeType::ExactOut {
            Err(BuildError::UnsupportedProtocol)
        } else {
            family_exact_out(
                self,
                self.assets@,
                ctx,
                amount_out,
                from,
                route.hops.len(),
                quoted_in,
                limit_x96,
                opts,
            )
        }
    }

    fn sealed(&self, by: &dyn Sealed) {
    }

    fn build_swap(
        &self,
        ctx: &ChainConfig,
        amount_in: CurrencyAmount,
        to: Currency,
        route: &Route,
        quoted_out: &AssetAmount,
        limit_x96: Result<U256, QuoteError>,
        opts: &ExecutionOptions,
    ) -> (r: Result<PreparedSwap, BuildError>) {
        if route.trade_type != TradeType::ExactIn {
            return Err(BuildError::UnsupportedProtocol);
        }
        build_exact_in(
            self,
            self.assets.as_slice(),
            ctx,
            amount_in,
            to,
            route.hops.len(),
            quoted_out,
            limit_x96,
            opts,
        )
    }

    fn build_swap_exact_out(
        &self,
        ctx: &ChainConfig,
        amount_out: CurrencyAmount,
        from: Currency,
        route: &Route,
        quoted_in: &AssetAmount,
        limit_x96: Result<U256, QuoteError>,
        opts: &ExecutionOptions,
    ) -> (r: Result<PreparedSwap, BuildError>) {
        if route.trade_type != TradeType::ExactOut {
            return Err(BuildError::UnsupportedProtocol);
        }
        build_exact_out(
            self,
            self.assets.as_slice(),
            ctx,
            amount_out,
            from,
            route.hops.len(),
            quoted_in,
            limit_x96,
            opts,
        )
    }
}

} // verus!
