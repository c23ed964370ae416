//! Uniswap V2 router calls, exact-in and exact-out, on tokens and native ETH.
use crate::abi::{
    address_list_tail, address_slot, call_data, encode_path_swap, encode_path_swap_payable, layout,
    uint_slot, Slot,
};
use crate::asset::{AssetAmount, QuoteError};
use crate::execution::config::{configured, ChainConfig};
use crate::execution::error::{BuildError, MissingAddr};
use crate::execution::executable::Executable;
use crate::execution::options::{ExecutionOptions, OptionsView};
use crate::execution::prepared::{PreparedSwap, Route, RouteView, SwapView};
use crate::execution::protocols::common::{
    assembled, attached, evm_addr, payment, prepared, promise, promised, required_allowance,
    resolve_swap, resolved_swap, ResolvedSwap,
};
use crate::execution::route_planner::{address_arrays, address_views};
use crate::execution::sealed::Sealed;
use crate::execution::types::{Currency, CurrencyAmount, TradeType};
use crate::pools::UniswapV2Pool;
use crate::primitives::{be_bytes, Address, U256};
use vstd::prelude::*;

verus! {

/// Selector of `swapExactTokensForTokens(uint256,uint256,address[],address,uint256)`.
pub const SWAP_EXACT_TOKENS_FOR_TOKENS: u32 = 0x38ed1739;

/// Selector of `swapExactETHForTokens(uint256,address[],address,uint256)`.
pub const SWAP_EXACT_ETH_FOR_TOKENS: u32 = 0x7ff36ab5;

/// Selector of `swapExactTokensForETH(uint256,uint256,address[],address,uint256)`.
pub const SWAP_EXACT_TOKENS_FOR_ETH: u32 = 0x18cbafe5;

/// Selector of `swapTokensForExactTokens(uint256,uint256,address[],address,uint256)`.
pub const SWAP_TOKENS_FOR_EXACT_TOKENS: u32 = 0x8803dbee;

/// Selector of `swapETHForExactTokens(uint256,address[],address,uint256)`.
pub const SWAP_ETH_FOR_EXACT_TOKENS: u32 = 0xfb3bdb41;

/// Selector of `swapTokensForExactETH(uint256,uint256,address[],address,uint256)`.
pub const SWAP_TOKENS_FOR_EXACT_ETH: u32 = 0x4a25d94a;

/// A router call along a path. The native-in entrypoints take one amount, the
/// other being the attached ETH; `fixed` is the exact side, `bound` the other.
pub open spec fn router_call(
    selector: u32,
    amounts: Seq<U256>,
    r: ResolvedSwap,
) -> Seq<u8> {
    let path = Slot::Tail(
        address_list_tail(address_views(seq![r.input.address(), r.output.address()])),
    );
    let rest = seq![path, address_slot(r.recipient), uint_slot(r.deadline)];
    be_bytes(selector as nat, 4) + layout(amounts.map_values(|a: U256| uint_slot(a)) + rest)
}

/// The exact-in entrypoint for the native sides of a swap.
pub open spec fn exact_in_call(r: ResolvedSwap, amount_in: U256, min: U256) -> Seq<u8> {
    if r.native_in {
        router_call(SWAP_EXACT_ETH_FOR_TOKENS, seq![min], r)
    } else if r.native_out {
        router_call(SWAP_EXACT_TOKENS_FOR_ETH, seq![amount_in, min], r)
    } else {
        router_call(SWAP_EXACT_TOKENS_FOR_TOKENS, seq![amount_in, min], r)
    }
}

/// The exact-out entrypoint for the native sides of a swap.
pub open spec fn exact_out_call(r: ResolvedSwap, amount_out: U256, max: U256) -> Seq<u8> {
    if r.native_in {
        router_call(SWAP_ETH_FOR_EXACT_TOKENS, seq![amount_out], r)
    } else if r.native_out {
        router_call(SWAP_TOKENS_FOR_EXACT_ETH, seq![amount_out, max], r)
    } else {
        router_call(SWAP_TOKENS_FOR_EXACT_TOKENS, seq![amount_out, max], r)
    }
}

/// The bytes of a router call with one amount.
fn encode_payable(selector: u32, amount: U256, r: &ResolvedSwap) -> (d: Vec<u8>)
    ensures
        d@ == router_call(selector, seq![amount], *r),
{
    let path = pair(r);
    let d = call_data(
        selector,
        encode_path_swap_payable(
            &amount.to_be_bytes(),
            &address_arrays(&path),
            &r.recipient.to_bytes(),
            &r.deadline.to_be_bytes(),
        ),
    );
    proof {
        let slots = seq![
            uint_slot(amount),
            Slot::Tail(address_list_tail(address_views(path@))),
            address_slot(r.recipient),
            uint_slot(r.deadline),
        ];
        assert(seq![amount].map_values(|a: U256| uint_slot(a)) + slots.skip(1) =~= slots);
        assert(slots.skip(1) =~= seq![slots[1], slots[2], slots[3]]);
    }
    d
}

/// The bytes of a router call with two amounts.
fn encode_drawn(selector: u32, fixed: U256, bound: U256, r: &ResolvedSwap) -> (d: Vec<u8>)
    ensures
        d@ == router_call(selector, seq![fixed, bound], *r),
{
    let path = pair(r);
    let d = call_data(
        selector,
        encode_path_swap(
            &fixed.to_be_bytes(),
            &bound.to_be_bytes(),
            &address_arrays(&path),
            &r.recipient.to_bytes(),
            &r.deadline.to_be_bytes(),
        ),
    );
    proof {
        let slots = seq![
            uint_slot(fixed),
            uint_slot(bound),
            Slot::Tail(address_list_tail(address_views(path@))),
            address_slot(r.recipient),
            uint_slot(r.deadline),
        ];
        assert(seq![fixed, bound].map_values(|a: U256| uint_slot(a)) + slots.skip(2) =~= slots);
        assert(slots.skip(2) =~= seq![slots[2], slots[3], slots[4]]);
    }
    d
}

/// The path of a single-hop swap.
fn pair(r: &ResolvedSwap) -> (path: Vec<Address>)
    ensures
        path@ == seq![r.input.address(), r.output.address()],
{
    let path: Vec<Address> = vec![evm_addr(&r.input), evm_addr(&r.output)];
    assert(path@ =~= seq![r.input.address(), r.output.address()]);
    path
}

impl Sealed for UniswapV2Pool {

}

impl Executable for UniswapV2Pool {
    open spec fn exact_in_outcome(
        &self,
        ctx: ChainConfig,
        amount_in: CurrencyAmount,
        to: Currency,
        route: RouteView,
        quoted_out: AssetAmount,
        limit_x96: Result<U256, QuoteError>,
        opts: OptionsView,
    ) -> Result<SwapView, BuildError> {
        let resolved = resolved_swap(
            self.assets@,
            ctx.weth,
            amount_in.currency,
            to,
            route,
            opts,
            TradeType::ExactIn,
        );
        let min = promised(opts.slippage, quoted_out, to, ctx.weth);
        if opts.price_limit is Some {
            Err(BuildError::UnsupportedProtocol)
        } else {
            match resolved {
                Err(e) => Err(e),
                Ok(r) => match configured(ctx.routers.v2, ctx.chain, MissingAddr::V2Router) {
                    Err(e) => Err(e),
                    Ok(router) => Ok(
                        assembled(
                            ctx,
                            router,
                            exact_in_call(r, amount_in.raw, min.raw),
                            attached(r.native_in, amount_in.raw),
                            min,
                            None,
                            required_allowance(r.native_in, router, r.input, amount_in.raw),
                        ),
                    ),
                },
            }
        }
    }

    open spec fn exact_out_outcome(
        &self,
        ctx: ChainConfig,
        amount_out: CurrencyAmount,
        from: Currency,
        route: RouteView,
        quoted_in: AssetAmount,
        limit_x96: Result<U256, QuoteError>,
        opts: OptionsView,
    ) -> Result<SwapView, BuildError> {
        let resolved = resolved_swap(
            self.assets@,
            ctx.weth,
            from,
            amount_out.currency,
            route,
            opts,
            TradeType::ExactOut,
        );
        let max = opts.slippage.max_in(quoted_in).raw;
        if opts.price_limit is Some {
            Err(BuildError::UnsupportedProtocol)
        } else {
            match resolved {
                Err(e) => Err(e),
                Ok(r) => match configured(ctx.routers.v2, ctx.chain, MissingAddr::V2Router) {
                    Err(e) => Err(e),
                    Ok(router) => Ok(
                        assembled(
                            ctx,
                            router,
                            exact_out_call(r, amount_out.raw, max),
                            attached(r.native_in, max),
                            AssetAmount { asset: r.output, raw: amount_out.raw },
                            Some(AssetAmount { asset: r.input, raw: max }),
                            required_allowance(r.native_in, router, r.input, max),
                        ),
                    ),
                },
            }
        }
    }

    fn sealed(&self, by: &dyn Sealed) {
    }

    fn build_swap(
        &self,
        ctx: &ChainConfig,
        amount_in: CurrencyAmount,
        to: Currency,
        route: &Route,
        quoted_out: &AssetAmount,
        limit_x96: Result<U256, QuoteError>,
        opts: &ExecutionOptions,
    ) -> (r: Result<PreparedSwap, BuildError>) {
        // The pair has no price bound to pass on.
        if opts.price_limit.is_some() {
            return Err(BuildError::UnsupportedProtocol);
        }
        let r = resolve_swap(
            ctx,
            self.assets.as_slice(),
            amount_in.currency,
            to,
            route,
            opts,
            TradeType::ExactIn,
        )?;
        let min = promise(&opts.slippage, quoted_out, to, ctx.weth);
        let router = ctx.router_v2()?;
        let data = if r.native_in {
            encode_payable(SWAP_EXACT_ETH_FOR_TOKENS, min.raw, &r)
        } else if r.native_out {
            encode_drawn(SWAP_EXACT_TOKENS_FOR_ETH, amount_in.raw, min.raw, &r)
        } else {
            encode_drawn(SWAP_EXACT_TOKENS_FOR_TOKENS, amount_in.raw, min.raw, &r)
        };
        let (value, approval) = payment(r.native_in, router, r.input, amount_in.raw);
        Ok(prepared(ctx, router, data, value, min, None, approval))
    }

    fn build_swap_exact_out(
        &self,
        ctx: &ChainConfig,
        amount_out: CurrencyAmount,
        from: Currency,
        route: &Route,
        quoted_in: &AssetAmount,
        limit_x96: Result<U256, QuoteError>,
        opts: &ExecutionOptions,
    ) -> (r: Result<PreparedSwap, BuildError>) {
        // The pair has no price bound to pass on.
        if opts.price_limit.is_some() {
            return Err(BuildError::UnsupportedProtocol);
        }
        let r = resolve_swap(
            ctx,
            self.assets.as_slice(),
            from,
            amount_out.currency,
            route,
            opts,
            TradeType::ExactOut,
        )?;
        let max = opts.slippage.max_amount_in(quoted_in).raw;
        let router = ctx.router_v2()?;
        let data = if r.native_in {
            // The router refunds what it does not need of the attached ceiling.
            encode_payable(SWAP_ETH_FOR_EXACT_TOKENS, amount_out.raw, &r)
        } else if r.native_out {
            encode_drawn(SWAP_TOKENS_FOR_EXACT_ETH, amount_out.raw, max, &r)
        } else {
            encode_drawn(SWAP_TOKENS_FOR_EXACT_TOKENS, amount_out.raw, max, &r)
        };
        let (value, approval) = payment(r.native_in, router, r.input, max);
        Ok(
            prepared(
                ctx,
                router,
                data,
                value,
                AssetAmount::new(r.output, amount_out.raw),
                Some(AssetAmount::new(r.input, max)),
                approval,
            ),
        )
    }
}

} // verus!
