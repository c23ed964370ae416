//! Curve `exchange` calls, exact-in only, sent to the pool itself, which also
//! draws the input under an allowance.
//!
//! Only the receiver entrypoint pays anyone but the caller: on the others the
//! resolved recipient is checked for but has no place in the call.
use crate::abi::{
    address_slot, bool_word, call_data, encode_flag_exchange, encode_receiver_exchange,
    encode_signed_exchange, int_word, layout, uint_slot, word, Slot,
};
use crate::asset::{AssetAmount, QuoteError};
use crate::execution::config::ChainConfig;
use crate::execution::error::BuildError;
use crate::execution::executable::Executable;
use crate::execution::options::{ExecutionOptions, OptionsView};
use crate::execution::prepared::{PreparedSwap, Route, RouteView, SwapView};
use crate::execution::protocols::common::{
    assembled, attached, payment, prepared, promise, promised, required_allowance, resolve_pair,
    resolved_pair, ResolvedSwap,
};
use crate::execution::sealed::Sealed;
use crate::execution::types::{Currency, CurrencyAmount};
use crate::pools::{CurveInterface, CurvePool};
use crate::primitives::{be_bytes, U256};
use vstd::prelude::*;

verus! {

/// Selector of `exchange(int128,int128,uint256,uint256)`.
pub const EXCHANGE_STABLE: u32 = 0x3df02124;

/// Selector of `exchange(uint256,uint256,uint256,uint256,bool)`.
pub const EXCHANGE_USE_ETH: u32 = 0x394747c5;

/// Selector of `exchange(uint256,uint256,uint256,uint256,address)`.
pub const EXCHANGE_RECEIVER: u32 = 0xa64833a0;

/// The `exchange` call of an interface: coin `i` for coin `j`.
pub open spec fn exchange_call(
    interface: CurveInterface,
    i: nat,
    j: nat,
    dx: U256,
    min_dy: U256,
    r: ResolvedSwap,
) -> Seq<u8> {
    match interface {
        CurveInterface::StableI128 | CurveInterface::StableI128Ng => be_bytes(
            EXCHANGE_STABLE as nat,
            4,
        ) + layout(
            seq![
                Slot::Word(int_word(i as int)),
                Slot::Word(int_word(j as int)),
                uint_slot(dx),
                uint_slot(min_dy),
            ],
        ),
        CurveInterface::CryptoU256UseEth => be_bytes(EXCHANGE_USE_ETH as nat, 4) + layout(
            seq![
                Slot::Word(word(i)),
                Slot::Word(word(j)),
                uint_slot(dx),
                uint_slot(min_dy),
                Slot::Word(bool_word(r.native_in || r.native_out)),
            ],
        ),
        CurveInterface::CryptoU256Receiver => be_bytes(EXCHANGE_RECEIVER as nat, 4) + layout(
            seq![
                Slot::Word(word(i)),
                Slot::Word(word(j)),
                uint_slot(dx),
                uint_slot(min_dy),
                address_slot(r.recipient),
            ],
        ),
    }
}

fn encode_exchange(
    interface: CurveInterface,
    i: usize,
    j: usize,
    dx: U256,
    min_dy: U256,
    r: &ResolvedSwap,
) -> (d: Vec<u8>)
    ensures
        d@ == exchange_call(interface, i as nat, j as nat, dx, min_dy, *r),
{
    let dx_bytes = dx.to_be_bytes();
    let min_bytes = min_dy.to_be_bytes();
    match interface {
        CurveInterface::StableI128 | CurveInterface::StableI128Ng => {
            call_data(
                EXCHANGE_STABLE,
                encode_signed_exchange(i as i128, j as i128, &dx_bytes, &min_bytes),
            )
        },
        CurveInterface::CryptoU256UseEth => {
            let use_eth = r.native_in || r.native_out;
            let i_bytes = U256::from_u64(i as u64).to_be_bytes();
            let j_bytes = U256::from_u64(j as u64).to_be_bytes();
            call_data(
                EXCHANGE_USE_ETH,
                encode_flag_exchange(&i_bytes, &j_bytes, &dx_bytes, &min_bytes, use_eth),
            )
        },
        CurveInterface::CryptoU256Receiver => {
            let i_bytes = U256::from_u64(i as u64).to_be_bytes();
            let j_bytes = U256::from_u64(j as u64).to_be_bytes();
            call_data(
                EXCHANGE_RECEIVER,
                encode_receiver_exchange(
                    &i_bytes,
                    &j_bytes,
                    &dx_bytes,
                    &min_bytes,
                    &r.recipient.to_bytes(),
                ),
            )
        },
    }
}

impl Sealed for CurvePool {

}

impl Executable for CurvePool {
    open spec fn exact_in_outcome(
        &self,
        ctx: ChainConfig,
        amount_in: CurrencyAmount,
        to: Currency,
        route: RouteView,
        quoted_out: AssetAmount,
        limit_x96: Result<U256, QuoteError>,
        opts: OptionsView,
    ) -> Result<SwapView, BuildError> {
        let any_native = amount_in.currency is Native || to is Native;
        let min = promised(opts.slippage, quoted_out, to, ctx.weth);
        if opts.price_limit is Some {
            Err(BuildError::UnsupportedProtocol)
        } else if any_native && self.interface != Some(CurveInterface::CryptoU256UseEth) {
            Err(BuildError::UnsupportedProtocol)
        } else {
            match resolved_pair(self.assets@, ctx.weth, amount_in.currency, to, opts) {
                Err(e) => Err(e),
                Ok(r) => match (self.pool_address, self.interface) {
                    (Some(pool), Some(interface)) => {
                        let (i, j) = self.indices(r.input, r.output)->0;
                        Ok(
                            assembled(
                                ctx,
                                pool,
                                exchange_call(interface, i, j, amount_in.raw, min.raw, r),
                                attached(r.native_in, amount_in.raw),
                                min,
                                None,
                                required_allowance(r.native_in, pool, r.input, amount_in.raw),
                            ),
                        )
                    },
                    _ => Err(BuildError::UnsupportedProtocol),
                },
            }
        }
    }

    open spec fn exact_out_outcome(
        &self,
        ctx: ChainConfig,
        amount_out: CurrencyAmount,
        from: Currency,
        route: RouteView,
        quoted_in: AssetAmount,
        limit_x96: Result<U256, QuoteError>,
        opts: OptionsView,
    ) -> Result<SwapView, BuildError> {
        Err(BuildError::UnsupportedProtocol)
    }

    fn sealed(&self, by: &dyn Sealed) {
    }

    /// The route is not read: a single pool is always a route of two assets.
    fn build_swap(
        &self,
        ctx: &ChainConfig,
        amount_in: CurrencyAmount,
        to: Currency,
        route: &Route,
        quoted_out: &AssetAmount,
        limit_x96: Result<U256, QuoteError>,
        opts: &ExecutionOptions,
    ) -> (r: Result<PreparedSwap, BuildError>) {
        // The pool has no price bound to pass on.
        if opts.price_limit.is_some() {
            return Err(BuildError::UnsupportedProtocol);
        }
        // Only one entrypoint takes or pays native ETH.
        let takes_eth = match self.interface {
            Some(CurveInterface::CryptoU256UseEth) => true,
            _ => false,
        };
        if (amount_in.currency.is_native() || to.is_native()) && !takes_eth {
            return Err(BuildError::UnsupportedProtocol);
        }
        let r = resolve_pair(self.assets.as_slice(), ctx.weth, amount_in.currency, to, opts)?;
        let pool = match self.pool_address {
            Some(a) => a,
            None => return Err(BuildError::UnsupportedProtocol),
        };
        let (i, j) = match self.coin_indices(&r.input, &r.output) {
            Some(ij) => ij,
            None => return Err(BuildError::AssetNotInPool { input: r.input, output: r.output }),
        };
        let min = promise(&opts.slippage, quoted_out, to, ctx.weth);
        let data = match self.interface {
            Some(interface) => encode_exchange(interface, i, j, amount_in.raw, min.raw, &r),
            None => return Err(BuildError::UnsupportedProtocol),
        };
        let (value, approval) = payment(r.native_in, pool, r.input, amount_in.raw);
        Ok(prepared(ctx, pool, data, value, min, None, approval))
    }

    fn build_swap_exact_out(
        &self,
        ctx: &ChainConfig,
        amount_out: CurrencyAmount,
        from: Currency,
        route: &Route,
        quoted_in: &AssetAmount,
        limit_x96: Result<U256, QuoteError>,
        opts: &ExecutionOptions,
    ) -> (r: Result<PreparedSwap, BuildError>) {
        Err(BuildError::UnsupportedProtocol)
    }
}

} // verus!
