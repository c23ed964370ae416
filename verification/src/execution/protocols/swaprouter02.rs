//! The driver of the SwapRouter02 family: one concentrated-liquidity swap, the
//! native-ETH helpers around it, and the multicall that carries them.
//!
//! The members differ in the parameters of the swap call and in where the
//! deadline goes; each supplies both through [`SwapRouter02`].
use crate::abi::{address_slot, byte_views, call_data, encode_amount_address, layout, uint_slot};
use crate::asset::{AssetAmount, AssetId, QuoteError};
use crate::execution::config::ChainConfig;
use crate::execution::error::BuildError;
use crate::execution::multicall::{encode_multicall, multicall_data};
use crate::execution::options::{ExecutionOptions, OptionsView};
use crate::execution::prepared::{outcome, PreparedSwap, SwapView};
use crate::execution::protocols::common::{
    assembled, attached, evm_addr, payment, prepared, promise, promised, required_allowance,
    resolve_pair, resolve_sqrt_limit, resolved_pair, sqrt_limit, ResolvedSwap,
};
use crate::execution::types::{Currency, CurrencyAmount, TradeType};
use crate::primitives::{be_bytes, limb_base, two_160, Address, U256};
use vstd::prelude::*;

verus! {

/// Selector of `unwrapWETH9(uint256,address)`.
pub const UNWRAP_WETH9: u32 = 0x49404b7c;

/// Selector of `refundETH()`.
pub const REFUND_ETH: u32 = 0x12210e8a;

/// The parameters of one swap call, before a member encodes them.
#[derive(Clone, Copy, Debug, PartialEq, Eq, Structural)]
pub struct SingleParams {
    pub token_in: Address,
    pub token_out: Address,
    pub recipient: Address,
    /// The fixed side.
    pub amount: U256,
    /// The least output of an exact-in swap, the most input of an exact-out one.
    pub limit_amount: U256,
    /// The square-root price limit, below 160 bits.
    pub sqrt_limit: U256,
    /// For members whose call carries the deadline.
    pub deadline: U256,
}

/// What sets the members of the family apart.
pub trait SwapRouter02 {
    /// What [`SwapRouter02::router`] returns.
    spec fn router_of(&self, ctx: ChainConfig) -> Result<Address, BuildError>;

    /// What [`SwapRouter02::encode_exact_in`] and
    /// [`SwapRouter02::encode_exact_out`] return.
    spec fn single_call(&self, trade: TradeType, p: SingleParams) -> Result<Seq<u8>, BuildError>;

    /// What [`SwapRouter02::deadline_in_multicall`] returns.
    spec fn multicall_carries_deadline(&self) -> bool;

    /// What [`SwapRouter02::custody_recipient`] returns.
    spec fn custody_of(&self, router: Address) -> Address;

    /// The router of this member.
    fn router(&self, ctx: &ChainConfig) -> (r: Result<Address, BuildError>)
        ensures
            r == self.router_of(*ctx),
    ;

    /// The `exactInputSingle` call.
    fn encode_exact_in(&self, p: &SingleParams) -> (r: Result<Vec<u8>, BuildError>)
        requires
            p.sqrt_limit.value() < two_160(),
        ensures
            match r {
                Ok(d) => self.single_call(TradeType::ExactIn, *p) == Ok::<Seq<u8>, BuildError>(d@),
                Err(e) => self.single_call(TradeType::ExactIn, *p) == Err::<Seq<u8>, BuildError>(
                    e,
                ),
            },
    ;

    /// The `exactOutputSingle` call.
    fn encode_exact_out(&self, p: &SingleParams) -> (r: Result<Vec<u8>, BuildError>)
        requires
            p.sqrt_limit.value() < two_160(),
        ensures
            match r {
                Ok(d) => self.single_call(TradeType::ExactOut, *p) == Ok::<Seq<u8>, BuildError>(d@),
                Err(e) => self.single_call(TradeType::ExactOut, *p) == Err::<Seq<u8>, BuildError>(
                    e,
                ),
            },
    ;

    /// Whether the multicall carries the deadline, rather than the swap call.
    fn deadline_in_multicall(&self) -> (r: bool)
        ensures
            r == self.multicall_carries_deadline(),
    ;

    /// The recipient that keeps the output in the router, so that an
    /// `unwrapWETH9` behind the swap can forward it.
    fn custody_recipient(&self, router: Address) -> (r: Address)
        ensures
            r == self.custody_of(router),
    ;
}

/// The `unwrapWETH9` call: at least `amount_minimum`, to `recipient` as ETH.
pub open spec fn unwrap_call(amount_minimum: U256, recipient: Address) -> Seq<u8> {
    be_bytes(UNWRAP_WETH9 as nat, 4) + layout(
        seq![uint_slot(amount_minimum), address_slot(recipient)],
    )
}

/// The `refundETH` call: what the swap left of the attached ETH, to the sender.
pub open spec fn refund_call() -> Seq<u8> {
    be_bytes(REFUND_ETH as nat, 4)
}

fn encode_unwrap(amount_minimum: U256, recipient: Address) -> (r: Vec<u8>)
    ensures
        r@ == unwrap_call(amount_minimum, recipient),
{
    call_data(
        UNWRAP_WETH9,
        encode_amount_address(&amount_minimum.to_be_bytes(), &recipient.to_bytes()),
    )
}

fn encode_refund() -> (r: Vec<u8>)
    ensures
        r@ == refund_call(),
{
    let d = call_data(REFUND_ETH, Vec::new());
    assert(d@ =~= refund_call());
    d
}

/// The calls of a swap in the member's multicall.
pub open spec fn wrapped_calls<E: SwapRouter02>(
    enc: &E,
    deadline: U256,
    calls: Seq<Seq<u8>>,
) -> Result<Seq<u8>, BuildError> {
    if !enc.multicall_carries_deadline() {
        Ok(multicall_data(None, calls))
    } else if deadline.value() < limb_base() {
        Ok(multicall_data(Some(deadline.value() as u64), calls))
    } else {
        Err(BuildError::Overflow)
    }
}

/// Puts the calls of a swap in the member's multicall.
fn wrap<E: SwapRouter02>(enc: &E, deadline: U256, calls: Vec<Vec<u8>>) -> (r: Result<
    Vec<u8>,
    BuildError,
>)
    ensures
        match r {
            Ok(d) => wrapped_calls(enc, deadline, byte_views(calls@)) == Ok::<Seq<u8>, BuildError>(
                d@,
            ),
            Err(e) => wrapped_calls(enc, deadline, byte_views(calls@)) == Err::<
                Seq<u8>,
                BuildError,
            >(e),
        },
{
    if enc.deadline_in_multicall() {
        match deadline.to_u64() {
            Some(secs) => Ok(encode_multicall(Some(secs), calls)),
            None => Err(BuildError::Overflow),
        }
    } else {
        Ok(encode_multicall(None, calls))
    }
}

/// The parameters of the swap call: native output goes to the router first.
pub open spec fn single_params<E: SwapRouter02>(
    enc: &E,
    router: Address,
    r: ResolvedSwap,
    amount: U256,
    limit_amount: U256,
    sqrt_limit: U256,
) -> SingleParams {
    SingleParams {
        token_in: r.input.address(),
        token_out: r.output.address(),
        recipient: if r.native_out {
            enc.custody_of(router)
        } else {
            r.recipient
        },
        amount,
        limit_amount,
        sqrt_limit,
        deadline: r.deadline,
    }
}

fn params_of<E: SwapRouter02>(
    enc: &E,
    router: Address,
    r: &ResolvedSwap,
    amount: U256,
    limit_amount: U256,
    sqrt_limit: U256,
) -> (p: SingleParams)
    ensures
        p == single_params(enc, router, *r, amount, limit_amount, sqrt_limit),
{
    SingleParams {
        token_in: evm_addr(&r.input),
        token_out: evm_addr(&r.output),
        recipient: if r.native_out {
            enc.custody_recipient(router)
        } else {
            r.recipient
        },
        amount,
        limit_amount,
        sqrt_limit,
        deadline: r.deadline,
    }
}

/// An exact-in swap of the family, on a route of `hops` assets.
pub open spec fn family_exact_in<E: SwapRouter02>(
    enc: &E,
    assets: Seq<AssetId>,
    ctx: ChainConfig,
    amount_in: CurrencyAmount,
    to: Currency,
    hops: nat,
    quoted_out: AssetAmount,
    limit_x96: Result<U256, QuoteError>,
    opts: OptionsView,
) -> Result<SwapView, BuildError> {
    let min = promised(opts.slippage, quoted_out, to, ctx.weth);
    match resolved_pair(assets, ctx.weth, amount_in.currency, to, opts) {
        Err(e) => Err(e),
        Ok(r) => match sqrt_limit(opts.price_limit is Some, limit_x96, hops) {
            Err(e) => Err(e),
            Ok(sqrt) => match enc.router_of(ctx) {
                Err(e) => Err(e),
                Ok(router) => match enc.single_call(
                    TradeType::ExactIn,
                    single_params(enc, router, r, amount_in.raw, min.raw, sqrt),
                ) {
                    Err(e) => Err(e),
                    Ok(swap) => match wrapped_calls(
                        enc,
                        r.deadline,
                        if r.native_out {
                            seq![swap, unwrap_call(min.raw, r.recipient)]
                        } else {
                            seq![swap]
                        },
                    ) {
                        Err(e) => Err(e),
                        Ok(data) => Ok(
                            assembled(
                                ctx,
                                router,
                                data,
                                attached(r.native_in, amount_in.raw),
                                min,
                                None,
                                required_allowance(r.native_in, router, r.input, amount_in.raw),
                            ),
                        ),
                    },
                },
            },
        },
    }
}

/// An exact-out swap of the family, on a route of `hops` assets.
pub open spec fn family_exact_out<E: SwapRouter02>(
    enc: &E,
    assets: Seq<AssetId>,
    ctx: ChainConfig,
    amount_out: CurrencyAmount,
    from: Currency,
    hops: nat,
    quoted_in: AssetAmount,
    limit_x96: Result<U256, QuoteError>,
    opts: OptionsView,
) -> Result<SwapView, BuildError> {
    let max = opts.slippage.max_in(quoted_in).raw;
    match resolved_pair(assets, ctx.weth, from, amount_out.currency, opts) {
        Err(e) => Err(e),
        Ok(r) => match sqrt_limit(opts.price_limit is Some, limit_x96, hops) {
            Err(e) => Err(e),
            Ok(sqrt) => match enc.router_of(ctx) {
                Err(e) => Err(e),
                Ok(router) => match enc.single_call(
                    TradeType::ExactOut,
                    single_params(enc, router, r, amount_out.raw, max, sqrt),
                ) {
                    Err(e) => Err(e),
                    Ok(swap) => match wrapped_calls(
                        enc,
                        r.deadline,
                        if r.native_in {
                            seq![swap, refund_call()]
                        } else if r.native_out {
                            seq![swap, unwrap_call(amount_out.raw, r.recipient)]
                        } else {
                            seq![swap]
                        },
                    ) {
                        Err(e) => Err(e),
                        Ok(data) => Ok(
                            assembled(
                                ctx,
                                router,
                                data,
                                attached(r.native_in, max),
                                AssetAmount { asset: r.output, raw: amount_out.raw },
                                Some(AssetAmount { asset: r.input, raw: max }),
                                required_allowance(r.native_in, router, r.input, max),
                            ),
                        ),
                    },
                },
            },
        },
    }
}

/// Builds an exact-in swap of the family.
pub fn build_exact_in<E: SwapRouter02>(
    enc: &E,
    assets: &[AssetId],
    ctx: &ChainConfig,
    amount_in: CurrencyAmount,
    to: Currency,
    hops: usize,
    quoted_out: &AssetAmount,
    limit_x96: Result<U256, QuoteError>,
    opts: &ExecutionOptions,
) -> (r: Result<PreparedSwap, BuildError>)
    ensures
        outcome(r) == family_exact_in(
            enc,
            assets@,
            *ctx,
            amount_in,
            to,
            hops as nat,
            *quoted_out,
            limit_x96,
            opts@,
        ),
{
    let r = resolve_pair(assets, ctx.weth, amount_in.currency, to, opts)?;
    let sqrt = resolve_sqrt_limit(opts.price_limit.is_some(), limit_x96, hops)?;
    let min = promise(&opts.slippage, quoted_out, to, ctx.weth);
    let router = enc.router(ctx)?;
    let p = params_of(enc, router, &r, amount_in.raw, min.raw, sqrt);
    let swap = enc.encode_exact_in(&p)?;
    let calls: Vec<Vec<u8>> = if r.native_out {
        let unwrap = encode_unwrap(min.raw, r.recipient);
        let ghost expected = seq![swap@, unwrap@];
        let calls: Vec<Vec<u8>> = vec![swap, unwrap];
        assert(byte_views(calls@) =~= expected);
        calls
    } else {
        let ghost expected = seq![swap@];
        let calls: Vec<Vec<u8>> = vec![swap];
        assert(byte_views(calls@) =~= expected);
        calls
    };
    let data = wrap(enc, r.deadline, calls)?;
    let (value, approval) = payment(r.native_in, router, r.input, amount_in.raw);
    Ok(prepared(ctx, router, data, value, min, None, approval))
}

/// Builds an exact-out swap of the family.
pub fn build_exact_out<E: SwapRouter02>(
    enc: &E,
    assets: &[AssetId],
    ctx: &ChainConfig,
    amount_out: CurrencyAmount,
    from: Currency,
    hops: usize,
    quoted_in: &AssetAmount,
    limit_x96: Result<U256, QuoteError>,
    opts: &ExecutionOptions,
) -> (r: Result<PreparedSwap, BuildError>)
    ensures
        outcome(r) == family_exact_out(
            enc,
            assets@,
            *ctx,
            amount_out,
            from,
            hops as nat,
            *quoted_in,
            limit_x96,
            opts@,
        ),
{
    let r = resolve_pair(assets, ctx.weth, from, amount_out.currency, opts)?;
    let sqrt = resolve_sqrt_limit(opts.price_limit.is_some(), limit_x96, hops)?;
    let max = opts.slippage.max_amount_in(quoted_in).raw;
    let router = enc.router(ctx)?;
    let p = params_of(enc, router, &r, amount_out.raw, max, sqrt);
    let swap = enc.encode_exact_out(&p)?;
    let calls: Vec<Vec<u8>> = if r.native_in {
        let refund = encode_refund();
        let ghost expected = seq![swap@, refund@];
        let calls: Vec<Vec<u8>> = vec![swap, refund];
        assert(byte_views(calls@) =~= expected);
        calls
    } else if r.native_out {
        let unwrap = encode_unwrap(amount_out.raw, r.recipient);
        let ghost expected = seq![swap@, unwrap@];
        let calls: Vec<Vec<u8>> = vec![swap, unwrap];
        assert(byte_views(calls@) =~= expected);
        calls
    } else {
        let ghost expected = seq![swap@];
        let calls: Vec<Vec<u8>> = vec![swap];
        assert(byte_views(calls@) =~= expected);
        calls
    };
    let data = wrap(enc, r.deadline, calls)?;
    let (value, approval) = payment(r.native_in, router, r.input, max);
    Ok(
        prepared(
            ctx,
            router,
            data,
            value,
            AssetAmount::new(r.output, amount_out.raw),
            Some(AssetAmount::new(r.input, max)),
            approval,
        ),
    )
}

} // verus!
