//! What every encoder does before and after its own call: resolving the two
//! sides, the recipient, the deadline and the price limit, and assembling the
//! result.
use crate::asset::{AssetAmount, AssetId, QuoteError};
use crate::execution::config::ChainConfig;
use crate::execution::error::BuildError;
use crate::execution::options::{Deadline, ExecutionOptions, OptionsView, Recipient};
use crate::execution::prepared::{ApprovalRequirement, PreparedSwap, Route, RouteView, SwapView};
use crate::execution::types::{Currency, TradeType, UnsignedTx};
use crate::pools::index_of;
use crate::primitives::{two_160, Address, U256};
use crate::slippage::Slippage;
use vstd::prelude::*;

verus! {

/// The rightmost 20 bytes of an asset's token slot.
pub fn evm_addr(a: &AssetId) -> (r: Address)
    ensures
        r == a.address(),
        r.value() == a.token.value() % two_160(),
{
    Address::from_word(a.token)
}

/// The address a recipient stands for, unless it is still the placeholder.
pub open spec fn recipient_of(r: Recipient) -> Result<Address, BuildError> {
    match r {
        Recipient::To(a) => Ok(a),
        Recipient::Sender => Err(BuildError::UnresolvedRecipient),
    }
}

/// The address a recipient stands for, unless it is still the placeholder.
pub fn resolve_recipient(r: &Recipient) -> (a: Result<Address, BuildError>)
    ensures
        a == recipient_of(*r),
{
    match r {
        Recipient::To(a) => Ok(*a),
        Recipient::Sender => Err(BuildError::UnresolvedRecipient),
    }
}

/// The timestamp of a deadline, where it has one. A block number is none.
pub open spec fn deadline_of(d: Deadline) -> Result<U256, BuildError> {
    match d {
        Deadline::AtTimestamp(t) => Ok(U256::of(t as nat)),
        _ => Err(BuildError::UnresolvedDeadline),
    }
}

/// The timestamp of a deadline, where it has one. A block number is none.
pub fn resolve_deadline(d: &Deadline) -> (t: Result<U256, BuildError>)
    ensures
        t == deadline_of(*d),
        d matches Deadline::AtTimestamp(s) ==> t matches Ok(u) && u.value() == s,
{
    match d {
        Deadline::AtTimestamp(t) => Ok(U256::from_u64(*t)),
        Deadline::FromNow(_) => Err(BuildError::UnresolvedDeadline),
        Deadline::AtBlock(_) => Err(BuildError::UnresolvedDeadline),
    }
}

/// The checked inputs of a single-hop swap.
#[derive(Clone, Copy, Debug, PartialEq, Eq, Structural)]
pub struct ResolvedSwap {
    pub input: AssetId,
    pub output: AssetId,
    pub recipient: Address,
    pub deadline: U256,
    pub native_in: bool,
    pub native_out: bool,
}

/// The two sides of a swap on a pool with these assets, where the native token
/// is traded as `native_asset`: refused when both sides are native, when the
/// pool does not trade the two for one another, and when the recipient or the
/// deadline is not absolute, in this order.
pub open spec fn resolved_pair(
    assets: Seq<AssetId>,
    native_asset: AssetId,
    in_currency: Currency,
    out_currency: Currency,
    opts: OptionsView,
) -> Result<ResolvedSwap, BuildError> {
    let input = in_currency.resolved(native_asset);
    let output = out_currency.resolved(native_asset);
    if in_currency is Native && out_currency is Native {
        Err(BuildError::NativeMismatch)
    } else if !assets.contains(input) || !assets.contains(output) || input == output {
        Err(BuildError::AssetNotInPool { input, output })
    } else {
        match recipient_of(opts.recipient) {
            Err(e) => Err(e),
            Ok(recipient) => match deadline_of(opts.deadline) {
                Err(e) => Err(e),
                Ok(deadline) => Ok(
                    ResolvedSwap {
                        input,
                        output,
                        recipient,
                        deadline,
                        native_in: in_currency is Native,
                        native_out: out_currency is Native,
                    },
                ),
            },
        }
    }
}

/// [`resolved_pair`] behind a check that the route fixes the expected side.
pub open spec fn resolved_swap(
    assets: Seq<AssetId>,
    native_asset: AssetId,
    in_currency: Currency,
    out_currency: Currency,
    route: RouteView,
    opts: OptionsView,
    expected: TradeType,
) -> Result<ResolvedSwap, BuildError> {
    if route.trade_type != expected {
        Err(BuildError::UnsupportedProtocol)
    } else {
        resolved_pair(assets, native_asset, in_currency, out_currency, opts)
    }
}

/// Checks and resolves the two sides of a swap on a pool with these assets.
pub fn resolve_pair(
    assets: &[AssetId],
    native_asset: AssetId,
    in_currency: Currency,
    out_currency: Currency,
    opts: &ExecutionOptions,
) -> (r: Result<ResolvedSwap, BuildError>)
    ensures
        r == resolved_pair(assets@, native_asset, in_currency, out_currency, opts@),
{
    let native_in = in_currency.is_native();
    let native_out = out_currency.is_native();
    if native_in && native_out {
        return Err(BuildError::NativeMismatch);
    }
    let input = in_currency.resolve(native_asset);
    let output = out_currency.resolve(native_asset);
    let has_input = contains(assets, &input);
    let has_output = contains(assets, &output);
    if !has_input || !has_output || input == output {
        return Err(BuildError::AssetNotInPool { input, output });
    }
    let recipient = resolve_recipient(&opts.recipient)?;
    let deadline = resolve_deadline(&opts.deadline)?;
    Ok(ResolvedSwap { input, output, recipient, deadline, native_in, native_out })
}

/// Whether an asset is among these.
pub fn contains(assets: &[AssetId], a: &AssetId) -> (r: bool)
    ensures
        r == assets@.contains(*a),
{
    match index_of(assets, a) {
        Some(i) => {
            assert(assets@[i as int] == *a);
            true
        },
        None => false,
    }
}

/// Checks that the route fixes the expected side, then resolves the two sides.
pub fn resolve_swap_with(
    assets: &[AssetId],
    in_currency: Currency,
    out_currency: Currency,
    route: &Route,
    opts: &ExecutionOptions,
    expected: TradeType,
    native_asset: AssetId,
) -> (r: Result<ResolvedSwap, BuildError>)
    ensures
        r == resolved_swap(
            assets@,
            native_asset,
            in_currency,
            out_currency,
            route@,
            opts@,
            expected,
        ),
{
    if route.trade_type != expected {
        return Err(BuildError::UnsupportedProtocol);
    }
    resolve_pair(assets, native_asset, in_currency, out_currency, opts)
}

/// [`resolve_swap_with`] the wrapped native token standing for the native one.
pub fn resolve_swap(
    ctx: &ChainConfig,
    assets: &[AssetId],
    in_currency: Currency,
    out_currency: Currency,
    route: &Route,
    opts: &ExecutionOptions,
    expected: TradeType,
) -> (r: Result<ResolvedSwap, BuildError>)
    ensures
        r == resolved_swap(
            assets@,
            ctx.weth,
            in_currency,
            out_currency,
            route@,
            opts@,
            expected,
        ),
{
    resolve_swap_with(assets, in_currency, out_currency, route, opts, expected, ctx.weth)
}

/// What a refusal of the price converter means for the build.
pub open spec fn price_limit_error(e: QuoteError) -> BuildError {
    match e {
        QuoteError::AssetNotInPool { input, output } => BuildError::AssetNotInPool {
            input,
            output,
        },
        _ => BuildError::Overflow,
    }
}

/// What a refusal of the price converter means for the build.
pub fn map_price_limit_err(e: QuoteError) -> (r: BuildError)
    ensures
        r == price_limit_error(e),
{
    match e {
        QuoteError::AssetNotInPool { input, output } => BuildError::AssetNotInPool {
            input,
            output,
        },
        _ => BuildError::Overflow,
    }
}

/// The square-root price limit of a swap: zero without a price limit. With one,
/// `limit_x96` is what the price converter made of it for the pool's pair; only
/// a route of two assets may carry it, and it has to fit 160 bits.
pub open spec fn sqrt_limit(
    has_limit: bool,
    limit_x96: Result<U256, QuoteError>,
    hops: nat,
) -> Result<U256, BuildError> {
    if !has_limit {
        Ok(U256::zero())
    } else if hops != 2 {
        Err(BuildError::UnsupportedProtocol)
    } else {
        match limit_x96 {
            Err(e) => Err(price_limit_error(e)),
            Ok(raw) => if raw.value() < two_160() {
                Ok(raw)
            } else {
                Err(BuildError::Overflow)
            },
        }
    }
}

/// The square-root price limit of a swap on a route of `hops` assets, from what
/// the price converter made of the price limit.
pub fn resolve_sqrt_limit(
    has_limit: bool,
    limit_x96: Result<U256, QuoteError>,
    hops: usize,
) -> (r: Result<U256, BuildError>)
    ensures
        r == sqrt_limit(has_limit, limit_x96, hops as nat),
        r matches Ok(x) ==> x.value() < two_160(),
{
    if !has_limit {
        return Ok(U256::zero());
    }
    if hops != 2 {
        return Err(BuildError::UnsupportedProtocol);
    }
    match limit_x96 {
        Err(e) => Err(map_price_limit_err(e)),
        Ok(raw) => {
            if raw.fits_160() {
                Ok(raw)
            } else {
                Err(BuildError::Overflow)
            }
        },
    }
}

/// The allowance a token input needs.
pub open spec fn allowance(
    spender: Address,
    token: AssetId,
    min_allowance: U256,
) -> ApprovalRequirement {
    ApprovalRequirement { spender, token, min_allowance, reset_first: false }
}

/// The allowance a token input needs.
pub fn erc20_approval(spender: Address, token: AssetId, min_allowance: U256) -> (r:
    ApprovalRequirement)
    ensures
        r == allowance(spender, token, min_allowance),
{
    ApprovalRequirement { spender, token, min_allowance, reset_first: false }
}

/// The ETH attached for an input: the amount when it is native, else none.
pub open spec fn attached(native_in: bool, amount: U256) -> U256 {
    if native_in {
        amount
    } else {
        U256::zero()
    }
}

/// The allowance for an input: none when it is native, else the amount.
pub open spec fn required_allowance(
    native_in: bool,
    spender: Address,
    token: AssetId,
    amount: U256,
) -> Option<ApprovalRequirement> {
    if native_in {
        None
    } else {
        Some(allowance(spender, token, amount))
    }
}

/// The two ways an input is paid: attached as ETH, or drawn under an allowance.
pub fn payment(native_in: bool, spender: Address, token: AssetId, amount: U256) -> (r: (
    U256,
    Option<ApprovalRequirement>,
))
    ensures
        r.0 == attached(native_in, amount),
        r.1 == required_allowance(native_in, spender, token, amount),
{
    if native_in {
        (amount, None)
    } else {
        (U256::zero(), Some(erc20_approval(spender, token, amount)))
    }
}

/// What an exact-in swap promises: the floor of its quote, in the quoted asset,
/// or in the wrapped token where the output is native.
pub open spec fn promised(
    slippage: Slippage,
    quoted: AssetAmount,
    to: Currency,
    wrapped: AssetId,
) -> AssetAmount {
    AssetAmount {
        asset: if to is Native {
            wrapped
        } else {
            quoted.asset
        },
        raw: slippage.min_out(quoted).raw,
    }
}

/// What an exact-in swap promises: the floor of its quote, in the quoted asset,
/// or in the wrapped token where the output is native.
pub fn promise(slippage: &Slippage, quoted: &AssetAmount, to: Currency, wrapped: AssetId) -> (r:
    AssetAmount)
    ensures
        r == promised(*slippage, *quoted, to, wrapped),
{
    let floor = slippage.min_amount_out(quoted);
    if to.is_native() {
        AssetAmount::new(wrapped, floor.raw)
    } else {
        floor
    }
}

/// A swap without a price impact estimate.
pub open spec fn assembled(
    ctx: ChainConfig,
    to: Address,
    data: Seq<u8>,
    value: U256,
    min_received: AssetAmount,
    max_spent: Option<AssetAmount>,
    approval: Option<ApprovalRequirement>,
) -> SwapView {
    SwapView {
        chain: ctx.chain,
        to,
        data,
        value,
        min_received,
        max_spent,
        approval,
        price_impact: None,
    }
}

/// A swap without a price impact estimate.
pub fn prepared(
    ctx: &ChainConfig,
    router: Address,
    data: Vec<u8>,
    value: U256,
    min_received: AssetAmount,
    max_spent: Option<AssetAmount>,
    approval: Option<ApprovalRequirement>,
) -> (r: PreparedSwap)
    ensures
        r@ == assembled(*ctx, router, data@, value, min_received, max_spent, approval),
{
    PreparedSwap {
        tx: UnsignedTx { chain: ctx.chain, to: router, data, value },
        min_received,
        max_spent,
        approval,
        price_impact: None,
    }
}

} // verus!
