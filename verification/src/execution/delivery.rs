//! Where the output of a built swap goes: what stands in the calldata, at the
//! place that the called contract reads the payee from.
use crate::abi::{
    address_list_tail, address_slot, address_word, bytes_list_tail, bytes_tail, heads, int_word,
    layout, static_list_tail, tails, uint_slot, word, Slot,
};
use crate::asset::{AssetAmount, QuoteError};
use crate::execution::config::ChainConfig;
use crate::execution::error::BuildError;
use crate::execution::executable::Executable;
use crate::execution::multicall::{multicall_data, multicall_reads_back};
use crate::execution::options::{OptionsView, Recipient};
use crate::execution::prepared::{RouteView, SwapView};
use crate::execution::protocols::common::{
    resolved_pair, resolved_swap, sqrt_limit, ResolvedSwap,
};
use crate::execution::protocols::swaprouter02::{
    refund_call, single_params, unwrap_call, SingleParams, SwapRouter02, UNWRAP_WETH9,
};
use crate::execution::protocols::{aerodrome, curve, slipstream, uniswap_v2, uniswap_v3, uniswap_v4};
use crate::execution::route_planner::{
    address_this, address_views, execute_data, execute_reads_back,
};
use crate::execution::types::{Currency, CurrencyAmount, TradeType};
use crate::pools::{
    AerodromeSlipstreamPool, AerodromeStablePool, AerodromeVolatilePool, CurveInterface, CurvePool,
    UniswapV2Pool, UniswapV3Pool, UniswapV4Pool,
};
use crate::primitives::{be_bytes, two_256, Address, U256};
use crate::reading::{
    arguments, bytes_list_reads_back, lemma_lengths, lemma_parts_are_shorter, lemma_whole,
    one_word_each, read_bytes_list, read_word, word_reads_back,
};
use vstd::prelude::*;

verus! {

/// Whether argument `place` of a call is this address.
pub open spec fn names(call: Seq<u8>, place: int, a: Address) -> bool {
    read_word(arguments(call), place) == address_word(a.bytes())
}

/// Argument `place` of a call with these arguments, where it is an address.
proof fn lemma_names(selector: u32, slots: Seq<Slot>, place: int, a: Address)
    requires
        one_word_each(slots),
        layout(slots).len() + 4 < two_256(),
        0 <= place < slots.len(),
        slots[place] == address_slot(a),
    ensures
        names(be_bytes(selector as nat, 4) + layout(slots), place, a),
{
    lemma_lengths();
    assert(arguments(be_bytes(selector as nat, 4) + layout(slots)) =~= layout(slots));
    lemma_whole(slots);
    word_reads_back(layout(slots), slots, place);
}

/// Argument `i` of a call along a path or legs, counted from the end of the
/// amounts: the list, the payee, the deadline.
proof fn lemma_list_call(selector: u32, amounts: Seq<U256>, list: Slot, r: ResolvedSwap)
    requires
        list is Tail,
        layout(
            amounts.map_values(|a: U256| uint_slot(a)) + seq![
                list,
                address_slot(r.recipient),
                uint_slot(r.deadline),
            ],
        ).len() + 4 < two_256(),
    ensures
        names(
            be_bytes(selector as nat, 4) + layout(
                amounts.map_values(|a: U256| uint_slot(a)) + seq![
                    list,
                    address_slot(r.recipient),
                    uint_slot(r.deadline),
                ],
            ),
            amounts.len() as int + 1,
            r.recipient,
        ),
{
    lemma_lengths();
    let slots = amounts.map_values(|a: U256| uint_slot(a)) + seq![
        list,
        address_slot(r.recipient),
        uint_slot(r.deadline),
    ];
    assert(one_word_each(slots));
    lemma_names(selector, slots, amounts.len() as int + 1, r.recipient);
}

/// A Uniswap V2 exact-in swap names the recipient behind its path: argument two
/// where the input is attached, argument three where it is drawn.
pub proof fn v2_exact_in_pays_the_recipient(
    pool: UniswapV2Pool,
    ctx: ChainConfig,
    amount: CurrencyAmount,
    other: Currency,
    route: RouteView,
    quoted: AssetAmount,
    limit_x96: Result<U256, QuoteError>,
    opts: OptionsView,
    a: Address,
    v: SwapView,
)
    requires
        opts.recipient == Recipient::To(a),
        pool.exact_in_outcome(ctx, amount, other, route, quoted, limit_x96, opts) == Ok::<
            SwapView,
            BuildError,
        >(v),
        v.data.len() < two_256(),
    ensures
        names(
            v.data,
            if amount.currency is Native {
                2
            } else {
                3
            },
            a,
        ),
{
    lemma_lengths();
    let r = resolved_swap(
        pool.assets@,
        ctx.weth,
        amount.currency,
        other,
        route,
        opts,
        TradeType::ExactIn,
    )->Ok_0;
    let min = opts.slippage.min_out(quoted).raw;
    let path = Slot::Tail(
        address_list_tail(address_views(seq![r.input.address(), r.output.address()])),
    );
    if r.native_in {
        lemma_list_call(uniswap_v2::SWAP_EXACT_ETH_FOR_TOKENS, seq![min], path, r);
    } else if r.native_out {
        lemma_list_call(uniswap_v2::SWAP_EXACT_TOKENS_FOR_ETH, seq![amount.raw, min], path, r);
    } else {
        lemma_list_call(uniswap_v2::SWAP_EXACT_TOKENS_FOR_TOKENS, seq![amount.raw, min], path, r);
    }
}

/// A Uniswap V2 exact-out swap names the recipient behind its path, as an
/// exact-in swap does.
pub proof fn v2_exact_out_pays_the_recipient(
    pool: UniswapV2Pool,
    ctx: ChainConfig,
    amount: CurrencyAmount,
    other: Currency,
    route: RouteView,
    quoted: AssetAmount,
    limit_x96: Result<U256, QuoteError>,
    opts: OptionsView,
    a: Address,
    v: SwapView,
)
    requires
        opts.recipient == Recipient::To(a),
        pool.exact_out_outcome(ctx, amount, other, route, quoted, limit_x96, opts) == Ok::<
            SwapView,
            BuildError,
        >(v),
        v.data.len() < two_256(),
    ensures
        names(
            v.data,
            if other is Native {
                2
            } else {
                3
            },
            a,
        ),
{
    lemma_lengths();
    let r = resolved_swap(
        pool.assets@,
        ctx.weth,
        other,
        amount.currency,
        route,
        opts,
        TradeType::ExactOut,
    )->Ok_0;
    let max = opts.slippage.max_in(quoted).raw;
    let path = Slot::Tail(
        address_list_tail(address_views(seq![r.input.address(), r.output.address()])),
    );
    if r.native_in {
        lemma_list_call(uniswap_v2::SWAP_ETH_FOR_EXACT_TOKENS, seq![amount.raw], path, r);
    } else if r.native_out {
        lemma_list_call(uniswap_v2::SWAP_TOKENS_FOR_EXACT_ETH, seq![amount.raw, max], path, r);
    } else {
        lemma_list_call(uniswap_v2::SWAP_TOKENS_FOR_EXACT_TOKENS, seq![amount.raw, max], path, r);
    }
}

/// An Aerodrome stable swap names the recipient behind its legs: argument two
/// where the input is attached, argument three where it is drawn.
pub proof fn stable_pays_the_recipient(
    pool: AerodromeStablePool,
    ctx: ChainConfig,
    amount: CurrencyAmount,
    other: Currency,
    route: RouteView,
    quoted: AssetAmount,
    limit_x96: Result<U256, QuoteError>,
    opts: OptionsView,
    a: Address,
    v: SwapView,
)
    requires
        opts.recipient == Recipient::To(a),
        pool.exact_in_outcome(ctx, amount, other, route, quoted, limit_x96, opts) == Ok::<
            SwapView,
            BuildError,
        >(v),
        v.data.len() < two_256(),
    ensures
        names(
            v.data,
            if amount.currency is Native {
                2
            } else {
                3
            },
            a,
        ),
{
    lemma_lengths();
    let r = resolved_swap(
        pool.assets@,
        ctx.weth,
        amount.currency,
        other,
        route,
        opts,
        TradeType::ExactIn,
    )->Ok_0;
    let min = opts.slippage.min_out(quoted).raw;
    let factory = ctx.routers.aerodrome_factory->0;
    let legs = Slot::Tail(static_list_tail(seq![aerodrome::leg(r, true, factory)]));
    if r.native_in {
        lemma_list_call(aerodrome::SWAP_EXACT_ETH_FOR_TOKENS, seq![min], legs, r);
    } else if r.native_out {
        lemma_list_call(aerodrome::SWAP_EXACT_TOKENS_FOR_ETH, seq![amount.raw, min], legs, r);
    } else {
        lemma_list_call(aerodrome::SWAP_EXACT_TOKENS_FOR_TOKENS, seq![amount.raw, min], legs, r);
    }
}

/// An Aerodrome volatile swap names the recipient behind its legs: argument two
/// where the input is attached, argument three where it is drawn.
pub proof fn volatile_pays_the_recipient(
    pool: AerodromeVolatilePool,
    ctx: ChainConfig,
    amount: CurrencyAmount,
    other: Currency,
    route: RouteView,
    quoted: AssetAmount,
    limit_x96: Result<U256, QuoteError>,
    opts: OptionsView,
    a: Address,
    v: SwapView,
)
    requires
        opts.recipient == Recipient::To(a),
        pool.exact_in_outcome(ctx, amount, other, route, quoted, limit_x96, opts) == Ok::<
            SwapView,
            BuildError,
        >(v),
        v.data.len() < two_256(),
    ensures
        names(
            v.data,
            if amount.currency is Native {
                2
            } else {
                3
            },
            a,
        ),
{
    lemma_lengths();
    let r = resolved_swap(
        pool.assets@,
        ctx.weth,
        amount.currency,
        other,
        route,
        opts,
        TradeType::ExactIn,
    )->Ok_0;
    let min = opts.slippage.min_out(quoted).raw;
    let factory = ctx.routers.aerodrome_factory->0;
    let legs = Slot::Tail(static_list_tail(seq![aerodrome::leg(r, false, factory)]));
    if r.native_in {
        lemma_list_call(aerodrome::SWAP_EXACT_ETH_FOR_TOKENS, seq![min], legs, r);
    } else if r.native_out {
        lemma_list_call(aerodrome::SWAP_EXACT_TOKENS_FOR_ETH, seq![amount.raw, min], legs, r);
    } else {
        lemma_list_call(aerodrome::SWAP_EXACT_TOKENS_FOR_TOKENS, seq![amount.raw, min], legs, r);
    }
}

/// A Curve swap through the receiver entrypoint names the recipient, in
/// argument four. The other entrypoints have no place for one.
pub proof fn curve_pays_the_recipient(
    pool: CurvePool,
    ctx: ChainConfig,
    amount: CurrencyAmount,
    other: Currency,
    route: RouteView,
    quoted: AssetAmount,
    limit_x96: Result<U256, QuoteError>,
    opts: OptionsView,
    a: Address,
    v: SwapView,
)
    requires
        opts.recipient == Recipient::To(a),
        pool.exact_in_outcome(ctx, amount, other, route, quoted, limit_x96, opts) == Ok::<
            SwapView,
            BuildError,
        >(v),
        v.data.len() < two_256(),
        pool.interface == Some(CurveInterface::CryptoU256Receiver),
    ensures
        names(v.data, 4, a),
{
    lemma_lengths();
    let r = resolved_pair(pool.assets@, ctx.weth, amount.currency, other, opts)->Ok_0;
    let (i, j) = pool.indices(r.input, r.output)->0;
    let min = opts.slippage.min_out(quoted).raw;
    let slots = seq![
        Slot::Word(word(i)),
        Slot::Word(word(j)),
        uint_slot(amount.raw),
        uint_slot(min),
        address_slot(a),
    ];
    assert(v.data == be_bytes(curve::EXCHANGE_RECEIVER as nat, 4) + layout(slots));
    lemma_names(curve::EXCHANGE_RECEIVER, slots, 4, a);
}

/// The payee of a V3 swap call is argument three.
proof fn lemma_fee_call(selector: u32, fee: u32, p: SingleParams)
    requires
        uniswap_v3::call_by_fee(selector, fee, p).len() < two_256(),
    ensures
        names(uniswap_v3::call_by_fee(selector, fee, p), 3, p.recipient),
{
    lemma_lengths();
    let slots = seq![
        address_slot(p.token_in),
        address_slot(p.token_out),
        Slot::Word(word(fee as nat)),
        address_slot(p.recipient),
        uint_slot(p.amount),
        uint_slot(p.limit_amount),
        uint_slot(p.sqrt_limit),
    ];
    lemma_names(selector, slots, 3, p.recipient);
}

/// The payee of a Slipstream swap call is argument three.
proof fn lemma_spacing_call(selector: u32, tick_spacing: i32, p: SingleParams)
    requires
        slipstream::call_by_spacing(selector, tick_spacing, p).len() < two_256(),
    ensures
        names(slipstream::call_by_spacing(selector, tick_spacing, p), 3, p.recipient),
{
    lemma_lengths();
    let slots = seq![
        address_slot(p.token_in),
        address_slot(p.token_out),
        Slot::Word(int_word(tick_spacing as int)),
        address_slot(p.recipient),
        uint_slot(p.deadline),
        uint_slot(p.amount),
        uint_slot(p.limit_amount),
        uint_slot(p.sqrt_limit),
    ];
    lemma_names(selector, slots, 3, p.recipient);
}

/// The payee of an `unwrapWETH9` call is argument one.
proof fn lemma_unwrap_call(amount: U256, a: Address)
    ensures
        names(unwrap_call(amount, a), 1, a),
{
    lemma_lengths();
    let slots = seq![uint_slot(amount), address_slot(a)];
    reveal_with_fuel(heads, 3);
    reveal_with_fuel(tails, 3);
    lemma_names(UNWRAP_WETH9, slots, 1, a);
}

pub(crate) proof fn lemma_calls_are_shorter(deadline: Option<u64>, calls: Seq<Seq<u8>>, k: int)
    requires
        deadline is Some || calls.len() != 1,
        multicall_data(deadline, calls).len() < two_256(),
        0 <= k < calls.len(),
    ensures
        calls[k].len() < two_256(),
{
    let list = Slot::Tail(bytes_list_tail(calls));
    match deadline {
        None => {
            lemma_parts_are_shorter(seq![list], 0, calls, k);
        },
        Some(d) => {
            lemma_parts_are_shorter(seq![Slot::Word(word(d as nat)), list], 1, calls, k);
        },
    }
}

/// Whether the calls of a swap pay `a`: the swap call directly, or, for native
/// output, an unwrap behind a swap call that pays `custody`.
pub open spec fn calls_pay(
    calls: Seq<Seq<u8>>,
    native_out: bool,
    custody: Address,
    a: Address,
) -> bool {
    if native_out {
        calls.len() == 2 && names(calls[0], 3, custody) && names(calls[1], 1, a)
    } else {
        calls.len() > 0 && names(calls[0], 3, a)
    }
}

/// A Uniswap V3 exact-in swap pays the recipient: its calls, read out of the
/// multicall, name it, past the router for native output.
pub proof fn v3_exact_in_pays_the_recipient(
    pool: UniswapV3Pool,
    ctx: ChainConfig,
    amount: CurrencyAmount,
    other: Currency,
    route: RouteView,
    quoted: AssetAmount,
    limit_x96: Result<U256, QuoteError>,
    opts: OptionsView,
    a: Address,
    v: SwapView,
)
    requires
        opts.recipient == Recipient::To(a),
        pool.exact_in_outcome(ctx, amount, other, route, quoted, limit_x96, opts) == Ok::<
            SwapView,
            BuildError,
        >(v),
        v.data.len() < two_256(),
    ensures
        calls_pay(read_bytes_list(arguments(v.data), 1), other is Native, address_this(), a),
{
    let r = resolved_pair(pool.assets@, ctx.weth, amount.currency, other, opts)->Ok_0;
    let sqrt = sqrt_limit(opts.price_limit is Some, limit_x96, route.hops.len())->Ok_0;
    let router = pool.router_of(ctx)->Ok_0;
    let limit = opts.slippage.min_out(quoted).raw;
    let p = single_params(&pool, router, r, amount.raw, limit, sqrt);
    let swap = uniswap_v3::call_by_fee(uniswap_v3::EXACT_INPUT_SINGLE, pool.fee_pips, p);
    let calls = if r.native_out {
        seq![swap, unwrap_call(limit, a)]
    } else {
        seq![swap]
    };
    let deadline = Some(r.deadline.value() as u64);
    assert(v.data == multicall_data(deadline, calls));
    multicall_reads_back(deadline, calls);
    lemma_calls_are_shorter(deadline, calls, 0);
    lemma_fee_call(uniswap_v3::EXACT_INPUT_SINGLE, pool.fee_pips, p);
    lemma_unwrap_call(limit, a);
}

/// A Uniswap V3 exact-out swap pays the recipient: its calls, read out of the
/// multicall, name it, past the router for native output.
pub proof fn v3_exact_out_pays_the_recipient(
    pool: UniswapV3Pool,
    ctx: ChainConfig,
    amount: CurrencyAmount,
    other: Currency,
    route: RouteView,
    quoted: AssetAmount,
    limit_x96: Result<U256, QuoteError>,
    opts: OptionsView,
    a: Address,
    v: SwapView,
)
    requires
        opts.recipient == Recipient::To(a),
        pool.exact_out_outcome(ctx, amount, other, route, quoted, limit_x96, opts) == Ok::<
            SwapView,
            BuildError,
        >(v),
        v.data.len() < two_256(),
    ensures
        calls_pay(
            read_bytes_list(arguments(v.data), 1),
            amount.currency is Native,
            address_this(),
            a,
        ),
{
    let r = resolved_pair(pool.assets@, ctx.weth, other, amount.currency, opts)->Ok_0;
    let sqrt = sqrt_limit(opts.price_limit is Some, limit_x96, route.hops.len())->Ok_0;
    let router = pool.router_of(ctx)->Ok_0;
    let limit = opts.slippage.max_in(quoted).raw;
    let p = single_params(&pool, router, r, amount.raw, limit, sqrt);
    let swap = uniswap_v3::call_by_fee(uniswap_v3::EXACT_OUTPUT_SINGLE, pool.fee_pips, p);
    let calls = if r.native_in {
        seq![swap, refund_call()]
    } else if r.native_out {
        seq![swap, unwrap_call(amount.raw, a)]
    } else {
        seq![swap]
    };
    let deadline = Some(r.deadline.value() as u64);
    assert(v.data == multicall_data(deadline, calls));
    multicall_reads_back(deadline, calls);
    lemma_calls_are_shorter(deadline, calls, 0);
    lemma_fee_call(uniswap_v3::EXACT_OUTPUT_SINGLE, pool.fee_pips, p);
    lemma_unwrap_call(amount.raw, a);
}

/// A Slipstream exact-in swap pays the recipient: the call that goes out alone,
/// or the calls read out of the multicall, name it, past the router for native
/// output.
pub proof fn slipstream_exact_in_pays_the_recipient(
    pool: AerodromeSlipstreamPool,
    ctx: ChainConfig,
    amount: CurrencyAmount,
    other: Currency,
    route: RouteView,
    quoted: AssetAmount,
    limit_x96: Result<U256, QuoteError>,
    opts: OptionsView,
    a: Address,
    v: SwapView,
)
    requires
        opts.recipient == Recipient::To(a),
        pool.exact_in_outcome(ctx, amount, other, route, quoted, limit_x96, opts) == Ok::<
            SwapView,
            BuildError,
        >(v),
        v.data.len() < two_256(),
    ensures
        calls_pay(
            if !(other is Native) {
                seq![v.data]
            } else {
                read_bytes_list(arguments(v.data), 0)
            },
            other is Native,
            v.to,
            a,
        ),
{
    let r = resolved_pair(pool.assets@, ctx.weth, amount.currency, other, opts)->Ok_0;
    let sqrt = sqrt_limit(opts.price_limit is Some, limit_x96, 2)->Ok_0;
    let router = pool.router_of(ctx)->Ok_0;
    let limit = opts.slippage.min_out(quoted).raw;
    let p = single_params(&pool, router, r, amount.raw, limit, sqrt);
    let swap = slipstream::call_by_spacing(slipstream::EXACT_INPUT_SINGLE, pool.tick_spacing, p);
    let calls = if r.native_out {
        seq![swap, unwrap_call(limit, a)]
    } else {
        seq![swap]
    };
    assert(v.data == multicall_data(None, calls));
    if calls.len() != 1 {
        multicall_reads_back(None, calls);
        lemma_calls_are_shorter(None, calls, 0);
    }
    lemma_spacing_call(slipstream::EXACT_INPUT_SINGLE, pool.tick_spacing, p);
    lemma_unwrap_call(limit, a);
}

/// A Slipstream exact-out swap pays the recipient: the call that goes out alone,
/// or the calls read out of the multicall, name it, past the router for native
/// output.
pub proof fn slipstream_exact_out_pays_the_recipient(
    pool: AerodromeSlipstreamPool,
    ctx: ChainConfig,
    amount: CurrencyAmount,
    other: Currency,
    route: RouteView,
    quoted: AssetAmount,
    limit_x96: Result<U256, QuoteError>,
    opts: OptionsView,
    a: Address,
    v: SwapView,
)
    requires
        opts.recipient == Recipient::To(a),
        pool.exact_out_outcome(ctx, amount, other, route, quoted, limit_x96, opts) == Ok::<
            SwapView,
            BuildError,
        >(v),
        v.data.len() < two_256(),
    ensures
        calls_pay(
            if !(other is Native) && !(amount.currency is Native) {
                seq![v.data]
            } else {
                read_bytes_list(arguments(v.data), 0)
            },
            amount.currency is Native,
            v.to,
            a,
        ),
{
    let r = resolved_pair(pool.assets@, ctx.weth, other, amount.currency, opts)->Ok_0;
    let sqrt = sqrt_limit(opts.price_limit is Some, limit_x96, 2)->Ok_0;
    let router = pool.router_of(ctx)->Ok_0;
    let limit = opts.slippage.max_in(quoted).raw;
    let p = single_params(&pool, router, r, amount.raw, limit, sqrt);
    let swap = slipstream::call_by_spacing(slipstream::EXACT_OUTPUT_SINGLE, pool.tick_spacing, p);
    let calls = if r.native_in {
        seq![swap, refund_call()]
    } else if r.native_out {
        seq![swap, unwrap_call(amount.raw, a)]
    } else {
        seq![swap]
    };
    assert(v.data == multicall_data(None, calls));
    if calls.len() != 1 {
        multicall_reads_back(None, calls);
        lemma_calls_are_shorter(None, calls, 0);
    }
    lemma_spacing_call(slipstream::EXACT_OUTPUT_SINGLE, pool.tick_spacing, p);
    lemma_unwrap_call(amount.raw, a);
}

/// Whether the input of a `V4_SWAP` command takes the output to `a`: the second
/// word of the third action's parameters.
pub open spec fn takes_to(swap_input: Seq<u8>, a: Address) -> bool {
    read_word(read_bytes_list(swap_input, 1)[2], 1) == address_word(a.bytes())
}

/// Whether the input of an `UNWRAP_WETH` command pays `a`: its first word.
pub open spec fn unwraps_to(unwrap_input: Seq<u8>, a: Address) -> bool {
    read_word(unwrap_input, 0) == address_word(a.bytes())
}

proof fn lemma_take(currency: Address, a: Address)
    ensures
        read_word(uniswap_v4::take_params(currency, a), 1) == address_word(a.bytes()),
        uniswap_v4::take_params(currency, a).len() == 96,
{
    lemma_lengths();
    let slots = seq![address_slot(currency), address_slot(a), uint_slot(uniswap_v4::open_delta())];
    reveal_with_fuel(heads, 4);
    reveal_with_fuel(tails, 4);
    lemma_whole(slots);
    word_reads_back(layout(slots), slots, 1);
}

proof fn lemma_unwrap_input(a: Address, amount: U256)
    ensures
        unwraps_to(uniswap_v4::address_amount(a, amount), a),
{
    lemma_lengths();
    let slots = seq![address_slot(a), uint_slot(amount)];
    reveal_with_fuel(heads, 3);
    reveal_with_fuel(tails, 3);
    lemma_whole(slots);
    word_reads_back(layout(slots), slots, 0);
}

pub(crate) proof fn lemma_swap_input(actions: Seq<u8>, params: Seq<Seq<u8>>)
    requires
        uniswap_v4::v4_swap_input(actions, params).len() < two_256(),
    ensures
        read_bytes_list(uniswap_v4::v4_swap_input(actions, params), 1) == params,
{
    let slots = seq![Slot::Tail(bytes_tail(actions)), Slot::Tail(bytes_list_tail(params))];
    lemma_whole(slots);
    bytes_list_reads_back(layout(slots), slots, 1, params);
}

/// The stream of an order, read out of its calldata, pays the order's
/// recipient: it unwraps to it where it unwraps output, else takes to it.
proof fn lemma_order_pays(o: uniswap_v4::Order, key: uniswap_v4::PoolKey, deadline: u64)
    requires
        execute_data(o.commands(), o.inputs(key), deadline).len() < two_256(),
    ensures
        ({
            let inputs = read_bytes_list(
                arguments(execute_data(o.commands(), o.inputs(key), deadline)),
                1,
            );
            if o.unwraps_output() {
                inputs.len() == 2 && unwraps_to(inputs[1], o.r.recipient)
            } else if o.wraps_input() {
                inputs.len() >= 2 && takes_to(inputs[1], o.r.recipient)
            } else {
                inputs.len() == 1 && takes_to(inputs[0], o.r.recipient)
            }
        }),
{
    let inputs = o.inputs(key);
    execute_reads_back(o.commands(), inputs, deadline);
    let slots = seq![
        Slot::Tail(bytes_tail(o.commands())),
        Slot::Tail(bytes_list_tail(inputs)),
        Slot::Word(word(deadline as nat)),
    ];
    if o.unwraps_output() {
        lemma_unwrap_input(o.r.recipient, o.payout);
    } else {
        let at = if o.wraps_input() {
            1int
        } else {
            0
        };
        assert(inputs[at] == o.swap_input(key));
        lemma_parts_are_shorter(slots, 1, inputs, at);
        let input = o.r.input.address();
        let (fixed, bound) = match o.trade {
            TradeType::ExactIn => (o.spend, o.payout),
            TradeType::ExactOut => (o.payout, o.spend),
        };
        let take = uniswap_v4::take_params(o.r.output.address(), o.r.recipient);
        let params = seq![
            uniswap_v4::swap_params(key, input == key.currency0, fixed.value(), bound.value()),
            uniswap_v4::settle_params(o.wraps_input(), input, o.spend),
            take,
        ];
        lemma_swap_input(uniswap_v4::action_bytes(o.trade, o.wraps_input()), params);
        lemma_take(o.r.output.address(), o.r.recipient);
        assert(read_bytes_list(inputs[at], 1) == params);
        assert(params[2] == take);
    }
}

/// Whether the stream of a V4 swap pays `a`: native output of a pool that holds
/// WETH is unwrapped to it, any other output is taken to it.
pub open spec fn stream_pays(
    inputs: Seq<Seq<u8>>,
    wrap: bool,
    input: Currency,
    a: Address,
) -> bool {
    if wrap && input is Native {
        inputs.len() >= 2 && takes_to(inputs[1], a)
    } else if wrap {
        inputs.len() == 2 && unwraps_to(inputs[1], a)
    } else {
        inputs.len() == 1 && takes_to(inputs[0], a)
    }
}

/// A Uniswap V4 exact-in swap pays the recipient: its command stream, read out of
/// the calldata, takes the output to it or unwraps it to it.
pub proof fn v4_exact_in_pays_the_recipient(
    pool: UniswapV4Pool,
    ctx: ChainConfig,
    amount: CurrencyAmount,
    other: Currency,
    route: RouteView,
    quoted: AssetAmount,
    limit_x96: Result<U256, QuoteError>,
    opts: OptionsView,
    a: Address,
    v: SwapView,
)
    requires
        opts.recipient == Recipient::To(a),
        pool.exact_in_outcome(ctx, amount, other, route, quoted, limit_x96, opts) == Ok::<
            SwapView,
            BuildError,
        >(v),
        v.data.len() < two_256(),
    ensures
        stream_pays(
            read_bytes_list(arguments(v.data), 1),
            uniswap_v4::wraps(
                amount.currency,
                other,
                ctx.weth.address(),
                pool.assets@[0].address(),
                pool.assets@[1].address(),
            ),
            amount.currency,
            a,
        ),
{
    let trade = TradeType::ExactIn;
    let key = uniswap_v4::pool_key(pool)->Ok_0;
    let (wrap, r) = uniswap_v4::v4_sides(
        pool.assets@,
        key,
        ctx,
        amount.currency,
        other,
        route,
        opts,
        trade,
    )->Ok_0;
    let o = uniswap_v4::Order {
        trade,
        wrap,
        r,
        spend: amount.raw,
        payout: opts.slippage.min_out(quoted).raw,
    };
    let deadline = r.deadline.value() as u64;
    assert(v.data == execute_data(o.commands(), o.inputs(key), deadline));
    lemma_order_pays(o, key, deadline);
}

/// A Uniswap V4 exact-out swap pays the recipient: its command stream, read out of
/// the calldata, takes the output to it or unwraps it to it.
pub proof fn v4_exact_out_pays_the_recipient(
    pool: UniswapV4Pool,
    ctx: ChainConfig,
    amount: CurrencyAmount,
    other: Currency,
    route: RouteView,
    quoted: AssetAmount,
    limit_x96: Result<U256, QuoteError>,
    opts: OptionsView,
    a: Address,
    v: SwapView,
)
    requires
        opts.recipient == Recipient::To(a),
        pool.exact_out_outcome(ctx, amount, other, route, quoted, limit_x96, opts) == Ok::<
            SwapView,
            BuildError,
        >(v),
        v.data.len() < two_256(),
    ensures
        stream_pays(
            read_bytes_list(arguments(v.data), 1),
            uniswap_v4::wraps(
                other,
                amount.currency,
                ctx.weth.address(),
                pool.assets@[0].address(),
                pool.assets@[1].address(),
            ),
            other,
            a,
        ),
{
    let trade = TradeType::ExactOut;
    let key = uniswap_v4::pool_key(pool)->Ok_0;
    let (wrap, r) = uniswap_v4::v4_sides(
        pool.assets@,
        key,
        ctx,
        other,
        amount.currency,
        route,
        opts,
        trade,
    )->Ok_0;
    let o = uniswap_v4::Order {
        trade,
        wrap,
        r,
        spend: opts.slippage.max_in(quoted).raw,
        payout: amount.raw,
    };
    let deadline = r.deadline.value() as u64;
    assert(v.data == execute_data(o.commands(), o.inputs(key), deadline));
    lemma_order_pays(o, key, deadline);
}

} // verus!
