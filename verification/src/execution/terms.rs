//! The terms of a built swap: its amounts, bounds and deadline stand in the
//! calldata, at the places that the called contract reads them from.
use crate::abi::{
    address_list_tail, address_slot, bool_word, bytes_list_tail, bytes_tail, heads, int_word,
    layout, static_list_tail, tails, uint_slot, word, Slot,
};
use crate::asset::{AssetAmount, QuoteError};
use crate::execution::config::ChainConfig;
use crate::execution::delivery::{lemma_calls_are_shorter, lemma_swap_input};
use crate::execution::error::BuildError;
use crate::execution::executable::Executable;
use crate::execution::multicall::{
    multicall_data, multicall_reads_back, MULTICALL_WITH_DEADLINE,
};
use crate::execution::options::{Deadline, OptionsView};
use crate::execution::prepared::{RouteView, SwapView};
use crate::execution::protocols::common::{
    resolved_pair, resolved_swap, sqrt_limit, ResolvedSwap,
};
use crate::execution::protocols::swaprouter02::{
    refund_call, single_params, unwrap_call, SingleParams, SwapRouter02, UNWRAP_WETH9,
};
use crate::execution::protocols::{aerodrome, curve, slipstream, uniswap_v2, uniswap_v3, uniswap_v4};
use crate::execution::route_planner::{
    address_this, address_views, execute_data, execute_reads_back, EXECUTE,
};
use crate::execution::types::{Currency, CurrencyAmount, TradeType};
use crate::pools::{
    AerodromeSlipstreamPool, AerodromeStablePool, AerodromeVolatilePool, CurveInterface, CurvePool,
    UniswapV2Pool, UniswapV3Pool, UniswapV4Pool,
};
use crate::primitives::{be_bytes, two_256, u256_of_value, Address, U256};
use crate::reading::{
    arguments, lemma_lengths, lemma_parts_are_shorter, lemma_whole, one_word_each,
    read_bytes_list, read_word, word_reads_back,
};
use vstd::prelude::*;

verus! {

/// Whether argument `place` of a call is this number.
pub open spec fn holds(call: Seq<u8>, place: int, x: U256) -> bool {
    read_word(arguments(call), place) == word(x.value())
}

/// Whether argument `place` of a call is the timestamp of a deadline.
pub open spec fn expires(call: Seq<u8>, place: int, deadline: Deadline) -> bool {
    deadline matches Deadline::AtTimestamp(t) && read_word(arguments(call), place) == word(
        t as nat,
    )
}

pub(crate) proof fn lemma_place(selector: u32, slots: Seq<Slot>, place: int)
    requires
        one_word_each(slots),
        layout(slots).len() + 4 < two_256(),
        0 <= place < slots.len(),
        slots[place] is Word,
    ensures
        read_word(arguments(be_bytes(selector as nat, 4) + layout(slots)), place)
            == slots[place]->Word_0,
{
    lemma_lengths();
    assert(arguments(be_bytes(selector as nat, 4) + layout(slots)) =~= layout(slots));
    lemma_whole(slots);
    word_reads_back(layout(slots), slots, place);
}

proof fn lemma_timestamp(t: u64)
    ensures
        U256::of(t as nat).value() == t,
{
    u256_of_value(t as nat);
}

/// The arguments of a call along a path or legs: the amounts first, the
/// deadline last.
proof fn lemma_list_call(
    selector: u32,
    amounts: Seq<U256>,
    list: Slot,
    r: ResolvedSwap,
    deadline: Deadline,
)
    requires
        list is Tail,
        deadline is AtTimestamp,
        r.deadline == U256::of(deadline->AtTimestamp_0 as nat),
        layout(
            amounts.map_values(|a: U256| uint_slot(a)) + seq![
                list,
                address_slot(r.recipient),
                uint_slot(r.deadline),
            ],
        ).len() + 4 < two_256(),
    ensures
        ({
            let call = be_bytes(selector as nat, 4) + layout(
                amounts.map_values(|a: U256| uint_slot(a)) + seq![
                    list,
                    address_slot(r.recipient),
                    uint_slot(r.deadline),
                ],
            );
            &&& forall|i: int| #![trigger amounts[i]]
                0 <= i < amounts.len() ==> holds(call, i, amounts[i])
            &&& expires(call, amounts.len() as int + 2, deadline)
        }),
{
    lemma_lengths();
    let slots = amounts.map_values(|a: U256| uint_slot(a)) + seq![
        list,
        address_slot(r.recipient),
        uint_slot(r.deadline),
    ];
    let call = be_bytes(selector as nat, 4) + layout(slots);
    assert(one_word_each(slots));
    assert forall|i: int| #![trigger amounts[i]] 0 <= i < amounts.len() implies holds(
        call,
        i,
        amounts[i],
    ) by {
        assert(slots[i] == uint_slot(amounts[i]));
        lemma_place(selector, slots, i);
    }
    lemma_place(selector, slots, amounts.len() as int + 2);
    lemma_timestamp(deadline->AtTimestamp_0);
}

/// A Uniswap V2 exact-in swap carries its floor and its deadline, and its input
/// unless that is attached.
pub proof fn v2_exact_in_carries_its_terms(
    pool: UniswapV2Pool,
    ctx: ChainConfig,
    amount: CurrencyAmount,
    other: Currency,
    route: RouteView,
    quoted: AssetAmount,
    limit_x96: Result<U256, QuoteError>,
    opts: OptionsView,
    v: SwapView,
)
    requires
        pool.exact_in_outcome(ctx, amount, other, route, quoted, limit_x96, opts) == Ok::<
            SwapView,
            BuildError,
        >(v),
        v.data.len() < two_256(),
    ensures
        match amount.currency {
            Currency::Native => holds(v.data, 0, v.min_received.raw) && expires(
                v.data,
                3,
                opts.deadline,
            ),
            Currency::Token(_) => holds(v.data, 0, amount.raw) && holds(
                v.data,
                1,
                v.min_received.raw,
            ) && expires(v.data, 4, opts.deadline),
        },
{
    lemma_lengths();
    let r = resolved_swap(
        pool.assets@,
        ctx.weth,
        amount.currency,
        other,
        route,
        opts,
        TradeType::ExactIn,
    )->Ok_0;
    let path = Slot::Tail(
        address_list_tail(address_views(seq![r.input.address(), r.output.address()])),
    );
    if r.native_in {
        let amounts = seq![v.min_received.raw];
        lemma_list_call(uniswap_v2::SWAP_EXACT_ETH_FOR_TOKENS, amounts, path, r, opts.deadline);
        assert(holds(v.data, 0, amounts[0]));
    } else {
        let amounts = seq![amount.raw, v.min_received.raw];
        if r.native_out {
            lemma_list_call(uniswap_v2::SWAP_EXACT_TOKENS_FOR_ETH, amounts, path, r, opts.deadline);
        } else {
            lemma_list_call(
                uniswap_v2::SWAP_EXACT_TOKENS_FOR_TOKENS,
                amounts,
                path,
                r,
                opts.deadline,
            );
        }
        assert(holds(v.data, 0, amounts[0]));
        assert(holds(v.data, 1, amounts[1]));
    }
}

/// A Uniswap V2 exact-out swap carries its output and its deadline, and its
/// ceiling unless that is attached.
pub proof fn v2_exact_out_carries_its_terms(
    pool: UniswapV2Pool,
    ctx: ChainConfig,
    amount: CurrencyAmount,
    other: Currency,
    route: RouteView,
    quoted: AssetAmount,
    limit_x96: Result<U256, QuoteError>,
    opts: OptionsView,
    v: SwapView,
)
    requires
        pool.exact_out_outcome(ctx, amount, other, route, quoted, limit_x96, opts) == Ok::<
            SwapView,
            BuildError,
        >(v),
        v.data.len() < two_256(),
    ensures
        v.max_spent is Some,
        holds(v.data, 0, amount.raw),
        match other {
            Currency::Native => v.value == v.max_spent->0.raw && expires(v.data, 3, opts.deadline),
            Currency::Token(_) => holds(v.data, 1, v.max_spent->0.raw) && expires(
                v.data,
                4,
                opts.deadline,
            ),
        },
{
    lemma_lengths();
    let r = resolved_swap(
        pool.assets@,
        ctx.weth,
        other,
        amount.currency,
        route,
        opts,
        TradeType::ExactOut,
    )->Ok_0;
    let path = Slot::Tail(
        address_list_tail(address_views(seq![r.input.address(), r.output.address()])),
    );
    if r.native_in {
        let amounts = seq![amount.raw];
        lemma_list_call(uniswap_v2::SWAP_ETH_FOR_EXACT_TOKENS, amounts, path, r, opts.deadline);
        assert(holds(v.data, 0, amounts[0]));
    } else {
        let amounts = seq![amount.raw, v.max_spent->0.raw];
        if r.native_out {
            lemma_list_call(uniswap_v2::SWAP_TOKENS_FOR_EXACT_ETH, amounts, path, r, opts.deadline);
        } else {
            lemma_list_call(
                uniswap_v2::SWAP_TOKENS_FOR_EXACT_TOKENS,
                amounts,
                path,
                r,
                opts.deadline,
            );
        }
        assert(holds(v.data, 0, amounts[0]));
        assert(holds(v.data, 1, amounts[1]));
    }
}

/// An Aerodrome stable swap carries its floor and its deadline, and its input
/// unless that is attached.
pub proof fn stable_carries_its_terms(
    pool: AerodromeStablePool,
    ctx: ChainConfig,
    amount: CurrencyAmount,
    other: Currency,
    route: RouteView,
    quoted: AssetAmount,
    limit_x96: Result<U256, QuoteError>,
    opts: OptionsView,
    v: SwapView,
)
    requires
        pool.exact_in_outcome(ctx, amount, other, route, quoted, limit_x96, opts) == Ok::<
            SwapView,
            BuildError,
        >(v),
        v.data.len() < two_256(),
    ensures
        match amount.currency {
            Currency::Native => holds(v.data, 0, v.min_received.raw) && expires(
                v.data,
                3,
                opts.deadline,
            ),
            Currency::Token(_) => holds(v.data, 0, amount.raw) && holds(
                v.data,
                1,
                v.min_received.raw,
            ) && expires(v.data, 4, opts.deadline),
        },
{
    lemma_lengths();
    let r = resolved_swap(
        pool.assets@,
        ctx.weth,
        amount.currency,
        other,
        route,
        opts,
        TradeType::ExactIn,
    )->Ok_0;
    let factory = ctx.routers.aerodrome_factory->0;
    let legs = Slot::Tail(static_list_tail(seq![aerodrome::leg(r, true, factory)]));
    if r.native_in {
        let amounts = seq![v.min_received.raw];
        lemma_list_call(aerodrome::SWAP_EXACT_ETH_FOR_TOKENS, amounts, legs, r, opts.deadline);
        assert(holds(v.data, 0, amounts[0]));
    } else {
        let amounts = seq![amount.raw, v.min_received.raw];
        if r.native_out {
            lemma_list_call(aerodrome::SWAP_EXACT_TOKENS_FOR_ETH, amounts, legs, r, opts.deadline);
        } else {
            lemma_list_call(
                aerodrome::SWAP_EXACT_TOKENS_FOR_TOKENS,
                amounts,
                legs,
                r,
                opts.deadline,
            );
        }
        assert(holds(v.data, 0, amounts[0]));
        assert(holds(v.data, 1, amounts[1]));
    }
}

/// An Aerodrome volatile swap carries its floor and its deadline, and its input
/// unless that is attached.
pub proof fn volatile_carries_its_terms(
    pool: AerodromeVolatilePool,
    ctx: ChainConfig,
    amount: CurrencyAmount,
    other: Currency,
    route: RouteView,
    quoted: AssetAmount,
    limit_x96: Result<U256, QuoteError>,
    opts: OptionsView,
    v: SwapView,
)
    requires
        pool.exact_in_outcome(ctx, amount, other, route, quoted, limit_x96, opts) == Ok::<
            SwapView,
            BuildError,
        >(v),
        v.data.len() < two_256(),
    ensures
        match amount.currency {
            Currency::Native => holds(v.data, 0, v.min_received.raw) && expires(
                v.data,
                3,
                opts.deadline,
            ),
            Currency::Token(_) => holds(v.data, 0, amount.raw) && holds(
                v.data,
                1,
                v.min_received.raw,
            ) && expires(v.data, 4, opts.deadline),
        },
{
    lemma_lengths();
    let r = resolved_swap(
        pool.assets@,
        ctx.weth,
        amount.currency,
        other,
        route,
        opts,
        TradeType::ExactIn,
    )->Ok_0;
    let factory = ctx.routers.aerodrome_factory->0;
    let legs = Slot::Tail(static_list_tail(seq![aerodrome::leg(r, false, factory)]));
    if r.native_in {
        let amounts = seq![v.min_received.raw];
        lemma_list_call(aerodrome::SWAP_EXACT_ETH_FOR_TOKENS, amounts, legs, r, opts.deadline);
        assert(holds(v.data, 0, amounts[0]));
    } else {
        let amounts = seq![amount.raw, v.min_received.raw];
        if r.native_out {
            lemma_list_call(aerodrome::SWAP_EXACT_TOKENS_FOR_ETH, amounts, legs, r, opts.deadline);
        } else {
            lemma_list_call(
                aerodrome::SWAP_EXACT_TOKENS_FOR_TOKENS,
                amounts,
                legs,
                r,
                opts.deadline,
            );
        }
        assert(holds(v.data, 0, amounts[0]));
        assert(holds(v.data, 1, amounts[1]));
    }
}

/// A Curve swap carries its input and its floor, whatever the entrypoint. No
/// entrypoint has a place for a deadline.
pub proof fn curve_carries_its_terms(
    pool: CurvePool,
    ctx: ChainConfig,
    amount: CurrencyAmount,
    other: Currency,
    route: RouteView,
    quoted: AssetAmount,
    limit_x96: Result<U256, QuoteError>,
    opts: OptionsView,
    v: SwapView,
)
    requires
        pool.exact_in_outcome(ctx, amount, other, route, quoted, limit_x96, opts) == Ok::<
            SwapView,
            BuildError,
        >(v),
        v.data.len() < two_256(),
    ensures
        holds(v.data, 2, amount.raw),
        holds(v.data, 3, v.min_received.raw),
{
    lemma_lengths();
    let r = resolved_pair(pool.assets@, ctx.weth, amount.currency, other, opts)->Ok_0;
    let (i, j) = pool.indices(r.input, r.output)->0;
    let dx = uint_slot(amount.raw);
    let min = uint_slot(v.min_received.raw);
    match pool.interface->0 {
        CurveInterface::StableI128 | CurveInterface::StableI128Ng => {
            let slots = seq![
                Slot::Word(int_word(i as int)),
                Slot::Word(int_word(j as int)),
                dx,
                min,
            ];
            assert(v.data == be_bytes(curve::EXCHANGE_STABLE as nat, 4) + layout(slots));
            lemma_place(curve::EXCHANGE_STABLE, slots, 2);
            lemma_place(curve::EXCHANGE_STABLE, slots, 3);
        },
        CurveInterface::CryptoU256UseEth => {
            let flag = bool_word(r.native_in || r.native_out);
            let slots = seq![
                Slot::Word(word(i)),
                Slot::Word(word(j)),
                dx,
                min,
                Slot::Word(flag),
            ];
            assert(v.data == be_bytes(curve::EXCHANGE_USE_ETH as nat, 4) + layout(slots));
            lemma_place(curve::EXCHANGE_USE_ETH, slots, 2);
            lemma_place(curve::EXCHANGE_USE_ETH, slots, 3);
        },
        CurveInterface::CryptoU256Receiver => {
            let slots = seq![
                Slot::Word(word(i)),
                Slot::Word(word(j)),
                dx,
                min,
                address_slot(r.recipient),
            ];
            assert(v.data == be_bytes(curve::EXCHANGE_RECEIVER as nat, 4) + layout(slots));
            lemma_place(curve::EXCHANGE_RECEIVER, slots, 2);
            lemma_place(curve::EXCHANGE_RECEIVER, slots, 3);
        },
    }
}

/// The fixed side, the bound and the price limit of a V3 swap call.
proof fn lemma_fee_call(selector: u32, fee: u32, p: SingleParams)
    requires
        uniswap_v3::call_by_fee(selector, fee, p).len() < two_256(),
    ensures
        holds(uniswap_v3::call_by_fee(selector, fee, p), 4, p.amount),
        holds(uniswap_v3::call_by_fee(selector, fee, p), 5, p.limit_amount),
        holds(uniswap_v3::call_by_fee(selector, fee, p), 6, p.sqrt_limit),
{
    lemma_lengths();
    let slots = seq![
        address_slot(p.token_in),
        address_slot(p.token_out),
        Slot::Word(word(fee as nat)),
        address_slot(p.recipient),
        uint_slot(p.amount),
        uint_slot(p.limit_amount),
        uint_slot(p.sqrt_limit),
    ];
    lemma_place(selector, slots, 4);
    lemma_place(selector, slots, 5);
    lemma_place(selector, slots, 6);
}

/// The deadline, the fixed side, the bound and the price limit of a Slipstream
/// swap call.
proof fn lemma_spacing_call(selector: u32, tick_spacing: i32, p: SingleParams)
    requires
        slipstream::call_by_spacing(selector, tick_spacing, p).len() < two_256(),
    ensures
        holds(slipstream::call_by_spacing(selector, tick_spacing, p), 4, p.deadline),
        holds(slipstream::call_by_spacing(selector, tick_spacing, p), 5, p.amount),
        holds(slipstream::call_by_spacing(selector, tick_spacing, p), 6, p.limit_amount),
        holds(slipstream::call_by_spacing(selector, tick_spacing, p), 7, p.sqrt_limit),
{
    lemma_lengths();
    let slots = seq![
        address_slot(p.token_in),
        address_slot(p.token_out),
        Slot::Word(int_word(tick_spacing as int)),
        address_slot(p.recipient),
        uint_slot(p.deadline),
        uint_slot(p.amount),
        uint_slot(p.limit_amount),
        uint_slot(p.sqrt_limit),
    ];
    lemma_place(selector, slots, 4);
    lemma_place(selector, slots, 5);
    lemma_place(selector, slots, 6);
    lemma_place(selector, slots, 7);
}

/// The least output of an `unwrapWETH9` call is its first argument.
proof fn lemma_unwrap_call(amount: U256, recipient: Address)
    requires
        unwrap_call(amount, recipient).len() < two_256(),
    ensures
        holds(unwrap_call(amount, recipient), 0, amount),
{
    lemma_lengths();
    lemma_place(UNWRAP_WETH9, seq![uint_slot(amount), address_slot(recipient)], 0);
}

/// Argument zero of a multicall with a deadline.
proof fn lemma_multicall_deadline(t: u64, calls: Seq<Seq<u8>>)
    requires
        multicall_data(Some(t), calls).len() < two_256(),
    ensures
        expires(multicall_data(Some(t), calls), 0, Deadline::AtTimestamp(t)),
{
    lemma_lengths();
    let slots = seq![Slot::Word(word(t as nat)), Slot::Tail(bytes_list_tail(calls))];
    lemma_place(MULTICALL_WITH_DEADLINE, slots, 0);
}

/// Whether a swap call carries a fixed side, a bound and the price limit that
/// the converter made of the options, from argument `place` on.
pub open spec fn swap_carries(
    call: Seq<u8>,
    place: int,
    fixed: U256,
    bound: U256,
    opts: OptionsView,
    limit_x96: Result<U256, QuoteError>,
) -> bool {
    &&& holds(call, place, fixed)
    &&& holds(call, place + 1, bound)
    &&& holds(
        call,
        place + 2,
        if opts.price_limit is Some {
            limit_x96->Ok_0
        } else {
            U256::zero()
        },
    )
}

/// A Uniswap V3 exact-in swap carries its input, its floor, its price limit and its
/// deadline. Native output is unwrapped to no less than the floor.
pub proof fn v3_exact_in_carries_its_terms(
    pool: UniswapV3Pool,
    ctx: ChainConfig,
    amount: CurrencyAmount,
    other: Currency,
    route: RouteView,
    quoted: AssetAmount,
    limit_x96: Result<U256, QuoteError>,
    opts: OptionsView,
    v: SwapView,
)
    requires
        pool.exact_in_outcome(ctx, amount, other, route, quoted, limit_x96, opts) == Ok::<
            SwapView,
            BuildError,
        >(v),
        v.data.len() < two_256(),
    ensures
        ({
            let calls = read_bytes_list(arguments(v.data), 1);
            &&& calls.len() > 0
            &&& swap_carries(calls[0], 4, amount.raw, v.min_received.raw, opts, limit_x96)
            &&& other is Native ==> calls.len() == 2 && holds(calls[1], 0, v.min_received.raw)
        }),
        expires(v.data, 0, opts.deadline),
{
    let r = resolved_pair(pool.assets@, ctx.weth, amount.currency, other, opts)->Ok_0;
    let sqrt = sqrt_limit(opts.price_limit is Some, limit_x96, route.hops.len())->Ok_0;
    let router = pool.router_of(ctx)->Ok_0;
    let limit = opts.slippage.min_out(quoted).raw;
    let p = single_params(&pool, router, r, amount.raw, limit, sqrt);
    let swap = uniswap_v3::call_by_fee(uniswap_v3::EXACT_INPUT_SINGLE, pool.fee_pips, p);
    let calls = if r.native_out {
        seq![swap, unwrap_call(limit, r.recipient)]
    } else {
        seq![swap]
    };
    let t = opts.deadline->AtTimestamp_0;
    lemma_timestamp(t);
    let deadline = Some(t);
    assert(v.data == multicall_data(deadline, calls));
    multicall_reads_back(deadline, calls);
    lemma_multicall_deadline(t, calls);
    lemma_calls_are_shorter(deadline, calls, 0);
    if r.native_out {
        lemma_calls_are_shorter(deadline, calls, 1);
        lemma_unwrap_call(limit, r.recipient);
    }
    lemma_fee_call(uniswap_v3::EXACT_INPUT_SINGLE, pool.fee_pips, p);
}

/// A Uniswap V3 exact-out swap carries its output, its ceiling, its price limit and
/// its deadline. Native output is unwrapped to no less than the output, and of
/// attached ETH what the swap leaves is refunded.
pub proof fn v3_exact_out_carries_its_terms(
    pool: UniswapV3Pool,
    ctx: ChainConfig,
    amount: CurrencyAmount,
    other: Currency,
    route: RouteView,
    quoted: AssetAmount,
    limit_x96: Result<U256, QuoteError>,
    opts: OptionsView,
    v: SwapView,
)
    requires
        pool.exact_out_outcome(ctx, amount, other, route, quoted, limit_x96, opts) == Ok::<
            SwapView,
            BuildError,
        >(v),
        v.data.len() < two_256(),
    ensures
        v.max_spent is Some,
        ({
            let calls = read_bytes_list(arguments(v.data), 1);
            &&& calls.len() > 0
            &&& swap_carries(calls[0], 4, amount.raw, v.max_spent->0.raw, opts, limit_x96)
            &&& amount.currency is Native ==> calls.len() == 2 && holds(calls[1], 0, amount.raw)
            &&& other is Native ==> calls.len() == 2 && calls[1] == refund_call()
        }),
        expires(v.data, 0, opts.deadline),
{
    let r = resolved_pair(pool.assets@, ctx.weth, other, amount.currency, opts)->Ok_0;
    let sqrt = sqrt_limit(opts.price_limit is Some, limit_x96, route.hops.len())->Ok_0;
    let router = pool.router_of(ctx)->Ok_0;
    let limit = opts.slippage.max_in(quoted).raw;
    let p = single_params(&pool, router, r, amount.raw, limit, sqrt);
    let swap = uniswap_v3::call_by_fee(uniswap_v3::EXACT_OUTPUT_SINGLE, pool.fee_pips, p);
    let calls = if r.native_in {
        seq![swap, refund_call()]
    } else if r.native_out {
        seq![swap, unwrap_call(amount.raw, r.recipient)]
    } else {
        seq![swap]
    };
    let t = opts.deadline->AtTimestamp_0;
    lemma_timestamp(t);
    let deadline = Some(t);
    assert(v.data == multicall_data(deadline, calls));
    multicall_reads_back(deadline, calls);
    lemma_multicall_deadline(t, calls);
    lemma_calls_are_shorter(deadline, calls, 0);
    if r.native_out {
        lemma_calls_are_shorter(deadline, calls, 1);
        lemma_unwrap_call(amount.raw, r.recipient);
    }
    lemma_fee_call(uniswap_v3::EXACT_OUTPUT_SINGLE, pool.fee_pips, p);
}

/// A Slipstream exact-in swap carries its input, its floor, its price limit and its
/// deadline. Native output is unwrapped to no less than the floor.
pub proof fn slipstream_exact_in_carries_its_terms(
    pool: AerodromeSlipstreamPool,
    ctx: ChainConfig,
    amount: CurrencyAmount,
    other: Currency,
    route: RouteView,
    quoted: AssetAmount,
    limit_x96: Result<U256, QuoteError>,
    opts: OptionsView,
    v: SwapView,
)
    requires
        pool.exact_in_outcome(ctx, amount, other, route, quoted, limit_x96, opts) == Ok::<
            SwapView,
            BuildError,
        >(v),
        v.data.len() < two_256(),
    ensures
        ({
            let calls = if !(other is Native) {
                seq![v.data]
            } else {
                read_bytes_list(arguments(v.data), 0)
            };
            &&& calls.len() > 0
            &&& swap_carries(calls[0], 5, amount.raw, v.min_received.raw, opts, limit_x96)
            &&& expires(calls[0], 4, opts.deadline)
            &&& other is Native ==> calls.len() == 2 && holds(calls[1], 0, v.min_received.raw)
        }),
{
    let r = resolved_pair(pool.assets@, ctx.weth, amount.currency, other, opts)->Ok_0;
    let sqrt = sqrt_limit(opts.price_limit is Some, limit_x96, 2)->Ok_0;
    let router = pool.router_of(ctx)->Ok_0;
    let limit = opts.slippage.min_out(quoted).raw;
    let p = single_params(&pool, router, r, amount.raw, limit, sqrt);
    let swap = slipstream::call_by_spacing(slipstream::EXACT_INPUT_SINGLE, pool.tick_spacing, p);
    let calls = if r.native_out {
        seq![swap, unwrap_call(limit, r.recipient)]
    } else {
        seq![swap]
    };
    let t = opts.deadline->AtTimestamp_0;
    lemma_timestamp(t);
    let deadline = None::<u64>;
    assert(v.data == multicall_data(deadline, calls));
    if calls.len() != 1 {
        multicall_reads_back(deadline, calls);
        lemma_calls_are_shorter(deadline, calls, 0);
    }
    if r.native_out {
        lemma_calls_are_shorter(deadline, calls, 1);
        lemma_unwrap_call(limit, r.recipient);
    }
    lemma_spacing_call(slipstream::EXACT_INPUT_SINGLE, pool.tick_spacing, p);
}

/// A Slipstream exact-out swap carries its output, its ceiling, its price limit and
/// its deadline. Native output is unwrapped to no less than the output, and of
/// attached ETH what the swap leaves is refunded.
pub proof fn slipstream_exact_out_carries_its_terms(
    pool: AerodromeSlipstreamPool,
    ctx: ChainConfig,
    amount: CurrencyAmount,
    other: Currency,
    route: RouteView,
    quoted: AssetAmount,
    limit_x96: Result<U256, QuoteError>,
    opts: OptionsView,
    v: SwapView,
)
    requires
        pool.exact_out_outcome(ctx, amount, other, route, quoted, limit_x96, opts) == Ok::<
            SwapView,
            BuildError,
        >(v),
        v.data.len() < two_256(),
    ensures
        v.max_spent is Some,
        ({
            let calls = if !(other is Native) && !(amount.currency is Native) {
                seq![v.data]
            } else {
                read_bytes_list(arguments(v.data), 0)
            };
            &&& calls.len() > 0
            &&& swap_carries(calls[0], 5, amount.raw, v.max_spent->0.raw, opts, limit_x96)
            &&& expires(calls[0], 4, opts.deadline)
            &&& amount.currency is Native ==> calls.len() == 2 && holds(calls[1], 0, amount.raw)
            &&& other is Native ==> calls.len() == 2 && calls[1] == refund_call()
        }),
{
    let r = resolved_pair(pool.assets@, ctx.weth, other, amount.currency, opts)->Ok_0;
    let sqrt = sqrt_limit(opts.price_limit is Some, limit_x96, 2)->Ok_0;
    let router = pool.router_of(ctx)->Ok_0;
    let limit = opts.slippage.max_in(quoted).raw;
    let p = single_params(&pool, router, r, amount.raw, limit, sqrt);
    let swap = slipstream::call_by_spacing(slipstream::EXACT_OUTPUT_SINGLE, pool.tick_spacing, p);
    let calls = if r.native_in {
        seq![swap, refund_call()]
    } else if r.native_out {
        seq![swap, unwrap_call(amount.raw, r.recipient)]
    } else {
        seq![swap]
    };
    let t = opts.deadline->AtTimestamp_0;
    lemma_timestamp(t);
    let deadline = None::<u64>;
    assert(v.data == multicall_data(deadline, calls));
    if calls.len() != 1 {
        multicall_reads_back(deadline, calls);
        lemma_calls_are_shorter(deadline, calls, 0);
    }
    if r.native_out {
        lemma_calls_are_shorter(deadline, calls, 1);
        lemma_unwrap_call(amount.raw, r.recipient);
    }
    lemma_spacing_call(slipstream::EXACT_OUTPUT_SINGLE, pool.tick_spacing, p);
}

/// Whether the input of a `V4_SWAP` command carries a fixed side and a bound:
/// the seventh and eighth word of the tuple in the first action's parameters.
pub open spec fn order_carries(swap_input: Seq<u8>, fixed: U256, bound: U256) -> bool {
    let tuple = read_bytes_list(swap_input, 1)[0].skip(32);
    read_word(tuple, 6) == word(fixed.value()) && read_word(tuple, 7) == word(bound.value())
}

proof fn lemma_swap_params(
    key: uniswap_v4::PoolKey,
    zero_for_one: bool,
    fixed: U256,
    bound: U256,
)
    requires
        uniswap_v4::swap_params(key, zero_for_one, fixed.value(), bound.value()).len()
            < two_256(),
    ensures
        ({
            let params = uniswap_v4::swap_params(
                key,
                zero_for_one,
                fixed.value(),
                bound.value(),
            );
            &&& read_word(params.skip(32), 6) == word(fixed.value())
            &&& read_word(params.skip(32), 7) == word(bound.value())
        }),
{
    lemma_lengths();
    let slots = seq![
        address_slot(key.currency0),
        address_slot(key.currency1),
        Slot::Word(word(key.fee as nat)),
        Slot::Word(int_word(key.tick_spacing as int)),
        address_slot(key.hooks),
        Slot::Word(bool_word(zero_for_one)),
        uint_slot(fixed),
        uint_slot(bound),
        Slot::Tail(bytes_tail(Seq::empty())),
    ];
    let outer = seq![Slot::Tail(layout(slots))];
    reveal_with_fuel(heads, 2);
    reveal_with_fuel(tails, 2);
    assert(layout(outer).skip(32) =~= layout(slots));
    lemma_whole(slots);
    word_reads_back(layout(slots), slots, 6);
    word_reads_back(layout(slots), slots, 7);
}

/// The stream of an order carries its fixed side, its bound and its deadline.
proof fn lemma_order_terms(o: uniswap_v4::Order, key: uniswap_v4::PoolKey, deadline: u64)
    requires
        execute_data(o.commands(), o.inputs(key), deadline).len() < two_256(),
    ensures
        ({
            let data = execute_data(o.commands(), o.inputs(key), deadline);
            let inputs = read_bytes_list(arguments(data), 1);
            let at = if o.wraps_input() {
                1int
            } else {
                0
            };
            &&& expires(data, 2, Deadline::AtTimestamp(deadline))
            &&& inputs.len() > at
            &&& match o.trade {
                TradeType::ExactIn => order_carries(inputs[at], o.spend, o.payout),
                TradeType::ExactOut => order_carries(inputs[at], o.payout, o.spend),
            }
        }),
{
    lemma_lengths();
    let inputs = o.inputs(key);
    execute_reads_back(o.commands(), inputs, deadline);
    let slots = seq![
        Slot::Tail(bytes_tail(o.commands())),
        Slot::Tail(bytes_list_tail(inputs)),
        Slot::Word(word(deadline as nat)),
    ];
    lemma_place(EXECUTE, slots, 2);
    let at = if o.wraps_input() {
        1int
    } else {
        0
    };
    assert(inputs[at] == o.swap_input(key));
    lemma_parts_are_shorter(slots, 1, inputs, at);
    let input = o.r.input.address();
    let (fixed, bound) = match o.trade {
        TradeType::ExactIn => (o.spend, o.payout),
        TradeType::ExactOut => (o.payout, o.spend),
    };
    let swap = uniswap_v4::swap_params(
        key,
        input == key.currency0,
        fixed.value(),
        bound.value(),
    );
    let payee = if o.unwraps_output() {
        address_this()
    } else {
        o.r.recipient
    };
    let params = seq![
        swap,
        uniswap_v4::settle_params(o.wraps_input(), input, o.spend),
        uniswap_v4::take_params(o.r.output.address(), payee),
    ];
    let actions = uniswap_v4::action_bytes(o.trade, o.wraps_input());
    lemma_swap_input(actions, params);
    lemma_parts_are_shorter(
        seq![Slot::Tail(bytes_tail(actions)), Slot::Tail(bytes_list_tail(params))],
        1,
        params,
        0,
    );
    lemma_swap_params(key, input == key.currency0, fixed, bound);
    assert(read_bytes_list(inputs[at], 1) == params);
    assert(params[0] == swap);
}

/// A Uniswap V4 exact-in swap carries its input, its floor and its deadline.
pub proof fn v4_exact_in_carries_its_terms(
    pool: UniswapV4Pool,
    ctx: ChainConfig,
    amount: CurrencyAmount,
    other: Currency,
    route: RouteView,
    quoted: AssetAmount,
    limit_x96: Result<U256, QuoteError>,
    opts: OptionsView,
    v: SwapView,
)
    requires
        pool.exact_in_outcome(ctx, amount, other, route, quoted, limit_x96, opts) == Ok::<
            SwapView,
            BuildError,
        >(v),
        v.data.len() < two_256(),
    ensures
        ({
            let inputs = read_bytes_list(arguments(v.data), 1);
            let wrap = uniswap_v4::wraps(
                amount.currency,
                other,
                ctx.weth.address(),
                pool.assets@[0].address(),
                pool.assets@[1].address(),
            );
            let at = if wrap && amount.currency is Native {
                1int
            } else {
                0
            };
            inputs.len() > at && order_carries(inputs[at], amount.raw, v.min_received.raw)
        }),
        expires(v.data, 2, opts.deadline),
{
    let trade = TradeType::ExactIn;
    let key = uniswap_v4::pool_key(pool)->Ok_0;
    let (wrap, r) = uniswap_v4::v4_sides(
        pool.assets@,
        key,
        ctx,
        amount.currency,
        other,
        route,
        opts,
        trade,
    )->Ok_0;
    let spend = amount.raw;
    let payout = opts.slippage.min_out(quoted).raw;
    let o = uniswap_v4::Order { trade, wrap, r, spend, payout };
    lemma_timestamp(opts.deadline->AtTimestamp_0);
    let deadline = r.deadline.value() as u64;
    assert(v.data == execute_data(o.commands(), o.inputs(key), deadline));
    lemma_order_terms(o, key, deadline);
}

/// A Uniswap V4 exact-out swap carries its output, its ceiling and its deadline.
pub proof fn v4_exact_out_carries_its_terms(
    pool: UniswapV4Pool,
    ctx: ChainConfig,
    amount: CurrencyAmount,
    other: Currency,
    route: RouteView,
    quoted: AssetAmount,
    limit_x96: Result<U256, QuoteError>,
    opts: OptionsView,
    v: SwapView,
)
    requires
        pool.exact_out_outcome(ctx, amount, other, route, quoted, limit_x96, opts) == Ok::<
            SwapView,
            BuildError,
        >(v),
        v.data.len() < two_256(),
    ensures
        v.max_spent is Some,
        ({
            let inputs = read_bytes_list(arguments(v.data), 1);
            let wrap = uniswap_v4::wraps(
                other,
                amount.currency,
                ctx.weth.address(),
                pool.assets@[0].address(),
                pool.assets@[1].address(),
            );
            let at = if wrap && other is Native {
                1int
            } else {
                0
            };
            inputs.len() > at && order_carries(inputs[at], amount.raw, v.max_spent->0.raw)
        }),
        expires(v.data, 2, opts.deadline),
{
    let trade = TradeType::ExactOut;
    let key = uniswap_v4::pool_key(pool)->Ok_0;
    let (wrap, r) = uniswap_v4::v4_sides(
        pool.assets@,
        key,
        ctx,
        other,
        amount.currency,
        route,
        opts,
        trade,
    )->Ok_0;
    let spend = opts.slippage.max_in(quoted).raw;
    let payout = amount.raw;
    let o = uniswap_v4::Order { trade, wrap, r, spend, payout };
    lemma_timestamp(opts.deadline->AtTimestamp_0);
    let deadline = r.deadline.value() as u64;
    assert(v.data == execute_data(o.commands(), o.inputs(key), deadline));
    lemma_order_terms(o, key, deadline);
}

} // verus!
