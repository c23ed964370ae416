//! Which trade a built swap makes: the contract that it calls, the entrypoint,
//! the tokens and the pool, read out of the calldata.
use crate::abi::{
    address_list_tail, address_slot, address_word, bool_word, bytes_list_tail, bytes_tail, heads,
    int_word, layout, static_list_tail, tails, uint_slot, word, Slot,
};
use crate::asset::{AssetAmount, AssetId, ChainId, QuoteError};
use crate::execution::config::ChainConfig;
use crate::execution::delivery::{lemma_calls_are_shorter, lemma_swap_input, names};
use crate::execution::error::BuildError;
use crate::execution::executable::Executable;
use crate::execution::multicall::{
    multicall_data, multicall_reads_back, MULTICALL, MULTICALL_WITH_DEADLINE,
};
use crate::execution::options::OptionsView;
use crate::execution::prepared::{RouteView, SwapView};
use crate::execution::protocols::common::{
    resolved_pair, resolved_swap, sqrt_limit, ResolvedSwap,
};
use crate::execution::protocols::swaprouter02::{
    refund_call, single_params, unwrap_call, SingleParams, SwapRouter02, REFUND_ETH, UNWRAP_WETH9,
};
use crate::execution::protocols::{aerodrome, curve, slipstream, uniswap_v2, uniswap_v3, uniswap_v4};
use crate::execution::route_planner::{
    address_this, address_views, execute_data, execute_reads_back, EXECUTE, UNWRAP_WETH, V4_SWAP,
    WRAP_ETH,
};
use crate::execution::terms::lemma_place;
use crate::execution::types::{Currency, CurrencyAmount, TradeType};
use crate::pools::{
    coins_go_by_their_first_place, AerodromeSlipstreamPool, AerodromeStablePool,
    AerodromeVolatilePool, CurveInterface, CurvePool, UniswapV2Pool, UniswapV3Pool, UniswapV4Pool,
};
use crate::primitives::{be_bytes, two_256, Address, B256, U256};
use crate::reading::{
    arguments, bytes_read_back, lemma_heads_len, lemma_lengths, lemma_parts_are_shorter,
    lemma_whole, list_len, list_word, list_words_read_back, one_word_each, read_bytes,
    read_bytes_list, read_word, word_reads_back,
};
use vstd::prelude::*;

verus! {

/// Whether a call enters the function with this selector.
pub open spec fn enters(call: Seq<u8>, selector: u32) -> bool {
    call.len() >= 4 && call.take(4) == be_bytes(selector as nat, 4)
}

/// The asset that a side of a swap moves on chain, where `wrapped` stands for
/// the native token.
pub open spec fn moved(side: Currency, wrapped: AssetId) -> AssetId {
    match side {
        Currency::Native => wrapped,
        Currency::Token(a) => a,
    }
}

/// Whether argument `place` of a call is a path from one token to the other.
pub open spec fn goes(call: Seq<u8>, place: int, from: Address, to: Address) -> bool {
    &&& list_len(arguments(call), place) == 2
    &&& list_word(arguments(call), place, 0) == address_word(from.bytes())
    &&& list_word(arguments(call), place, 1) == address_word(to.bytes())
}

/// Whether argument `place` of a call is one leg, over the pair of this type
/// and factory, from one token to the other.
pub open spec fn goes_by_leg(
    call: Seq<u8>,
    place: int,
    from: Address,
    to: Address,
    stable: bool,
    factory: Address,
) -> bool {
    &&& list_len(arguments(call), place) == 1
    &&& list_word(arguments(call), place, 0) == address_word(from.bytes())
    &&& list_word(arguments(call), place, 1) == address_word(to.bytes())
    &&& list_word(arguments(call), place, 2) == word(
        if stable {
            1
        } else {
            0
        },
    )
    &&& list_word(arguments(call), place, 3) == address_word(factory.bytes())
}

proof fn lemma_enters(selector: u32, args: Seq<u8>)
    ensures
        enters(be_bytes(selector as nat, 4) + args, selector),
        arguments(be_bytes(selector as nat, 4) + args) == args,
{
    lemma_lengths();
    let call = be_bytes(selector as nat, 4) + args;
    assert(call.take(4) =~= be_bytes(selector as nat, 4));
    assert(arguments(call) =~= args);
}

/// A call with a list of static values behind its amounts.
proof fn lemma_list_call(
    selector: u32,
    amounts: Seq<U256>,
    n: nat,
    body: Seq<u8>,
    r: ResolvedSwap,
)
    requires
        n < two_256(),
        0 < amounts.len() <= 2,
        layout(
            amounts.map_values(|a: U256| uint_slot(a)) + seq![
                Slot::Tail(word(n) + body),
                address_slot(r.recipient),
                uint_slot(r.deadline),
            ],
        ).len() + 4 < two_256(),
    ensures
        ({
            let call = be_bytes(selector as nat, 4) + layout(
                amounts.map_values(|a: U256| uint_slot(a)) + seq![
                    Slot::Tail(word(n) + body),
                    address_slot(r.recipient),
                    uint_slot(r.deadline),
                ],
            );
            &&& enters(call, selector)
            &&& call.len() == 4 + 32 * (amounts.len() + 4) + body.len()
            &&& list_len(arguments(call), amounts.len() as int) == n
            &&& forall|k: int| 0 <= k && 32 * k + 32 <= body.len() ==> #[trigger] list_word(
                arguments(call),
                amounts.len() as int,
                k,
            ) == body.subrange(32 * k, 32 * k + 32)
        }),
{
    lemma_lengths();
    let t = word(n) + body;
    let slots = amounts.map_values(|a: U256| uint_slot(a)) + seq![
        Slot::Tail(t),
        address_slot(r.recipient),
        uint_slot(r.deadline),
    ];
    lemma_enters(selector, layout(slots));
    assert(one_word_each(slots));
    lemma_whole(slots);
    list_words_read_back(layout(slots), slots, amounts.len() as int, n, body);
    lemma_heads_len(slots, slots.len());
    reveal_with_fuel(tails, 6);
    assert(slots[0] is Word);
    assert(slots[amounts.len() as int] == Slot::Tail(t));
    assert(slots[amounts.len() as int + 1] is Word);
    assert(slots[amounts.len() as int + 2] is Word);
    assert(tails(slots, slots.len()) =~= t);
}

/// The words of a path of two tokens.
proof fn lemma_pair_list(a: Address, b: Address)
    ensures
        ({
            let (x, y) = (address_word(a.bytes()), address_word(b.bytes()));
            &&& address_list_tail(address_views(seq![a, b])) == word(2) + (x + y)
            &&& (x + y).len() == 64
            &&& (x + y).subrange(0, 32) == x
            &&& (x + y).subrange(32, 64) == y
        }),
{
    lemma_lengths();
    let (x, y) = (address_word(a.bytes()), address_word(b.bytes()));
    let l = address_views(seq![a, b]);
    let slots = l.map_values(|s: Seq<u8>| Slot::Word(address_word(s)));
    assert(slots =~= seq![Slot::Word(x), Slot::Word(y)]);
    reveal_with_fuel(heads, 3);
    reveal_with_fuel(tails, 3);
    assert(layout(slots) =~= x + y);
    assert((x + y).subrange(0, 32) =~= x);
    assert((x + y).subrange(32, 64) =~= y);
}

/// The words of a list of one leg.
proof fn lemma_one_leg(r: ResolvedSwap, stable: bool, factory: Address)
    ensures
        ({
            let l = aerodrome::leg(r, stable, factory);
            &&& static_list_tail(seq![l]) == word(1) + l
            &&& l.len() == 128
            &&& l.subrange(0, 32) == address_word(r.input.address().bytes())
            &&& l.subrange(32, 64) == address_word(r.output.address().bytes())
            &&& l.subrange(64, 96) == bool_word(stable)
            &&& l.subrange(96, 128) == address_word(factory.bytes())
        }),
{
    lemma_lengths();
    let l = aerodrome::leg(r, stable, factory);
    let slots = seq![l].map_values(|w: Seq<u8>| Slot::Word(w));
    assert(slots =~= seq![Slot::Word(l)]);
    reveal_with_fuel(heads, 2);
    reveal_with_fuel(tails, 2);
    assert(layout(slots) =~= l);
    assert(l.subrange(0, 32) =~= address_word(r.input.address().bytes()));
    assert(l.subrange(32, 64) =~= address_word(r.output.address().bytes()));
    assert(l.subrange(64, 96) =~= bool_word(stable));
    assert(l.subrange(96, 128) =~= address_word(factory.bytes()));
}

/// A Uniswap V2 exact-in swap calls the configured router, at the entrypoint for
/// its native sides, along the path from its input to its output.
pub proof fn v2_exact_in_trades_the_pair(
    pool: UniswapV2Pool,
    ctx: ChainConfig,
    amount: CurrencyAmount,
    other: Currency,
    route: RouteView,
    quoted: AssetAmount,
    limit_x96: Result<U256, QuoteError>,
    opts: OptionsView,
    v: SwapView,
)
    requires
        pool.exact_in_outcome(ctx, amount, other, route, quoted, limit_x96, opts) == Ok::<
            SwapView,
            BuildError,
        >(v),
        v.data.len() < two_256(),
    ensures
        ctx.routers.v2 == Some(v.to),
        enters(
            v.data,
            match (amount.currency, other) {
                (Currency::Native, _) => uniswap_v2::SWAP_EXACT_ETH_FOR_TOKENS,
                (Currency::Token(_), Currency::Native) => uniswap_v2::SWAP_EXACT_TOKENS_FOR_ETH,
                _ => uniswap_v2::SWAP_EXACT_TOKENS_FOR_TOKENS,
            },
        ),
        amount.currency is Native ==> v.data.len() == 228 && goes(
            v.data,
            1,
            moved(amount.currency, ctx.weth).address(),
            moved(other, ctx.weth).address(),
        ),
        !(amount.currency is Native) ==> v.data.len() == 260 && goes(
            v.data,
            2,
            moved(amount.currency, ctx.weth).address(),
            moved(other, ctx.weth).address(),
        ),
{
    lemma_lengths();
    let r = resolved_swap(
        pool.assets@,
        ctx.weth,
        amount.currency,
        other,
        route,
        opts,
        TradeType::ExactIn,
    )->Ok_0;
    let limit = opts.slippage.min_out(quoted).raw;
    lemma_pair_list(r.input.address(), r.output.address());
    let body = address_word(r.input.address().bytes()) + address_word(r.output.address().bytes());
    if r.native_in {
        lemma_list_call(uniswap_v2::SWAP_EXACT_ETH_FOR_TOKENS, seq![limit], 2, body, r);
    } else if r.native_out {
        lemma_list_call(uniswap_v2::SWAP_EXACT_TOKENS_FOR_ETH, seq![amount.raw, limit], 2, body, r);
    } else {
        lemma_list_call(
            uniswap_v2::SWAP_EXACT_TOKENS_FOR_TOKENS,
            seq![amount.raw, limit],
            2,
            body,
            r,
        );
    }
    let at = if r.native_in {
        1int
    } else {
        2
    };
    assert(list_word(arguments(v.data), at, 0) == body.subrange(0, 32));
    assert(list_word(arguments(v.data), at, 1) == body.subrange(32, 64));
}

/// A Uniswap V2 exact-out swap calls the configured router, at the entrypoint for
/// its native sides, along the path from its input to its output.
pub proof fn v2_exact_out_trades_the_pair(
    pool: UniswapV2Pool,
    ctx: ChainConfig,
    amount: CurrencyAmount,
    other: Currency,
    route: RouteView,
    quoted: AssetAmount,
    limit_x96: Result<U256, QuoteError>,
    opts: OptionsView,
    v: SwapView,
)
    requires
        pool.exact_out_outcome(ctx, amount, other, route, quoted, limit_x96, opts) == Ok::<
            SwapView,
            BuildError,
        >(v),
        v.data.len() < two_256(),
    ensures
        ctx.routers.v2 == Some(v.to),
        enters(
            v.data,
            match (other, amount.currency) {
                (Currency::Native, _) => uniswap_v2::SWAP_ETH_FOR_EXACT_TOKENS,
                (Currency::Token(_), Currency::Native) => uniswap_v2::SWAP_TOKENS_FOR_EXACT_ETH,
                _ => uniswap_v2::SWAP_TOKENS_FOR_EXACT_TOKENS,
            },
        ),
        other is Native ==> v.data.len() == 228 && goes(
            v.data,
            1,
            moved(other, ctx.weth).address(),
            moved(amount.currency, ctx.weth).address(),
        ),
        !(other is Native) ==> v.data.len() == 260 && goes(
            v.data,
            2,
            moved(other, ctx.weth).address(),
            moved(amount.currency, ctx.weth).address(),
        ),
{
    lemma_lengths();
    let r = resolved_swap(
        pool.assets@,
        ctx.weth,
        other,
        amount.currency,
        route,
        opts,
        TradeType::ExactOut,
    )->Ok_0;
    let limit = opts.slippage.max_in(quoted).raw;
    lemma_pair_list(r.input.address(), r.output.address());
    let body = address_word(r.input.address().bytes()) + address_word(r.output.address().bytes());
    if r.native_in {
        lemma_list_call(uniswap_v2::SWAP_ETH_FOR_EXACT_TOKENS, seq![amount.raw], 2, body, r);
    } else if r.native_out {
        lemma_list_call(uniswap_v2::SWAP_TOKENS_FOR_EXACT_ETH, seq![amount.raw, limit], 2, body, r);
    } else {
        lemma_list_call(
            uniswap_v2::SWAP_TOKENS_FOR_EXACT_TOKENS,
            seq![amount.raw, limit],
            2,
            body,
            r,
        );
    }
    let at = if r.native_in {
        1int
    } else {
        2
    };
    assert(list_word(arguments(v.data), at, 0) == body.subrange(0, 32));
    assert(list_word(arguments(v.data), at, 1) == body.subrange(32, 64));
}

/// An Aerodrome stable swap calls the configured router, at the entrypoint for its
/// native sides, over one leg: from its input to its output, on the stable pair
/// of the configured factory.
pub proof fn stable_trades_the_stable_pair(
    pool: AerodromeStablePool,
    ctx: ChainConfig,
    amount: CurrencyAmount,
    other: Currency,
    route: RouteView,
    quoted: AssetAmount,
    limit_x96: Result<U256, QuoteError>,
    opts: OptionsView,
    v: SwapView,
)
    requires
        pool.exact_in_outcome(ctx, amount, other, route, quoted, limit_x96, opts) == Ok::<
            SwapView,
            BuildError,
        >(v),
        v.data.len() < two_256(),
    ensures
        ctx.routers.aerodrome == Some(v.to),
        ctx.routers.aerodrome_factory is Some,
        enters(
            v.data,
            match (amount.currency, other) {
                (Currency::Native, _) => aerodrome::SWAP_EXACT_ETH_FOR_TOKENS,
                (Currency::Token(_), Currency::Native) => aerodrome::SWAP_EXACT_TOKENS_FOR_ETH,
                _ => aerodrome::SWAP_EXACT_TOKENS_FOR_TOKENS,
            },
        ),
        amount.currency is Native ==> v.data.len() == 292 && goes_by_leg(
            v.data,
            1,
            moved(amount.currency, ctx.weth).address(),
            moved(other, ctx.weth).address(),
            true,
            ctx.routers.aerodrome_factory->0,
        ),
        !(amount.currency is Native) ==> v.data.len() == 324 && goes_by_leg(
            v.data,
            2,
            moved(amount.currency, ctx.weth).address(),
            moved(other, ctx.weth).address(),
            true,
            ctx.routers.aerodrome_factory->0,
        ),
{
    lemma_lengths();
    let r = resolved_swap(
        pool.assets@,
        ctx.weth,
        amount.currency,
        other,
        route,
        opts,
        TradeType::ExactIn,
    )->Ok_0;
    let limit = opts.slippage.min_out(quoted).raw;
    let factory = ctx.routers.aerodrome_factory->0;
    lemma_one_leg(r, true, factory);
    let body = aerodrome::leg(r, true, factory);
    if r.native_in {
        lemma_list_call(aerodrome::SWAP_EXACT_ETH_FOR_TOKENS, seq![limit], 1, body, r);
    } else if r.native_out {
        lemma_list_call(aerodrome::SWAP_EXACT_TOKENS_FOR_ETH, seq![amount.raw, limit], 1, body, r);
    } else {
        lemma_list_call(
            aerodrome::SWAP_EXACT_TOKENS_FOR_TOKENS,
            seq![amount.raw, limit],
            1,
            body,
            r,
        );
    }
    let at = if r.native_in {
        1int
    } else {
        2
    };
    assert(list_word(arguments(v.data), at, 0) == body.subrange(0, 32));
    assert(list_word(arguments(v.data), at, 1) == body.subrange(32, 64));
    assert(list_word(arguments(v.data), at, 2) == body.subrange(64, 96));
    assert(list_word(arguments(v.data), at, 3) == body.subrange(96, 128));
}

/// An Aerodrome volatile swap calls the configured router, at the entrypoint for
/// its native sides, over one leg: from its input to its output, on the volatile
/// pair of the configured factory.
pub proof fn volatile_trades_the_volatile_pair(
    pool: AerodromeVolatilePool,
    ctx: ChainConfig,
    amount: CurrencyAmount,
    other: Currency,
    route: RouteView,
    quoted: AssetAmount,
    limit_x96: Result<U256, QuoteError>,
    opts: OptionsView,
    v: SwapView,
)
    requires
        pool.exact_in_outcome(ctx, amount, other, route, quoted, limit_x96, opts) == Ok::<
            SwapView,
            BuildError,
        >(v),
        v.data.len() < two_256(),
    ensures
        ctx.routers.aerodrome == Some(v.to),
        ctx.routers.aerodrome_factory is Some,
        enters(
            v.data,
            match (amount.currency, other) {
                (Currency::Native, _) => aerodrome::SWAP_EXACT_ETH_FOR_TOKENS,
                (Currency::Token(_), Currency::Native) => aerodrome::SWAP_EXACT_TOKENS_FOR_ETH,
                _ => aerodrome::SWAP_EXACT_TOKENS_FOR_TOKENS,
            },
        ),
        amount.currency is Native ==> v.data.len() == 292 && goes_by_leg(
            v.data,
            1,
            moved(amount.currency, ctx.weth).address(),
            moved(other, ctx.weth).address(),
            false,
            ctx.routers.aerodrome_factory->0,
        ),
        !(amount.currency is Native) ==> v.data.len() == 324 && goes_by_leg(
            v.data,
            2,
            moved(amount.currency, ctx.weth).address(),
            moved(other, ctx.weth).address(),
            false,
            ctx.routers.aerodrome_factory->0,
        ),
{
    lemma_lengths();
    let r = resolved_swap(
        pool.assets@,
        ctx.weth,
        amount.currency,
        other,
        route,
        opts,
        TradeType::ExactIn,
    )->Ok_0;
    let limit = opts.slippage.min_out(quoted).raw;
    let factory = ctx.routers.aerodrome_factory->0;
    lemma_one_leg(r, false, factory);
    let body = aerodrome::leg(r, false, factory);
    if r.native_in {
        lemma_list_call(aerodrome::SWAP_EXACT_ETH_FOR_TOKENS, seq![limit], 1, body, r);
    } else if r.native_out {
        lemma_list_call(aerodrome::SWAP_EXACT_TOKENS_FOR_ETH, seq![amount.raw, limit], 1, body, r);
    } else {
        lemma_list_call(
            aerodrome::SWAP_EXACT_TOKENS_FOR_TOKENS,
            seq![amount.raw, limit],
            1,
            body,
            r,
        );
    }
    let at = if r.native_in {
        1int
    } else {
        2
    };
    assert(list_word(arguments(v.data), at, 0) == body.subrange(0, 32));
    assert(list_word(arguments(v.data), at, 1) == body.subrange(32, 64));
    assert(list_word(arguments(v.data), at, 2) == body.subrange(64, 96));
    assert(list_word(arguments(v.data), at, 3) == body.subrange(96, 128));
}

/// A Curve swap calls the pool itself, at the entrypoint of its interface, and
/// sells the coin at the input's index for the coin at the output's. The
/// entrypoint that can take ETH is told to exactly where a side is native.
pub proof fn curve_trades_the_coins(
    pool: CurvePool,
    ctx: ChainConfig,
    amount: CurrencyAmount,
    other: Currency,
    route: RouteView,
    quoted: AssetAmount,
    limit_x96: Result<U256, QuoteError>,
    opts: OptionsView,
    v: SwapView,
)
    requires
        pool.exact_in_outcome(ctx, amount, other, route, quoted, limit_x96, opts) == Ok::<
            SwapView,
            BuildError,
        >(v),
        v.data.len() < two_256(),
    ensures
        pool.pool_address == Some(v.to),
        exists|i: int, j: int|
            {
                &&& 0 <= i < pool.assets@.len()
                &&& 0 <= j < pool.assets@.len()
                &&& #[trigger] pool.assets@[i] == moved(amount.currency, ctx.weth)
                &&& #[trigger] pool.assets@[j] == moved(other, ctx.weth)
                &&& !pool.assets@.take(i).contains(pool.assets@[i])
                &&& !pool.assets@.take(j).contains(pool.assets@[j])
                &&& read_word(arguments(v.data), 0) == word(i as nat)
                &&& read_word(arguments(v.data), 1) == word(j as nat)
            },
        match pool.interface {
            Some(CurveInterface::StableI128) | Some(CurveInterface::StableI128Ng) => enters(
                v.data,
                curve::EXCHANGE_STABLE,
            ) && v.data.len() == 132,
            Some(CurveInterface::CryptoU256UseEth) => enters(v.data, curve::EXCHANGE_USE_ETH)
                && v.data.len() == 164 && read_word(arguments(v.data), 4) == word(
                if amount.currency is Native || other is Native {
                    1
                } else {
                    0
                },
            ),
            Some(CurveInterface::CryptoU256Receiver) => enters(v.data, curve::EXCHANGE_RECEIVER)
                && v.data.len() == 164,
            None => false,
        },
{
    lemma_lengths();
    let r = resolved_pair(pool.assets@, ctx.weth, amount.currency, other, opts)->Ok_0;
    assert(r.input == moved(amount.currency, ctx.weth));
    assert(r.output == moved(other, ctx.weth));
    coins_go_by_their_first_place(pool, r.input, r.output);
    let (i, j) = pool.indices(r.input, r.output)->0;
    assert(pool.assets@[i as int] == r.input && pool.assets@[j as int] == r.output);
    let dx = uint_slot(amount.raw);
    let min = uint_slot(v.min_received.raw);
    reveal_with_fuel(tails, 6);
    match pool.interface->0 {
        CurveInterface::StableI128 | CurveInterface::StableI128Ng => {
            let slots = seq![
                Slot::Word(int_word(i as int)),
                Slot::Word(int_word(j as int)),
                dx,
                min,
            ];
            assert(v.data == be_bytes(curve::EXCHANGE_STABLE as nat, 4) + layout(slots));
            lemma_enters(curve::EXCHANGE_STABLE, layout(slots));
            lemma_heads_len(slots, 4);
            lemma_place(curve::EXCHANGE_STABLE, slots, 0);
            lemma_place(curve::EXCHANGE_STABLE, slots, 1);
        },
        CurveInterface::CryptoU256UseEth => {
            let flag = bool_word(r.native_in || r.native_out);
            let slots = seq![
                Slot::Word(word(i)),
                Slot::Word(word(j)),
                dx,
                min,
                Slot::Word(flag),
            ];
            assert(v.data == be_bytes(curve::EXCHANGE_USE_ETH as nat, 4) + layout(slots));
            lemma_enters(curve::EXCHANGE_USE_ETH, layout(slots));
            lemma_heads_len(slots, 5);
            lemma_place(curve::EXCHANGE_USE_ETH, slots, 0);
            lemma_place(curve::EXCHANGE_USE_ETH, slots, 1);
            lemma_place(curve::EXCHANGE_USE_ETH, slots, 4);
        },
        CurveInterface::CryptoU256Receiver => {
            let slots = seq![
                Slot::Word(word(i)),
                Slot::Word(word(j)),
                dx,
                min,
                address_slot(r.recipient),
            ];
            assert(v.data == be_bytes(curve::EXCHANGE_RECEIVER as nat, 4) + layout(slots));
            lemma_enters(curve::EXCHANGE_RECEIVER, layout(slots));
            lemma_heads_len(slots, 5);
            lemma_place(curve::EXCHANGE_RECEIVER, slots, 0);
            lemma_place(curve::EXCHANGE_RECEIVER, slots, 1);
        },
    }
    assert(read_word(arguments(v.data), 0) == word(i as nat));
    assert(read_word(arguments(v.data), 1) == word(j as nat));
}

/// The tokens and the fee of a V3 swap call.
proof fn lemma_fee_call(selector: u32, fee: u32, p: SingleParams)
    requires
        uniswap_v3::call_by_fee(selector, fee, p).len() < two_256(),
    ensures
        ({
            let call = uniswap_v3::call_by_fee(selector, fee, p);
            &&& enters(call, selector)
            &&& call.len() == 228
            &&& names(call, 0, p.token_in)
            &&& names(call, 1, p.token_out)
            &&& read_word(arguments(call), 2) == word(fee as nat)
        }),
{
    lemma_lengths();
    let slots = seq![
        address_slot(p.token_in),
        address_slot(p.token_out),
        Slot::Word(word(fee as nat)),
        address_slot(p.recipient),
        uint_slot(p.amount),
        uint_slot(p.limit_amount),
        uint_slot(p.sqrt_limit),
    ];
    lemma_enters(selector, layout(slots));
    lemma_heads_len(slots, 7);
    reveal_with_fuel(tails, 8);
    lemma_place(selector, slots, 0);
    lemma_place(selector, slots, 1);
    lemma_place(selector, slots, 2);
}

/// The tokens and the tick spacing of a Slipstream swap call.
proof fn lemma_spacing_call(selector: u32, tick_spacing: i32, p: SingleParams)
    requires
        slipstream::call_by_spacing(selector, tick_spacing, p).len() < two_256(),
    ensures
        ({
            let call = slipstream::call_by_spacing(selector, tick_spacing, p);
            &&& enters(call, selector)
            &&& call.len() == 260
            &&& names(call, 0, p.token_in)
            &&& names(call, 1, p.token_out)
            &&& read_word(arguments(call), 2) == int_word(tick_spacing as int)
        }),
{
    lemma_lengths();
    let slots = seq![
        address_slot(p.token_in),
        address_slot(p.token_out),
        Slot::Word(int_word(tick_spacing as int)),
        address_slot(p.recipient),
        uint_slot(p.deadline),
        uint_slot(p.amount),
        uint_slot(p.limit_amount),
        uint_slot(p.sqrt_limit),
    ];
    lemma_enters(selector, layout(slots));
    lemma_heads_len(slots, 8);
    reveal_with_fuel(tails, 9);
    lemma_place(selector, slots, 0);
    lemma_place(selector, slots, 1);
    lemma_place(selector, slots, 2);
}

proof fn lemma_unwrap_call(amount: U256, recipient: Address)
    ensures
        enters(unwrap_call(amount, recipient), UNWRAP_WETH9),
        unwrap_call(amount, recipient).len() == 68,
{
    lemma_lengths();
    let slots = seq![uint_slot(amount), address_slot(recipient)];
    lemma_enters(UNWRAP_WETH9, layout(slots));
    lemma_heads_len(slots, 2);
    reveal_with_fuel(tails, 3);
}

/// A batch is sent to the entrypoint that takes its deadline, or to the one that
/// takes none. A single call without a deadline is sent as it is.
pub proof fn batches_take_their_entrypoint(deadline: Option<u64>, calls: Seq<Seq<u8>>)
    ensures
        deadline is None && calls.len() == 1 ==> multicall_data(deadline, calls) == calls[0],
        deadline is Some ==> enters(multicall_data(deadline, calls), MULTICALL_WITH_DEADLINE),
        deadline is None && calls.len() != 1 ==> enters(
            multicall_data(deadline, calls),
            MULTICALL,
        ),
{
    let list = Slot::Tail(bytes_list_tail(calls));
    match deadline {
        None => {
            lemma_enters(MULTICALL, layout(seq![list]));
        },
        Some(d) => {
            lemma_enters(
                MULTICALL_WITH_DEADLINE,
                layout(seq![Slot::Word(word(d as nat)), list]),
            );
        },
    }
}

/// A Uniswap V3 exact-in swap calls the configured router and swaps its input for
/// its output on the pool of that fee. Native output is unwrapped behind it.
pub proof fn v3_exact_in_trades_the_pool(
    pool: UniswapV3Pool,
    ctx: ChainConfig,
    amount: CurrencyAmount,
    other: Currency,
    route: RouteView,
    quoted: AssetAmount,
    limit_x96: Result<U256, QuoteError>,
    opts: OptionsView,
    v: SwapView,
)
    requires
        pool.exact_in_outcome(ctx, amount, other, route, quoted, limit_x96, opts) == Ok::<
            SwapView,
            BuildError,
        >(v),
        v.data.len() < two_256(),
    ensures
        ctx.routers.v3 == Some(v.to),
        enters(v.data, MULTICALL_WITH_DEADLINE),
        ({
            let calls = read_bytes_list(arguments(v.data), 1);
            &&& calls.len() == (if other is Native {
                2int
            } else {
                1
            })
            &&& enters(calls[0], uniswap_v3::EXACT_INPUT_SINGLE)
            &&& calls[0].len() == 228
            &&& names(calls[0], 0, moved(amount.currency, ctx.weth).address())
            &&& names(calls[0], 1, moved(other, ctx.weth).address())
            &&& read_word(arguments(calls[0]), 2) == word(pool.fee_pips as nat)
            &&& other is Native ==> enters(calls[1], UNWRAP_WETH9) && calls[1].len() == 68
        }),
{
    let r = resolved_pair(pool.assets@, ctx.weth, amount.currency, other, opts)->Ok_0;
    let sqrt = sqrt_limit(opts.price_limit is Some, limit_x96, route.hops.len())->Ok_0;
    let router = pool.router_of(ctx)->Ok_0;
    let limit = opts.slippage.min_out(quoted).raw;
    let p = single_params(&pool, router, r, amount.raw, limit, sqrt);
    let swap = uniswap_v3::call_by_fee(uniswap_v3::EXACT_INPUT_SINGLE, pool.fee_pips, p);
    let calls = if r.native_out {
        seq![swap, unwrap_call(limit, r.recipient)]
    } else {
        seq![swap]
    };
    let deadline = Some(r.deadline.value() as u64);
    assert(v.data == multicall_data(deadline, calls));
    batches_take_their_entrypoint(deadline, calls);
    multicall_reads_back(deadline, calls);
    lemma_calls_are_shorter(deadline, calls, 0);
    lemma_fee_call(uniswap_v3::EXACT_INPUT_SINGLE, pool.fee_pips, p);
    lemma_unwrap_call(limit, r.recipient);
}

/// A Uniswap V3 exact-out swap calls the configured router and swaps its input for
/// its output on the pool of that fee. Native output is unwrapped behind it, or
/// left-over ETH refunded.
pub proof fn v3_exact_out_trades_the_pool(
    pool: UniswapV3Pool,
    ctx: ChainConfig,
    amount: CurrencyAmount,
    other: Currency,
    route: RouteView,
    quoted: AssetAmount,
    limit_x96: Result<U256, QuoteError>,
    opts: OptionsView,
    v: SwapView,
)
    requires
        pool.exact_out_outcome(ctx, amount, other, route, quoted, limit_x96, opts) == Ok::<
            SwapView,
            BuildError,
        >(v),
        v.data.len() < two_256(),
    ensures
        ctx.routers.v3 == Some(v.to),
        enters(v.data, MULTICALL_WITH_DEADLINE),
        ({
            let calls = read_bytes_list(arguments(v.data), 1);
            &&& calls.len() == (if amount.currency is Native || other is Native {
                2int
            } else {
                1
            })
            &&& enters(calls[0], uniswap_v3::EXACT_OUTPUT_SINGLE)
            &&& calls[0].len() == 228
            &&& names(calls[0], 0, moved(other, ctx.weth).address())
            &&& names(calls[0], 1, moved(amount.currency, ctx.weth).address())
            &&& read_word(arguments(calls[0]), 2) == word(pool.fee_pips as nat)
            &&& amount.currency is Native ==> enters(calls[1], UNWRAP_WETH9) && calls[1].len() == 68
            &&& other is Native ==> calls[1] == be_bytes(REFUND_ETH as nat, 4)
        }),
{
    let r = resolved_pair(pool.assets@, ctx.weth, other, amount.currency, opts)->Ok_0;
    let sqrt = sqrt_limit(opts.price_limit is Some, limit_x96, route.hops.len())->Ok_0;
    let router = pool.router_of(ctx)->Ok_0;
    let limit = opts.slippage.max_in(quoted).raw;
    let p = single_params(&pool, router, r, amount.raw, limit, sqrt);
    let swap = uniswap_v3::call_by_fee(uniswap_v3::EXACT_OUTPUT_SINGLE, pool.fee_pips, p);
    let calls = if r.native_in {
        seq![swap, refund_call()]
    } else if r.native_out {
        seq![swap, unwrap_call(amount.raw, r.recipient)]
    } else {
        seq![swap]
    };
    let deadline = Some(r.deadline.value() as u64);
    assert(v.data == multicall_data(deadline, calls));
    batches_take_their_entrypoint(deadline, calls);
    multicall_reads_back(deadline, calls);
    lemma_calls_are_shorter(deadline, calls, 0);
    lemma_fee_call(uniswap_v3::EXACT_OUTPUT_SINGLE, pool.fee_pips, p);
    lemma_unwrap_call(amount.raw, r.recipient);
}

/// A Slipstream exact-in swap calls the configured router and swaps its input for
/// its output on the pool of that tick spacing. Native output is unwrapped behind it.
pub proof fn slipstream_exact_in_trades_the_pool(
    pool: AerodromeSlipstreamPool,
    ctx: ChainConfig,
    amount: CurrencyAmount,
    other: Currency,
    route: RouteView,
    quoted: AssetAmount,
    limit_x96: Result<U256, QuoteError>,
    opts: OptionsView,
    v: SwapView,
)
    requires
        pool.exact_in_outcome(ctx, amount, other, route, quoted, limit_x96, opts) == Ok::<
            SwapView,
            BuildError,
        >(v),
        v.data.len() < two_256(),
    ensures
        ctx.routers.slipstream == Some(v.to),
        other is Native ==> enters(v.data, MULTICALL),
        ({
            let calls = if other is Native {
                read_bytes_list(arguments(v.data), 0)
            } else {
                seq![v.data]
            };
            &&& calls.len() == (if other is Native {
                2int
            } else {
                1
            })
            &&& enters(calls[0], slipstream::EXACT_INPUT_SINGLE)
            &&& calls[0].len() == 260
            &&& names(calls[0], 0, moved(amount.currency, ctx.weth).address())
            &&& names(calls[0], 1, moved(other, ctx.weth).address())
            &&& read_word(arguments(calls[0]), 2) == int_word(pool.tick_spacing as int)
            &&& other is Native ==> enters(calls[1], UNWRAP_WETH9) && calls[1].len() == 68
        }),
{
    let r = resolved_pair(pool.assets@, ctx.weth, amount.currency, other, opts)->Ok_0;
    let sqrt = sqrt_limit(opts.price_limit is Some, limit_x96, 2)->Ok_0;
    let router = pool.router_of(ctx)->Ok_0;
    let limit = opts.slippage.min_out(quoted).raw;
    let p = single_params(&pool, router, r, amount.raw, limit, sqrt);
    let swap = slipstream::call_by_spacing(slipstream::EXACT_INPUT_SINGLE, pool.tick_spacing, p);
    let calls = if r.native_out {
        seq![swap, unwrap_call(limit, r.recipient)]
    } else {
        seq![swap]
    };
    let deadline = None::<u64>;
    assert(v.data == multicall_data(deadline, calls));
    batches_take_their_entrypoint(deadline, calls);
    if calls.len() != 1 {
        multicall_reads_back(deadline, calls);
        lemma_calls_are_shorter(deadline, calls, 0);
    }
    lemma_spacing_call(slipstream::EXACT_INPUT_SINGLE, pool.tick_spacing, p);
    lemma_unwrap_call(limit, r.recipient);
}

/// A Slipstream exact-out swap calls the configured router and swaps its input for
/// its output on the pool of that tick spacing. Native output is unwrapped behind it, or
/// left-over ETH refunded.
pub proof fn slipstream_exact_out_trades_the_pool(
    pool: AerodromeSlipstreamPool,
    ctx: ChainConfig,
    amount: CurrencyAmount,
    other: Currency,
    route: RouteView,
    quoted: AssetAmount,
    limit_x96: Result<U256, QuoteError>,
    opts: OptionsView,
    v: SwapView,
)
    requires
        pool.exact_out_outcome(ctx, amount, other, route, quoted, limit_x96, opts) == Ok::<
            SwapView,
            BuildError,
        >(v),
        v.data.len() < two_256(),
    ensures
        ctx.routers.slipstream == Some(v.to),
        amount.currency is Native || other is Native ==> enters(v.data, MULTICALL),
        ({
            let calls = if amount.currency is Native || other is Native {
                read_bytes_list(arguments(v.data), 0)
            } else {
                seq![v.data]
            };
            &&& calls.len() == (if amount.currency is Native || other is Native {
                2int
            } else {
                1
            })
            &&& enters(calls[0], slipstream::EXACT_OUTPUT_SINGLE)
            &&& calls[0].len() == 260
            &&& names(calls[0], 0, moved(other, ctx.weth).address())
            &&& names(calls[0], 1, moved(amount.currency, ctx.weth).address())
            &&& read_word(arguments(calls[0]), 2) == int_word(pool.tick_spacing as int)
            &&& amount.currency is Native ==> enters(calls[1], UNWRAP_WETH9) && calls[1].len() == 68
            &&& other is Native ==> calls[1] == be_bytes(REFUND_ETH as nat, 4)
        }),
{
    let r = resolved_pair(pool.assets@, ctx.weth, other, amount.currency, opts)->Ok_0;
    let sqrt = sqrt_limit(opts.price_limit is Some, limit_x96, 2)->Ok_0;
    let router = pool.router_of(ctx)->Ok_0;
    let limit = opts.slippage.max_in(quoted).raw;
    let p = single_params(&pool, router, r, amount.raw, limit, sqrt);
    let swap = slipstream::call_by_spacing(slipstream::EXACT_OUTPUT_SINGLE, pool.tick_spacing, p);
    let calls = if r.native_in {
        seq![swap, refund_call()]
    } else if r.native_out {
        seq![swap, unwrap_call(amount.raw, r.recipient)]
    } else {
        seq![swap]
    };
    let deadline = None::<u64>;
    assert(v.data == multicall_data(deadline, calls));
    batches_take_their_entrypoint(deadline, calls);
    if calls.len() != 1 {
        multicall_reads_back(deadline, calls);
        lemma_calls_are_shorter(deadline, calls, 0);
    }
    lemma_spacing_call(slipstream::EXACT_OUTPUT_SINGLE, pool.tick_spacing, p);
    lemma_unwrap_call(amount.raw, r.recipient);
}

/// Whether ETH has to be wrapped or unwrapped around a Uniswap V4 swap: a side is
/// native, the pool holds WETH, and it does not hold ETH itself.
pub open spec fn needs_weth(
    pool: UniswapV4Pool,
    ctx: ChainConfig,
    input: Currency,
    output: Currency,
) -> bool {
    let (c0, c1) = (pool.assets@[0].address(), pool.assets@[1].address());
    let weth = ctx.weth.address();
    &&& input is Native || output is Native
    &&& c0 == weth || c1 == weth
    &&& c0 != Address::zero() && c1 != Address::zero()
}

/// The address that a side of a Uniswap V4 swap goes by: WETH or the zero address
/// for the native token.
pub open spec fn v4_currency(side: Currency, wrap: bool, ctx: ChainConfig) -> Address {
    match side {
        Currency::Native => if wrap {
            ctx.weth.address()
        } else {
            Address::zero()
        },
        Currency::Token(a) => a.address(),
    }
}

/// Whether the input of a `V4_SWAP` command swaps on this pool, in the direction
/// from `input`, and holds no hook data.
pub open spec fn swaps_on(swap_input: Seq<u8>, pool: UniswapV4Pool, input: Address) -> bool {
    let params = read_bytes_list(swap_input, 1);
    let tuple = params[0].skip(32);
    &&& params.len() == 3
    &&& read_word(params[0], 0) == word(32)
    &&& read_word(tuple, 0) == address_word(pool.assets@[0].address().bytes())
    &&& read_word(tuple, 1) == address_word(pool.assets@[1].address().bytes())
    &&& read_word(tuple, 2) == word(pool.key_fee as nat)
    &&& read_word(tuple, 3) == int_word(pool.tick_spacing as int)
    &&& read_word(tuple, 4) == address_word(pool.hooks_address.bytes())
    &&& read_word(tuple, 5) == word(
        if input == pool.assets@[0].address() {
            1
        } else {
            0
        },
    )
    &&& read_bytes(tuple, 8) == Seq::<u8>::empty()
}

/// Whether the input of a `V4_SWAP` command runs these three actions, pays up to
/// `spend` of `input`, out of the router's own balance where `from_router`, and
/// takes all of `output` to `payee`.
pub open spec fn settles(
    swap_input: Seq<u8>,
    swap_action: u8,
    from_router: bool,
    input: Address,
    spend: U256,
    output: Address,
    payee: Address,
) -> bool {
    let params = read_bytes_list(swap_input, 1);
    &&& read_bytes(swap_input, 0) == seq![
        swap_action,
        if from_router {
            uniswap_v4::ACTION_SETTLE
        } else {
            uniswap_v4::ACTION_SETTLE_ALL
        },
        uniswap_v4::ACTION_TAKE,
    ]
    &&& params.len() == 3
    &&& read_word(params[1], 0) == address_word(input.bytes())
    &&& from_router ==> params[1].len() == 96 && read_word(params[1], 1) == word(0) && read_word(
        params[1],
        2,
    ) == word(0)
    &&& !from_router ==> params[1].len() == 64 && read_word(params[1], 1) == word(spend.value())
    &&& params[2].len() == 96
    &&& read_word(params[2], 0) == address_word(output.bytes())
    &&& read_word(params[2], 1) == address_word(payee.bytes())
    &&& read_word(params[2], 2) == word(0)
}

/// Whether a command input names an address and an amount.
pub open spec fn pays_out(command_input: Seq<u8>, a: Address, amount: nat) -> bool {
    &&& command_input.len() == 64
    &&& read_word(command_input, 0) == address_word(a.bytes())
    &&& read_word(command_input, 1) == word(amount)
}

proof fn lemma_pays_out(a: Address, amount: U256)
    ensures
        pays_out(uniswap_v4::address_amount(a, amount), a, amount.value()),
{
    lemma_lengths();
    let slots = seq![address_slot(a), uint_slot(amount)];
    lemma_heads_len(slots, 2);
    reveal_with_fuel(tails, 3);
    lemma_whole(slots);
    word_reads_back(layout(slots), slots, 0);
    word_reads_back(layout(slots), slots, 1);
}

/// Three words, read one by one.
proof fn lemma_three_words(a: Slot, b: Slot, c: Slot)
    requires
        one_word_each(seq![a, b, c]),
        a is Word,
        b is Word,
        c is Word,
    ensures
        ({
            let args = layout(seq![a, b, c]);
            &&& args.len() == 96
            &&& read_word(args, 0) == a->Word_0
            &&& read_word(args, 1) == b->Word_0
            &&& read_word(args, 2) == c->Word_0
        }),
{
    let slots = seq![a, b, c];
    lemma_heads_len(slots, 3);
    reveal_with_fuel(tails, 4);
    lemma_whole(slots);
    word_reads_back(layout(slots), slots, 0);
    word_reads_back(layout(slots), slots, 1);
    word_reads_back(layout(slots), slots, 2);
}

/// The key and the direction in the parameters of a swap action.
proof fn lemma_swap_params(
    key: uniswap_v4::PoolKey,
    zero_for_one: bool,
    amount: nat,
    limit: nat,
)
    requires
        uniswap_v4::swap_params(key, zero_for_one, amount, limit).len() < two_256(),
    ensures
        ({
            let params = uniswap_v4::swap_params(key, zero_for_one, amount, limit);
            let tuple = params.skip(32);
            &&& read_word(params, 0) == word(32)
            &&& read_word(tuple, 0) == address_word(key.currency0.bytes())
            &&& read_word(tuple, 1) == address_word(key.currency1.bytes())
            &&& read_word(tuple, 2) == word(key.fee as nat)
            &&& read_word(tuple, 3) == int_word(key.tick_spacing as int)
            &&& read_word(tuple, 4) == address_word(key.hooks.bytes())
            &&& read_word(tuple, 5) == bool_word(zero_for_one)
            &&& read_bytes(tuple, 8) == Seq::<u8>::empty()
        }),
{
    lemma_lengths();
    let slots = seq![
        address_slot(key.currency0),
        address_slot(key.currency1),
        Slot::Word(word(key.fee as nat)),
        Slot::Word(int_word(key.tick_spacing as int)),
        address_slot(key.hooks),
        Slot::Word(bool_word(zero_for_one)),
        Slot::Word(word(amount)),
        Slot::Word(word(limit)),
        Slot::Tail(bytes_tail(Seq::empty())),
    ];
    let tuple = layout(slots);
    let outer = seq![Slot::Tail(tuple)];
    reveal_with_fuel(heads, 2);
    reveal_with_fuel(tails, 2);
    assert(heads(outer, 1) =~= word(32));
    assert(tails(outer, 1) =~= tuple);
    assert(layout(outer) =~= word(32) + tuple);
    assert(layout(outer).skip(32) =~= tuple);
    assert(read_word(layout(outer), 0) =~= word(32));
    lemma_whole(slots);
    word_reads_back(tuple, slots, 0);
    word_reads_back(tuple, slots, 1);
    word_reads_back(tuple, slots, 2);
    word_reads_back(tuple, slots, 3);
    word_reads_back(tuple, slots, 4);
    word_reads_back(tuple, slots, 5);
    bytes_read_back(tuple, slots, 8, Seq::empty());
}

/// The settle and the take of a `V4_SWAP` input.
proof fn lemma_settle_and_take(
    from_router: bool,
    input: Address,
    spend: U256,
    output: Address,
    payee: Address,
)
    ensures
        ({
            let settle = uniswap_v4::settle_params(from_router, input, spend);
            let take = uniswap_v4::take_params(output, payee);
            &&& read_word(settle, 0) == address_word(input.bytes())
            &&& from_router ==> settle.len() == 96 && read_word(settle, 1) == word(0) && read_word(
                settle,
                2,
            ) == word(0)
            &&& !from_router ==> settle.len() == 64 && read_word(settle, 1) == word(spend.value())
            &&& take.len() == 96
            &&& read_word(take, 0) == address_word(output.bytes())
            &&& read_word(take, 1) == address_word(payee.bytes())
            &&& read_word(take, 2) == word(0)
        }),
{
    lemma_lengths();
    lemma_pays_out(input, spend);
    let zero = uint_slot(uniswap_v4::open_delta());
    assert(zero == Slot::Word(word(0)));
    lemma_three_words(address_slot(input), zero, Slot::Word(bool_word(false)));
    lemma_three_words(address_slot(output), address_slot(payee), zero);
}

/// The `V4_SWAP` input of an order, read back.
proof fn lemma_order_swap(pool: UniswapV4Pool, o: uniswap_v4::Order, key: uniswap_v4::PoolKey)
    requires
        uniswap_v4::pool_key(pool) == Ok::<uniswap_v4::PoolKey, BuildError>(key),
        o.swap_input(key).len() < two_256(),
    ensures
        swaps_on(o.swap_input(key), pool, o.r.input.address()),
        settles(
            o.swap_input(key),
            uniswap_v4::swap_action(o.trade),
            o.wraps_input(),
            o.r.input.address(),
            o.spend,
            o.r.output.address(),
            if o.unwraps_output() {
                address_this()
            } else {
                o.r.recipient
            },
        ),
{
    let input = o.r.input.address();
    let output = o.r.output.address();
    let (fixed, bound) = match o.trade {
        TradeType::ExactIn => (o.spend, o.payout),
        TradeType::ExactOut => (o.payout, o.spend),
    };
    let payee = if o.unwraps_output() {
        address_this()
    } else {
        o.r.recipient
    };
    let zero_for_one = input == key.currency0;
    let swap = uniswap_v4::swap_params(key, zero_for_one, fixed.value(), bound.value());
    let settle = uniswap_v4::settle_params(o.wraps_input(), input, o.spend);
    let take = uniswap_v4::take_params(output, payee);
    let params = seq![swap, settle, take];
    let actions = uniswap_v4::action_bytes(o.trade, o.wraps_input());
    assert(o.swap_input(key) == uniswap_v4::v4_swap_input(actions, params));
    lemma_action_parts(actions, params);
    lemma_swap_params(key, zero_for_one, fixed.value(), bound.value());
    lemma_settle_and_take(o.wraps_input(), input, o.spend, output, payee);
}

/// The actions and the parameters of a `V4_SWAP` input read back.
proof fn lemma_action_parts(actions: Seq<u8>, params: Seq<Seq<u8>>)
    requires
        uniswap_v4::v4_swap_input(actions, params).len() < two_256(),
        params.len() == 3,
    ensures
        read_bytes(uniswap_v4::v4_swap_input(actions, params), 0) == actions,
        read_bytes_list(uniswap_v4::v4_swap_input(actions, params), 1) == params,
        params[0].len() < two_256(),
{
    let slots = seq![Slot::Tail(bytes_tail(actions)), Slot::Tail(bytes_list_tail(params))];
    lemma_swap_input(actions, params);
    assert(one_word_each(slots));
    lemma_whole(slots);
    bytes_read_back(layout(slots), slots, 0, actions);
    lemma_parts_are_shorter(slots, 1, params, 0);
}

/// The stream of an order, read out of its calldata.
proof fn lemma_order(
    pool: UniswapV4Pool,
    o: uniswap_v4::Order,
    key: uniswap_v4::PoolKey,
    deadline: u64,
)
    requires
        uniswap_v4::pool_key(pool) == Ok::<uniswap_v4::PoolKey, BuildError>(key),
        execute_data(o.commands(), o.inputs(key), deadline).len() < two_256(),
    ensures
        ({
            let data = execute_data(o.commands(), o.inputs(key), deadline);
            &&& enters(data, EXECUTE)
            &&& read_bytes(arguments(data), 0) == o.commands()
            &&& read_bytes_list(arguments(data), 1) == o.inputs(key)
            &&& swaps_on(o.swap_input(key), pool, o.r.input.address())
            &&& settles(
                o.swap_input(key),
                uniswap_v4::swap_action(o.trade),
                o.wraps_input(),
                o.r.input.address(),
                o.spend,
                o.r.output.address(),
                if o.unwraps_output() {
                    address_this()
                } else {
                    o.r.recipient
                },
            )
        }),
{
    lemma_lengths();
    let inputs = o.inputs(key);
    let slots = seq![
        Slot::Tail(bytes_tail(o.commands())),
        Slot::Tail(bytes_list_tail(inputs)),
        Slot::Word(word(deadline as nat)),
    ];
    execute_reads_back(o.commands(), inputs, deadline);
    lemma_enters(EXECUTE, layout(slots));
    let at = if o.wraps_input() {
        1int
    } else {
        0
    };
    assert(inputs[at] == o.swap_input(key));
    lemma_parts_are_shorter(slots, 1, inputs, at);
    lemma_order_swap(pool, o, key);
}

/// The zero asset stands at the zero address.
proof fn lemma_zero_asset(chain: ChainId)
    ensures
        (AssetId { chain, token: B256(U256::zero()) }).address() == Address::zero(),
{
}

/// A Uniswap V4 exact-in swap calls the Universal Router and swaps on the very
/// pool: its currencies in order, its fee, its tick spacing and its hooks, from
/// the input's side. It pays the input and takes the output, and around a pool
/// that holds WETH it wraps the ETH that is attached, or unwraps to the recipient.
pub proof fn v4_exact_in_trades_the_pool(
    pool: UniswapV4Pool,
    ctx: ChainConfig,
    amount: CurrencyAmount,
    other: Currency,
    route: RouteView,
    quoted: AssetAmount,
    limit_x96: Result<U256, QuoteError>,
    opts: OptionsView,
    v: SwapView,
)
    requires
        pool.exact_in_outcome(ctx, amount, other, route, quoted, limit_x96, opts) == Ok::<
            SwapView,
            BuildError,
        >(v),
        v.data.len() < two_256(),
    ensures
        ctx.routers.universal == Some(v.to),
        enters(v.data, EXECUTE),
        opts.recipient is To,
        ({
            let commands = read_bytes(arguments(v.data), 0);
            let inputs = read_bytes_list(arguments(v.data), 1);
            let wrap = needs_weth(pool, ctx, amount.currency, other);
            let input = v4_currency(amount.currency, wrap, ctx);
            let output = v4_currency(other, wrap, ctx);
            let from_router = wrap && amount.currency is Native;
            let to_router = wrap && other is Native;
            let at = if from_router {
                1int
            } else {
                0
            };
            &&& inputs.len() == commands.len()
            &&& swaps_on(inputs[at], pool, input)
            &&& settles(
                inputs[at],
                uniswap_v4::ACTION_SWAP_EXACT_IN_SINGLE,
                from_router,
                input,
                amount.raw,
                output,
                if to_router {
                    address_this()
                } else {
                    opts.recipient->To_0
                },
            )
            &&& if from_router {
                &&& commands == seq![WRAP_ETH, V4_SWAP]
                &&& pays_out(inputs[0], address_this(), v.value.value())
            } else if to_router {
                &&& commands == seq![V4_SWAP, UNWRAP_WETH]
                &&& pays_out(inputs[1], opts.recipient->To_0, v.min_received.raw.value())
            } else {
                commands == seq![V4_SWAP]
            }
        }),
{
    let trade = TradeType::ExactIn;
    let key = uniswap_v4::pool_key(pool)->Ok_0;
    let (wrap, r) = uniswap_v4::v4_sides(
        pool.assets@,
        key,
        ctx,
        amount.currency,
        other,
        route,
        opts,
        trade,
    )->Ok_0;
    let spend = amount.raw;
    let payout = opts.slippage.min_out(quoted).raw;
    let o = uniswap_v4::Order { trade, wrap, r, spend, payout };
    let deadline = r.deadline.value() as u64;
    assert(v.data == execute_data(o.commands(), o.inputs(key), deadline));
    lemma_zero_asset(ctx.chain);
    assert(wrap == needs_weth(pool, ctx, amount.currency, other));
    assert(r.input.address() == v4_currency(amount.currency, wrap, ctx));
    assert(r.output.address() == v4_currency(other, wrap, ctx));
    lemma_order(pool, o, key, deadline);
    lemma_pays_out(address_this(), spend);
    lemma_pays_out(r.recipient, payout);
    lemma_pays_out(r.recipient, U256::zero());
    assert(U256::zero().value() == 0);
}

/// A Uniswap V4 exact-out swap calls the Universal Router and swaps on the very
/// pool: its currencies in order, its fee, its tick spacing and its hooks, from
/// the input's side. It pays the input and takes the output, and around a pool
/// that holds WETH it wraps the ETH that is attached, or unwraps to the recipient.
pub proof fn v4_exact_out_trades_the_pool(
    pool: UniswapV4Pool,
    ctx: ChainConfig,
    amount: CurrencyAmount,
    other: Currency,
    route: RouteView,
    quoted: AssetAmount,
    limit_x96: Result<U256, QuoteError>,
    opts: OptionsView,
    v: SwapView,
)
    requires
        pool.exact_out_outcome(ctx, amount, other, route, quoted, limit_x96, opts) == Ok::<
            SwapView,
            BuildError,
        >(v),
        v.data.len() < two_256(),
    ensures
        v.max_spent is Some,
        ctx.routers.universal == Some(v.to),
        enters(v.data, EXECUTE),
        opts.recipient is To,
        ({
            let commands = read_bytes(arguments(v.data), 0);
            let inputs = read_bytes_list(arguments(v.data), 1);
            let wrap = needs_weth(pool, ctx, other, amount.currency);
            let input = v4_currency(other, wrap, ctx);
            let output = v4_currency(amount.currency, wrap, ctx);
            let from_router = wrap && other is Native;
            let to_router = wrap && amount.currency is Native;
            let at = if from_router {
                1int
            } else {
                0
            };
            &&& inputs.len() == commands.len()
            &&& swaps_on(inputs[at], pool, input)
            &&& settles(
                inputs[at],
                uniswap_v4::ACTION_SWAP_EXACT_OUT_SINGLE,
                from_router,
                input,
                v.max_spent->0.raw,
                output,
                if to_router {
                    address_this()
                } else {
                    opts.recipient->To_0
                },
            )
            &&& if from_router {
                &&& commands == seq![WRAP_ETH, V4_SWAP, UNWRAP_WETH]
                &&& pays_out(inputs[0], address_this(), v.value.value())
                &&& pays_out(inputs[2], opts.recipient->To_0, 0)
            } else if to_router {
                &&& commands == seq![V4_SWAP, UNWRAP_WETH]
                &&& pays_out(inputs[1], opts.recipient->To_0, amount.raw.value())
            } else {
                commands == seq![V4_SWAP]
            }
        }),
{
    let trade = TradeType::ExactOut;
    let key = uniswap_v4::pool_key(pool)->Ok_0;
    let (wrap, r) = uniswap_v4::v4_sides(
        pool.assets@,
        key,
        ctx,
        other,
        amount.currency,
        route,
        opts,
        trade,
    )->Ok_0;
    let spend = opts.slippage.max_in(quoted).raw;
    let payout = amount.raw;
    let o = uniswap_v4::Order { trade, wrap, r, spend, payout };
    let deadline = r.deadline.value() as u64;
    assert(v.data == execute_data(o.commands(), o.inputs(key), deadline));
    lemma_zero_asset(ctx.chain);
    assert(wrap == needs_weth(pool, ctx, other, amount.currency));
    assert(r.input.address() == v4_currency(other, wrap, ctx));
    assert(r.output.address() == v4_currency(amount.currency, wrap, ctx));
    lemma_order(pool, o, key, deadline);
    lemma_pays_out(address_this(), spend);
    lemma_pays_out(r.recipient, payout);
    lemma_pays_out(r.recipient, U256::zero());
    assert(U256::zero().value() == 0);
}

} // verus!
