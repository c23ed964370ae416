//! What the quote of an exact-in swap decides: its output floor, and nothing
//! else.
use crate::abi::{
    address_list_tail, address_slot, bool_word, bytes_list_tail, bytes_tail, heads, int_word,
    layout, static_list_tail, tails, uint_slot, word, zeros, Slot,
};
use crate::asset::{AssetAmount, QuoteError};
use crate::execution::config::ChainConfig;
use crate::execution::error::BuildError;
use crate::execution::executable::{pool_exact_in, Executable};
use crate::execution::multicall::{multicall_data, MULTICALL, MULTICALL_WITH_DEADLINE};
use crate::execution::options::OptionsView;
use crate::execution::prepared::{RouteView, SwapView};
use crate::execution::protocols::common::{
    resolved_pair, resolved_swap, sqrt_limit, ResolvedSwap,
};
use crate::execution::protocols::swaprouter02::{
    single_params, unwrap_call, SingleParams, SwapRouter02, UNWRAP_WETH9,
};
use crate::execution::protocols::{aerodrome, curve, slipstream, uniswap_v2, uniswap_v3, uniswap_v4};
use crate::execution::route_planner::{address_this, address_views, execute_data, EXECUTE};
use crate::execution::types::{Currency, CurrencyAmount, TradeType};
use crate::pools::{
    AerodromeSlipstreamPool, AerodromeStablePool, AerodromeVolatilePool, CurveInterface, CurvePool,
    Pool, UniswapV2Pool, UniswapV3Pool, UniswapV4Pool,
};
use crate::primitives::{be_bytes, two_128, Address, U256};
use crate::reading::lemma_lengths;
use vstd::prelude::*;

verus! {

/// Whether the 32 bytes at `w` are `x` in one byte string and `y` in the other.
pub open spec fn window(a: Seq<u8>, b: Seq<u8>, x: nat, y: nat, w: int) -> bool {
    &&& 0 <= w
    &&& w + 32 <= a.len()
    &&& w + 32 <= b.len()
    &&& a.subrange(w, w + 32) == word(x)
    &&& b.subrange(w, w + 32) == word(y)
}

/// Whether byte `i` lies in a word that is `x` in one byte string and `y` in the
/// other.
pub open spec fn in_window(a: Seq<u8>, b: Seq<u8>, x: nat, y: nat, i: int) -> bool {
    exists|w: int| #[trigger] window(a, b, x, y, w) && w <= i < w + 32
}

/// Whether two byte strings are as long as one another and differ only in words
/// that are `x` in the one and `y` in the other.
pub open spec fn differ_only_by(a: Seq<u8>, b: Seq<u8>, x: nat, y: nat) -> bool {
    &&& a.len() == b.len()
    &&& forall|i: int|
        0 <= i < a.len() && a[i] != b[i] ==> #[trigger] in_window(a, b, x, y, i)
}

/// Whether two swaps are the same but for their output floors: those stand in
/// place of one another in the promise and in the calldata.
pub open spec fn same_but_floor(v: SwapView, w: SwapView) -> bool {
    &&& v.chain == w.chain
    &&& v.to == w.to
    &&& v.value == w.value
    &&& v.min_received.asset == w.min_received.asset
    &&& v.max_spent == w.max_spent
    &&& v.approval == w.approval
    &&& v.price_impact == w.price_impact
    &&& differ_only_by(v.data, w.data, v.min_received.raw.value(), w.min_received.raw.value())
}

proof fn lemma_same(a: Seq<u8>, x: nat, y: nat)
    ensures
        differ_only_by(a, a, x, y),
{
}

proof fn lemma_word(x: nat, y: nat)
    ensures
        differ_only_by(word(x), word(y), x, y),
{
    lemma_lengths();
    let (a, b) = (word(x), word(y));
    assert(a.len() == 32 && b.len() == 32);
    assert forall|i: int| 0 <= i < a.len() && a[i] != b[i] implies #[trigger] in_window(
        a,
        b,
        x,
        y,
        i,
    ) by {
        assert(a.subrange(0, 32) =~= a);
        assert(b.subrange(0, 32) =~= b);
        assert(window(a, b, x, y, 0));
    }
}

proof fn lemma_concat(a: Seq<u8>, b: Seq<u8>, c: Seq<u8>, d: Seq<u8>, x: nat, y: nat)
    requires
        differ_only_by(a, b, x, y),
        differ_only_by(c, d, x, y),
    ensures
        differ_only_by(a + c, b + d, x, y),
{
    let n = a.len() as int;
    let (l, r) = (a + c, b + d);
    assert forall|i: int| 0 <= i < l.len() && l[i] != r[i] implies #[trigger] in_window(
        l,
        r,
        x,
        y,
        i,
    ) by {
        if i < n {
            assert(in_window(a, b, x, y, i));
            let w = choose|w: int| #[trigger] window(a, b, x, y, w) && w <= i < w + 32;
            assert(l.subrange(w, w + 32) =~= a.subrange(w, w + 32));
            assert(r.subrange(w, w + 32) =~= b.subrange(w, w + 32));
            assert(window(l, r, x, y, w));
        } else {
            assert(in_window(c, d, x, y, i - n));
            let w = choose|w: int| #[trigger] window(c, d, x, y, w) && w <= i - n < w + 32;
            assert(l.subrange(n + w, n + w + 32) =~= c.subrange(w, w + 32));
            assert(r.subrange(n + w, n + w + 32) =~= d.subrange(w, w + 32));
            assert(window(l, r, x, y, n + w));
        }
    }
}

/// Whether two arguments are of one kind and differ only by `x` and `y`.
spec fn slots_alike(p: Slot, q: Slot, x: nat, y: nat) -> bool {
    match (p, q) {
        (Slot::Word(a), Slot::Word(b)) => differ_only_by(a, b, x, y),
        (Slot::Tail(a), Slot::Tail(b)) => differ_only_by(a, b, x, y),
        _ => false,
    }
}

spec fn lists_alike(p: Seq<Slot>, q: Seq<Slot>, x: nat, y: nat) -> bool {
    &&& p.len() == q.len()
    &&& forall|i: int| 0 <= i < p.len() ==> slots_alike(#[trigger] p[i], q[i], x, y)
}

proof fn lemma_tails(p: Seq<Slot>, q: Seq<Slot>, n: nat, x: nat, y: nat)
    requires
        lists_alike(p, q, x, y),
        n <= p.len(),
    ensures
        differ_only_by(tails(p, n), tails(q, n), x, y),
    decreases n,
{
    if n > 0 {
        let k = (n - 1) as nat;
        lemma_tails(p, q, k, x, y);
        assert(slots_alike(p[k as int], q[k as int], x, y));
        match (p[k as int], q[k as int]) {
            (Slot::Tail(a), Slot::Tail(b)) => {
                lemma_concat(tails(p, k), tails(q, k), a, b, x, y);
            },
            _ => {},
        }
    }
}

proof fn lemma_heads(p: Seq<Slot>, q: Seq<Slot>, n: nat, x: nat, y: nat)
    requires
        lists_alike(p, q, x, y),
        n <= p.len(),
    ensures
        differ_only_by(heads(p, n), heads(q, n), x, y),
    decreases n,
{
    if n > 0 {
        let k = (n - 1) as nat;
        lemma_heads(p, q, k, x, y);
        lemma_tails(p, q, k, x, y);
        assert(slots_alike(p[k as int], q[k as int], x, y));
        match (p[k as int], q[k as int]) {
            (Slot::Word(a), Slot::Word(b)) => {
                lemma_concat(heads(p, k), heads(q, k), a, b, x, y);
            },
            (Slot::Tail(_), Slot::Tail(_)) => {
                let offset = word(32 * p.len() + tails(p, k).len());
                lemma_concat(heads(p, k), heads(q, k), offset, offset, x, y);
            },
            _ => {},
        }
    }
}

proof fn lemma_layout(p: Seq<Slot>, q: Seq<Slot>, x: nat, y: nat)
    requires
        lists_alike(p, q, x, y),
    ensures
        differ_only_by(layout(p), layout(q), x, y),
{
    lemma_heads(p, q, p.len(), x, y);
    lemma_tails(p, q, p.len(), x, y);
    lemma_concat(
        heads(p, p.len()),
        heads(q, q.len()),
        tails(p, p.len()),
        tails(q, q.len()),
        x,
        y,
    );
}

proof fn lemma_call(selector: u32, p: Seq<Slot>, q: Seq<Slot>, x: nat, y: nat)
    requires
        lists_alike(p, q, x, y),
    ensures
        differ_only_by(
            be_bytes(selector as nat, 4) + layout(p),
            be_bytes(selector as nat, 4) + layout(q),
            x,
            y,
        ),
{
    lemma_layout(p, q, x, y);
    let s = be_bytes(selector as nat, 4);
    lemma_concat(s, s, layout(p), layout(q), x, y);
}

proof fn lemma_bytes_tail(a: Seq<u8>, b: Seq<u8>, x: nat, y: nat)
    requires
        differ_only_by(a, b, x, y),
    ensures
        differ_only_by(bytes_tail(a), bytes_tail(b), x, y),
{
    let n = word(a.len());
    let pad = zeros(((32 - a.len() % 32) % 32) as nat);
    lemma_concat(n, n, a, b, x, y);
    lemma_concat(n + a, n + b, pad, pad, x, y);
}

proof fn lemma_bytes_list_tail(a: Seq<Seq<u8>>, b: Seq<Seq<u8>>, x: nat, y: nat)
    requires
        a.len() == b.len(),
        forall|i: int| 0 <= i < a.len() ==> differ_only_by(#[trigger] a[i], b[i], x, y),
    ensures
        differ_only_by(bytes_list_tail(a), bytes_list_tail(b), x, y),
{
    let p = a.map_values(|s: Seq<u8>| Slot::Tail(bytes_tail(s)));
    let q = b.map_values(|s: Seq<u8>| Slot::Tail(bytes_tail(s)));
    assert forall|i: int| 0 <= i < p.len() implies slots_alike(#[trigger] p[i], q[i], x, y) by {
        assert(differ_only_by(a[i], b[i], x, y));
        lemma_bytes_tail(a[i], b[i], x, y);
    }
    lemma_layout(p, q, x, y);
    let n = word(a.len());
    lemma_concat(n, n, layout(p), layout(q), x, y);
}

/// A call along a path or legs, whose last amount is the floor.
proof fn lemma_list_call(
    selector: u32,
    before: Seq<U256>,
    list: Slot,
    r: ResolvedSwap,
    f: U256,
    g: U256,
)
    ensures
        differ_only_by(
            be_bytes(selector as nat, 4) + layout(
                before.push(f).map_values(|a: U256| uint_slot(a)) + seq![
                    list,
                    address_slot(r.recipient),
                    uint_slot(r.deadline),
                ],
            ),
            be_bytes(selector as nat, 4) + layout(
                before.push(g).map_values(|a: U256| uint_slot(a)) + seq![
                    list,
                    address_slot(r.recipient),
                    uint_slot(r.deadline),
                ],
            ),
            f.value(),
            g.value(),
        ),
{
    let rest = seq![list, address_slot(r.recipient), uint_slot(r.deadline)];
    let p = before.push(f).map_values(|a: U256| uint_slot(a)) + rest;
    let q = before.push(g).map_values(|a: U256| uint_slot(a)) + rest;
    lemma_word(f.value(), g.value());
    assert forall|i: int| 0 <= i < p.len() implies slots_alike(
        #[trigger] p[i],
        q[i],
        f.value(),
        g.value(),
    ) by {
        if i != before.len() {
            assert(p[i] == q[i]);
        }
    }
    lemma_call(selector, p, q, f.value(), g.value());
}

proof fn lemma_v2(r: ResolvedSwap, amount: U256, f: U256, g: U256)
    ensures
        differ_only_by(
            uniswap_v2::exact_in_call(r, amount, f),
            uniswap_v2::exact_in_call(r, amount, g),
            f.value(),
            g.value(),
        ),
{
    let path = Slot::Tail(
        address_list_tail(address_views(seq![r.input.address(), r.output.address()])),
    );
    let none = Seq::<U256>::empty();
    assert(none.push(f) =~= seq![f] && none.push(g) =~= seq![g]);
    assert(seq![amount].push(f) =~= seq![amount, f] && seq![amount].push(g) =~= seq![amount, g]);
    if r.native_in {
        lemma_list_call(uniswap_v2::SWAP_EXACT_ETH_FOR_TOKENS, none, path, r, f, g);
    } else if r.native_out {
        lemma_list_call(uniswap_v2::SWAP_EXACT_TOKENS_FOR_ETH, seq![amount], path, r, f, g);
    } else {
        lemma_list_call(uniswap_v2::SWAP_EXACT_TOKENS_FOR_TOKENS, seq![amount], path, r, f, g);
    }
}

proof fn lemma_solidly(
    r: ResolvedSwap,
    stable: bool,
    factory: Address,
    amount: U256,
    f: U256,
    g: U256,
)
    ensures
        differ_only_by(
            aerodrome::exact_in_call(r, stable, factory, amount, f),
            aerodrome::exact_in_call(r, stable, factory, amount, g),
            f.value(),
            g.value(),
        ),
{
    let legs = Slot::Tail(static_list_tail(seq![aerodrome::leg(r, stable, factory)]));
    let none = Seq::<U256>::empty();
    assert(none.push(f) =~= seq![f] && none.push(g) =~= seq![g]);
    assert(seq![amount].push(f) =~= seq![amount, f] && seq![amount].push(g) =~= seq![amount, g]);
    if r.native_in {
        lemma_list_call(aerodrome::SWAP_EXACT_ETH_FOR_TOKENS, none, legs, r, f, g);
    } else if r.native_out {
        lemma_list_call(aerodrome::SWAP_EXACT_TOKENS_FOR_ETH, seq![amount], legs, r, f, g);
    } else {
        lemma_list_call(aerodrome::SWAP_EXACT_TOKENS_FOR_TOKENS, seq![amount], legs, r, f, g);
    }
}

proof fn lemma_curve(
    interface: CurveInterface,
    i: nat,
    j: nat,
    dx: U256,
    r: ResolvedSwap,
    f: U256,
    g: U256,
)
    ensures
        differ_only_by(
            curve::exchange_call(interface, i, j, dx, f, r),
            curve::exchange_call(interface, i, j, dx, g, r),
            f.value(),
            g.value(),
        ),
{
    let (x, y) = (f.value(), g.value());
    lemma_word(x, y);
    match interface {
        CurveInterface::StableI128 | CurveInterface::StableI128Ng => {
            let a = Slot::Word(int_word(i as int));
            let b = Slot::Word(int_word(j as int));
            let p = seq![a, b, uint_slot(dx), uint_slot(f)];
            let q = seq![a, b, uint_slot(dx), uint_slot(g)];
            lemma_call(curve::EXCHANGE_STABLE, p, q, x, y);
        },
        CurveInterface::CryptoU256UseEth => {
            let a = Slot::Word(word(i));
            let b = Slot::Word(word(j));
            let flag = Slot::Word(bool_word(r.native_in || r.native_out));
            let p = seq![a, b, uint_slot(dx), uint_slot(f), flag];
            let q = seq![a, b, uint_slot(dx), uint_slot(g), flag];
            lemma_call(curve::EXCHANGE_USE_ETH, p, q, x, y);
        },
        CurveInterface::CryptoU256Receiver => {
            let a = Slot::Word(word(i));
            let b = Slot::Word(word(j));
            let to = address_slot(r.recipient);
            let p = seq![a, b, uint_slot(dx), uint_slot(f), to];
            let q = seq![a, b, uint_slot(dx), uint_slot(g), to];
            lemma_call(curve::EXCHANGE_RECEIVER, p, q, x, y);
        },
    }
}

proof fn lemma_fee_call(selector: u32, fee: u32, p: SingleParams, g: U256)
    ensures
        differ_only_by(
            uniswap_v3::call_by_fee(selector, fee, p),
            uniswap_v3::call_by_fee(selector, fee, SingleParams { limit_amount: g, ..p }),
            p.limit_amount.value(),
            g.value(),
        ),
{
    let (x, y) = (p.limit_amount.value(), g.value());
    lemma_word(x, y);
    let a = seq![
        address_slot(p.token_in),
        address_slot(p.token_out),
        Slot::Word(word(fee as nat)),
        address_slot(p.recipient),
        uint_slot(p.amount),
        uint_slot(p.limit_amount),
        uint_slot(p.sqrt_limit),
    ];
    lemma_call(selector, a, a.update(5, uint_slot(g)), x, y);
    assert(a.update(5, uint_slot(g)) =~= seq![
        address_slot(p.token_in),
        address_slot(p.token_out),
        Slot::Word(word(fee as nat)),
        address_slot(p.recipient),
        uint_slot(p.amount),
        uint_slot(g),
        uint_slot(p.sqrt_limit),
    ]);
}

proof fn lemma_spacing_call(selector: u32, tick_spacing: i32, p: SingleParams, g: U256)
    ensures
        differ_only_by(
            slipstream::call_by_spacing(selector, tick_spacing, p),
            slipstream::call_by_spacing(
                selector,
                tick_spacing,
                SingleParams { limit_amount: g, ..p },
            ),
            p.limit_amount.value(),
            g.value(),
        ),
{
    let (x, y) = (p.limit_amount.value(), g.value());
    lemma_word(x, y);
    let a = seq![
        address_slot(p.token_in),
        address_slot(p.token_out),
        Slot::Word(int_word(tick_spacing as int)),
        address_slot(p.recipient),
        uint_slot(p.deadline),
        uint_slot(p.amount),
        uint_slot(p.limit_amount),
        uint_slot(p.sqrt_limit),
    ];
    lemma_call(selector, a, a.update(6, uint_slot(g)), x, y);
    assert(a.update(6, uint_slot(g)) =~= seq![
        address_slot(p.token_in),
        address_slot(p.token_out),
        Slot::Word(int_word(tick_spacing as int)),
        address_slot(p.recipient),
        uint_slot(p.deadline),
        uint_slot(p.amount),
        uint_slot(g),
        uint_slot(p.sqrt_limit),
    ]);
}

proof fn lemma_unwrap_call(recipient: Address, f: U256, g: U256)
    ensures
        differ_only_by(
            unwrap_call(f, recipient),
            unwrap_call(g, recipient),
            f.value(),
            g.value(),
        ),
{
    lemma_word(f.value(), g.value());
    let to = address_slot(recipient);
    lemma_call(
        UNWRAP_WETH9,
        seq![uint_slot(f), to],
        seq![uint_slot(g), to],
        f.value(),
        g.value(),
    );
}

proof fn lemma_multicall(
    deadline: Option<u64>,
    a: Seq<Seq<u8>>,
    b: Seq<Seq<u8>>,
    x: nat,
    y: nat,
)
    requires
        a.len() == b.len() > 0,
        forall|i: int| 0 <= i < a.len() ==> differ_only_by(#[trigger] a[i], b[i], x, y),
    ensures
        differ_only_by(multicall_data(deadline, a), multicall_data(deadline, b), x, y),
{
    lemma_bytes_list_tail(a, b, x, y);
    let (s, t) = (Slot::Tail(bytes_list_tail(a)), Slot::Tail(bytes_list_tail(b)));
    assert(differ_only_by(a[0], b[0], x, y));
    match deadline {
        None => {
            lemma_call(MULTICALL, seq![s], seq![t], x, y);
        },
        Some(d) => {
            let w = Slot::Word(word(d as nat));
            lemma_call(MULTICALL_WITH_DEADLINE, seq![w, s], seq![w, t], x, y);
        },
    }
}

proof fn lemma_swap_params(key: uniswap_v4::PoolKey, zero_for_one: bool, spend: nat, x: nat, y: nat)
    ensures
        differ_only_by(
            uniswap_v4::swap_params(key, zero_for_one, spend, x),
            uniswap_v4::swap_params(key, zero_for_one, spend, y),
            x,
            y,
        ),
{
    lemma_word(x, y);
    let body = seq![
        address_slot(key.currency0),
        address_slot(key.currency1),
        Slot::Word(word(key.fee as nat)),
        Slot::Word(int_word(key.tick_spacing as int)),
        address_slot(key.hooks),
        Slot::Word(bool_word(zero_for_one)),
        Slot::Word(word(spend)),
        Slot::Word(word(x)),
        Slot::Tail(bytes_tail(Seq::empty())),
    ];
    let changed = body.update(7, Slot::Word(word(y)));
    lemma_layout(body, changed, x, y);
    assert(changed =~= seq![
        address_slot(key.currency0),
        address_slot(key.currency1),
        Slot::Word(word(key.fee as nat)),
        Slot::Word(int_word(key.tick_spacing as int)),
        address_slot(key.hooks),
        Slot::Word(bool_word(zero_for_one)),
        Slot::Word(word(spend)),
        Slot::Word(word(y)),
        Slot::Tail(bytes_tail(Seq::empty())),
    ]);
    lemma_layout(seq![Slot::Tail(layout(body))], seq![Slot::Tail(layout(changed))], x, y);
}

/// The `V4_SWAP` input of an exact-in order under two floors.
proof fn lemma_swap_input(o: uniswap_v4::Order, key: uniswap_v4::PoolKey, g: U256)
    requires
        o.trade == TradeType::ExactIn,
    ensures
        differ_only_by(
            o.swap_input(key),
            (uniswap_v4::Order { payout: g, ..o }).swap_input(key),
            o.payout.value(),
            g.value(),
        ),
{
    let (x, y) = (o.payout.value(), g.value());
    let input = o.r.input.address();
    let zero_for_one = input == key.currency0;
    lemma_swap_params(key, zero_for_one, o.spend.value(), x, y);
    let payee = if o.unwraps_output() {
        address_this()
    } else {
        o.r.recipient
    };
    let settle = uniswap_v4::settle_params(o.wraps_input(), input, o.spend);
    let take = uniswap_v4::take_params(o.r.output.address(), payee);
    let a = seq![uniswap_v4::swap_params(key, zero_for_one, o.spend.value(), x), settle, take];
    let b = seq![uniswap_v4::swap_params(key, zero_for_one, o.spend.value(), y), settle, take];
    lemma_bytes_list_tail(a, b, x, y);
    let actions = Slot::Tail(bytes_tail(uniswap_v4::action_bytes(o.trade, o.wraps_input())));
    lemma_layout(
        seq![actions, Slot::Tail(bytes_list_tail(a))],
        seq![actions, Slot::Tail(bytes_list_tail(b))],
        x,
        y,
    );
}

/// The calldata of a command stream under two floors.
proof fn lemma_stream(
    commands: Seq<u8>,
    a: Seq<Seq<u8>>,
    b: Seq<Seq<u8>>,
    deadline: u64,
    x: nat,
    y: nat,
)
    requires
        a.len() == b.len(),
        forall|i: int| 0 <= i < a.len() ==> differ_only_by(#[trigger] a[i], b[i], x, y),
    ensures
        differ_only_by(
            execute_data(commands, a, deadline),
            execute_data(commands, b, deadline),
            x,
            y,
        ),
{
    lemma_bytes_list_tail(a, b, x, y);
    let c = Slot::Tail(bytes_tail(commands));
    let until = Slot::Word(word(deadline as nat));
    lemma_call(
        EXECUTE,
        seq![c, Slot::Tail(bytes_list_tail(a)), until],
        seq![c, Slot::Tail(bytes_list_tail(b)), until],
        x,
        y,
    );
}

/// The calldata of an exact-in order under two floors.
proof fn lemma_order(o: uniswap_v4::Order, key: uniswap_v4::PoolKey, g: U256, deadline: u64)
    requires
        o.trade == TradeType::ExactIn,
    ensures
        ({
            let other = uniswap_v4::Order { payout: g, ..o };
            differ_only_by(
                execute_data(o.commands(), o.inputs(key), deadline),
                execute_data(other.commands(), other.inputs(key), deadline),
                o.payout.value(),
                g.value(),
            )
        }),
{
    let other = uniswap_v4::Order { payout: g, ..o };
    let (x, y) = (o.payout.value(), g.value());
    lemma_swap_input(o, key, g);
    lemma_word(x, y);
    let to = address_slot(o.r.recipient);
    lemma_layout(seq![to, uint_slot(o.payout)], seq![to, uint_slot(g)], x, y);
    lemma_stream(o.commands(), o.inputs(key), other.inputs(key), deadline, x, y);
}

/// A swap call, and the unwrap of native output behind it, under two floors.
proof fn lemma_batch(
    deadline: Option<u64>,
    a: Seq<u8>,
    b: Seq<u8>,
    r: ResolvedSwap,
    f: U256,
    g: U256,
)
    requires
        differ_only_by(a, b, f.value(), g.value()),
    ensures
        ({
            let s = seq![a, unwrap_call(f, r.recipient)];
            let t = seq![b, unwrap_call(g, r.recipient)];
            differ_only_by(
                multicall_data(deadline, s),
                multicall_data(deadline, t),
                f.value(),
                g.value(),
            )
        }),
        differ_only_by(
            multicall_data(deadline, seq![a]),
            multicall_data(deadline, seq![b]),
            f.value(),
            g.value(),
        ),
{
    lemma_unwrap_call(r.recipient, f, g);
    lemma_multicall(
        deadline,
        seq![a, unwrap_call(f, r.recipient)],
        seq![b, unwrap_call(g, r.recipient)],
        f.value(),
        g.value(),
    );
    lemma_multicall(deadline, seq![a], seq![b], f.value(), g.value());
}

/// Whether two builds are the same but for their output floors, and, where the
/// pool's call `holds` both floors, refused alike.
pub open spec fn decided_by_floor(
    one: Result<SwapView, BuildError>,
    two: Result<SwapView, BuildError>,
    holds: bool,
) -> bool {
    &&& one is Ok && two is Ok ==> same_but_floor(one->Ok_0, two->Ok_0)
    &&& holds ==> (one is Ok <==> two is Ok) && (one is Err ==> one->Err_0 == two->Err_0)
}

proof fn lemma_v2_pool(
    p: UniswapV2Pool,
    ctx: ChainConfig,
    amount: CurrencyAmount,
    to: Currency,
    route: RouteView,
    quoted: AssetAmount,
    other_quoted: AssetAmount,
    limit_x96: Result<U256, QuoteError>,
    opts: OptionsView,
    other_opts: OptionsView,
)
    requires
        other_quoted.asset == quoted.asset,
        other_opts == (OptionsView { slippage: other_opts.slippage, ..opts }),
    ensures
        decided_by_floor(
            p.exact_in_outcome(ctx, amount, to, route, quoted, limit_x96, opts),
            p.exact_in_outcome(ctx, amount, to, route, other_quoted, limit_x96, other_opts),
            true,
        ),
{
    let f = opts.slippage.min_out(quoted).raw;
    let g = other_opts.slippage.min_out(other_quoted).raw;
    let r = resolved_swap(
        p.assets@,
        ctx.weth,
        amount.currency,
        to,
        route,
        opts,
        TradeType::ExactIn,
    )->Ok_0;
    lemma_v2(r, amount.raw, f, g);
}

proof fn lemma_stable_pool(
    p: AerodromeStablePool,
    ctx: ChainConfig,
    amount: CurrencyAmount,
    to: Currency,
    route: RouteView,
    quoted: AssetAmount,
    other_quoted: AssetAmount,
    limit_x96: Result<U256, QuoteError>,
    opts: OptionsView,
    other_opts: OptionsView,
)
    requires
        other_quoted.asset == quoted.asset,
        other_opts == (OptionsView { slippage: other_opts.slippage, ..opts }),
    ensures
        decided_by_floor(
            p.exact_in_outcome(ctx, amount, to, route, quoted, limit_x96, opts),
            p.exact_in_outcome(ctx, amount, to, route, other_quoted, limit_x96, other_opts),
            true,
        ),
{
    let f = opts.slippage.min_out(quoted).raw;
    let g = other_opts.slippage.min_out(other_quoted).raw;
    let r = resolved_swap(
        p.assets@,
        ctx.weth,
        amount.currency,
        to,
        route,
        opts,
        TradeType::ExactIn,
    )->Ok_0;
    lemma_solidly(r, true, ctx.routers.aerodrome_factory->0, amount.raw, f, g);
}

proof fn lemma_volatile_pool(
    p: AerodromeVolatilePool,
    ctx: ChainConfig,
    amount: CurrencyAmount,
    to: Currency,
    route: RouteView,
    quoted: AssetAmount,
    other_quoted: AssetAmount,
    limit_x96: Result<U256, QuoteError>,
    opts: OptionsView,
    other_opts: OptionsView,
)
    requires
        other_quoted.asset == quoted.asset,
        other_opts == (OptionsView { slippage: other_opts.slippage, ..opts }),
    ensures
        decided_by_floor(
            p.exact_in_outcome(ctx, amount, to, route, quoted, limit_x96, opts),
            p.exact_in_outcome(ctx, amount, to, route, other_quoted, limit_x96, other_opts),
            true,
        ),
{
    let f = opts.slippage.min_out(quoted).raw;
    let g = other_opts.slippage.min_out(other_quoted).raw;
    let r = resolved_swap(
        p.assets@,
        ctx.weth,
        amount.currency,
        to,
        route,
        opts,
        TradeType::ExactIn,
    )->Ok_0;
    lemma_solidly(r, false, ctx.routers.aerodrome_factory->0, amount.raw, f, g);
}

proof fn lemma_curve_pool(
    p: CurvePool,
    ctx: ChainConfig,
    amount: CurrencyAmount,
    to: Currency,
    route: RouteView,
    quoted: AssetAmount,
    other_quoted: AssetAmount,
    limit_x96: Result<U256, QuoteError>,
    opts: OptionsView,
    other_opts: OptionsView,
)
    requires
        other_quoted.asset == quoted.asset,
        other_opts == (OptionsView { slippage: other_opts.slippage, ..opts }),
    ensures
        decided_by_floor(
            p.exact_in_outcome(ctx, amount, to, route, quoted, limit_x96, opts),
            p.exact_in_outcome(ctx, amount, to, route, other_quoted, limit_x96, other_opts),
            true,
        ),
{
    let f = opts.slippage.min_out(quoted).raw;
    let g = other_opts.slippage.min_out(other_quoted).raw;
    let r = resolved_pair(p.assets@, ctx.weth, amount.currency, to, opts)->Ok_0;
    let (i, j) = p.indices(r.input, r.output)->0;
    lemma_curve(p.interface->0, i, j, amount.raw, r, f, g);
}

proof fn lemma_v3_pool(
    p: UniswapV3Pool,
    ctx: ChainConfig,
    amount: CurrencyAmount,
    to: Currency,
    route: RouteView,
    quoted: AssetAmount,
    other_quoted: AssetAmount,
    limit_x96: Result<U256, QuoteError>,
    opts: OptionsView,
    other_opts: OptionsView,
)
    requires
        other_quoted.asset == quoted.asset,
        other_opts == (OptionsView { slippage: other_opts.slippage, ..opts }),
    ensures
        decided_by_floor(
            p.exact_in_outcome(ctx, amount, to, route, quoted, limit_x96, opts),
            p.exact_in_outcome(ctx, amount, to, route, other_quoted, limit_x96, other_opts),
            true,
        ),
{
    let f = opts.slippage.min_out(quoted).raw;
    let g = other_opts.slippage.min_out(other_quoted).raw;
    let r = resolved_pair(p.assets@, ctx.weth, amount.currency, to, opts)->Ok_0;
    let sqrt = sqrt_limit(opts.price_limit is Some, limit_x96, route.hops.len())->Ok_0;
    let s = single_params(&p, p.router_of(ctx)->Ok_0, r, amount.raw, f, sqrt);
    let t = SingleParams { limit_amount: g, ..s };
    lemma_fee_call(uniswap_v3::EXACT_INPUT_SINGLE, p.fee_pips, s, g);
    let a = uniswap_v3::call_by_fee(uniswap_v3::EXACT_INPUT_SINGLE, p.fee_pips, s);
    let b = uniswap_v3::call_by_fee(uniswap_v3::EXACT_INPUT_SINGLE, p.fee_pips, t);
    lemma_batch(Some(r.deadline.value() as u64), a, b, r, f, g);
}

proof fn lemma_slipstream_pool(
    p: AerodromeSlipstreamPool,
    ctx: ChainConfig,
    amount: CurrencyAmount,
    to: Currency,
    route: RouteView,
    quoted: AssetAmount,
    other_quoted: AssetAmount,
    limit_x96: Result<U256, QuoteError>,
    opts: OptionsView,
    other_opts: OptionsView,
)
    requires
        other_quoted.asset == quoted.asset,
        other_opts == (OptionsView { slippage: other_opts.slippage, ..opts }),
    ensures
        decided_by_floor(
            p.exact_in_outcome(ctx, amount, to, route, quoted, limit_x96, opts),
            p.exact_in_outcome(ctx, amount, to, route, other_quoted, limit_x96, other_opts),
            true,
        ),
{
    let f = opts.slippage.min_out(quoted).raw;
    let g = other_opts.slippage.min_out(other_quoted).raw;
    let r = resolved_pair(p.assets@, ctx.weth, amount.currency, to, opts)->Ok_0;
    let sqrt = sqrt_limit(opts.price_limit is Some, limit_x96, 2)->Ok_0;
    let s = single_params(&p, p.router_of(ctx)->Ok_0, r, amount.raw, f, sqrt);
    let t = SingleParams { limit_amount: g, ..s };
    lemma_spacing_call(slipstream::EXACT_INPUT_SINGLE, p.tick_spacing, s, g);
    let a = slipstream::call_by_spacing(slipstream::EXACT_INPUT_SINGLE, p.tick_spacing, s);
    let b = slipstream::call_by_spacing(slipstream::EXACT_INPUT_SINGLE, p.tick_spacing, t);
    lemma_batch(None, a, b, r, f, g);
}

proof fn lemma_v4_pool(
    p: UniswapV4Pool,
    ctx: ChainConfig,
    amount: CurrencyAmount,
    to: Currency,
    route: RouteView,
    quoted: AssetAmount,
    other_quoted: AssetAmount,
    limit_x96: Result<U256, QuoteError>,
    opts: OptionsView,
    other_opts: OptionsView,
)
    requires
        other_quoted.asset == quoted.asset,
        other_opts == (OptionsView { slippage: other_opts.slippage, ..opts }),
    ensures
        decided_by_floor(
            p.exact_in_outcome(ctx, amount, to, route, quoted, limit_x96, opts),
            p.exact_in_outcome(ctx, amount, to, route, other_quoted, limit_x96, other_opts),
            opts.slippage.min_out(quoted).raw.value() < two_128() && other_opts.slippage.min_out(
                other_quoted,
            ).raw.value() < two_128(),
        ),
{
    let f = opts.slippage.min_out(quoted).raw;
    let g = other_opts.slippage.min_out(other_quoted).raw;
    let trade = TradeType::ExactIn;
    let key = uniswap_v4::pool_key(p)->Ok_0;
    let (wrap, r) = uniswap_v4::v4_sides(
        p.assets@,
        key,
        ctx,
        amount.currency,
        to,
        route,
        opts,
        trade,
    )->Ok_0;
    let o = uniswap_v4::Order { trade, wrap, r, spend: amount.raw, payout: f };
    lemma_order(o, key, g, r.deadline.value() as u64);
}

/// Two exact-in swaps on a pool that differ only in the amount of the quote and
/// in the tolerance are the same but for their output floors. They are refused
/// alike, unless a Uniswap V4 pool is to hold a floor past 128 bits.
pub proof fn quotes_decide_only_the_floor(
    pool: Pool,
    ctx: ChainConfig,
    amount: CurrencyAmount,
    to: Currency,
    route: RouteView,
    quoted: AssetAmount,
    other_quoted: AssetAmount,
    limit_x96: Result<U256, QuoteError>,
    opts: OptionsView,
    other_opts: OptionsView,
)
    requires
        other_quoted.asset == quoted.asset,
        other_opts == (OptionsView { slippage: other_opts.slippage, ..opts }),
    ensures
        decided_by_floor(
            pool_exact_in(pool, ctx, amount, to, route, quoted, limit_x96, opts),
            pool_exact_in(pool, ctx, amount, to, route, other_quoted, limit_x96, other_opts),
            pool is UniswapV4 ==> opts.slippage.min_out(quoted).raw.value() < two_128()
                && other_opts.slippage.min_out(other_quoted).raw.value() < two_128(),
        ),
{
    let (q, u) = (other_quoted, other_opts);
    match pool {
        Pool::UniswapV2(p) => {
            lemma_v2_pool(p, ctx, amount, to, route, quoted, q, limit_x96, opts, u);
        },
        Pool::UniswapV3(p) => {
            lemma_v3_pool(p, ctx, amount, to, route, quoted, q, limit_x96, opts, u);
        },
        Pool::UniswapV4(p) => {
            lemma_v4_pool(p, ctx, amount, to, route, quoted, q, limit_x96, opts, u);
        },
        Pool::AerodromeStable(p) => {
            lemma_stable_pool(p, ctx, amount, to, route, quoted, q, limit_x96, opts, u);
        },
        Pool::AerodromeVolatile(p) => {
            lemma_volatile_pool(p, ctx, amount, to, route, quoted, q, limit_x96, opts, u);
        },
        Pool::AerodromeSlipstream(p) => {
            lemma_slipstream_pool(p, ctx, amount, to, route, quoted, q, limit_x96, opts, u);
        },
        Pool::Curve(p) => {
            lemma_curve_pool(p, ctx, amount, to, route, quoted, q, limit_x96, opts, u);
        },
        Pool::Other(_) => {},
    }
}

} // verus!
