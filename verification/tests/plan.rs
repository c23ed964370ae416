//! Plans over several pools.

use alloy::primitives::Bytes;
use alloy::primitives::aliases::{U160, U24};
use alloy::sol_types::SolValue;
use amm_rpc::asset::{AssetAmount, AssetId, Bps, ChainId, PoolKind, QuoteError};
use amm_rpc::execution::config::{ChainConfig, Routers};
use amm_rpc::execution::error::BuildError;
use amm_rpc::execution::multicall::MULTICALL_WITH_DEADLINE;
use amm_rpc::execution::options::{Deadline, ExecutionOptions, Recipient};
use amm_rpc::execution::plan::{
    PathQuotes, SpanCall, SpanTx, backward_target, forward_start, map_quote_err, plan,
    plan_checked,
};
use amm_rpc::execution::prepared::PreparedSwap;
use amm_rpc::execution::protocols::common::evm_addr;
use amm_rpc::execution::routing::{ExactOutPolicy, Route, RouterKind, RouterSpan};
use amm_rpc::execution::types::TradeType;
use amm_rpc::pools::{AerodromeVolatilePool, CurvePool, OtherPool, Pool, UniswapV3Pool};
use amm_rpc::primitives::{Address, B256, U256};
use amm_rpc::slippage::Slippage;
use amm_rpc::execution::protocols::aerodrome::SWAP_EXACT_TOKENS_FOR_TOKENS;
use amm_rpc::execution::protocols::uniswap_v3::EXACT_INPUT_SINGLE;

/// A small number as a word.
fn u(n: impl Into<u128>) -> U256 {
    let n: u128 = n.into();
    U256 { l3: 0, l2: 0, l1: (n >> 64) as u64, l0: n as u64 }
}

type AbiWord = alloy::primitives::U256;
type AbiAddress = alloy::primitives::Address;

/// A decoded number as a word.
fn word_of(n: AbiWord) -> U256 {
    let l = n.as_limbs();
    U256 { l3: l[3], l2: l[2], l1: l[1], l0: l[0] }
}

/// The address with the given bytes.
fn address_from(bytes: [u8; 20]) -> Address {
    let n = AbiWord::from_be_slice(&bytes);
    Address::from_word(B256(word_of(n)))
}

/// A decoded address.
fn address_of(a: AbiAddress) -> Address {
    address_from(a.into_array())
}

/// The address whose bytes are all `byte`.
fn repeat_byte(byte: u8) -> Address {
    address_from([byte; 20])
}

/// The word that ends in the given bytes.
fn left_padded(bytes: &[u8]) -> B256 {
    B256(word_of(AbiWord::from_be_slice(bytes)))
}

/// What stands for the price converter where no limit is set.
fn no_limit() -> Result<U256, QuoteError> {
    Err(QuoteError::Overflow)
}

/// The arguments of a call of `selector`.
fn arguments(selector: u32, data: &[u8]) -> Option<&[u8]> {
    if data.len() >= 4 && data[..4] == selector.to_be_bytes() {
        Some(&data[4..])
    } else {
        None
    }
}

struct DeadlineMulticallCall {
    deadline: U256,
    data: Vec<Bytes>,
}

fn decode_deadline_multicall(data: &[u8]) -> Option<DeadlineMulticallCall> {
    let args = arguments(MULTICALL_WITH_DEADLINE, data)?;
    let (deadline, data) = <(AbiWord, Vec<Bytes>)>::abi_decode_params(args).ok()?;
    Some(DeadlineMulticallCall { deadline: word_of(deadline), data })
}

struct Leg {
    from: Address,
    to: Address,
    stable: bool,
    factory: Address,
}

type AbiLeg = (AbiAddress, AbiAddress, bool, AbiAddress);

fn leg_of(l: AbiLeg) -> Leg {
    Leg { from: address_of(l.0), to: address_of(l.1), stable: l.2, factory: address_of(l.3) }
}

struct LegSwapCall {
    amount_in: U256,
    amount_out_min: U256,
    routes: Vec<Leg>,
    to: Address,
    deadline: U256,
}

fn decode_leg_swap(selector: u32, data: &[u8]) -> Option<LegSwapCall> {
    let args = arguments(selector, data)?;
    let (amount_in, amount_out_min, routes, to, deadline) =
        <(AbiWord, AbiWord, Vec<AbiLeg>, AbiAddress, AbiWord)>::abi_decode_params(args).ok()?;
    Some(LegSwapCall {
        amount_in: word_of(amount_in),
        amount_out_min: word_of(amount_out_min),
        routes: routes.into_iter().map(leg_of).collect(),
        to: address_of(to),
        deadline: word_of(deadline),
    })
}

struct ExactInputCall {
    token_in: Address,
    token_out: Address,
    fee: U24,
    recipient: Address,
    amount_in: U256,
    amount_out_minimum: U256,
    sqrt_price_limit_x96: U256,
}

fn decode_exact_input_single(data: &[u8]) -> Option<ExactInputCall> {
    let args = arguments(EXACT_INPUT_SINGLE, data)?;
    let (token_in, token_out, fee, recipient, fixed, bound, limit) = <(
        AbiAddress, AbiAddress, U24, AbiAddress, AbiWord, AbiWord, U160,
    )>::abi_decode_params(args).ok()?;
    Some(ExactInputCall {
        token_in: address_of(token_in),
        token_out: address_of(token_out),
        fee,
        recipient: address_of(recipient),
        amount_in: word_of(fixed),
        amount_out_minimum: word_of(bound),
        sqrt_price_limit_x96: word_of(AbiWord::from(limit)),
    })
}

fn order(a: AssetId, b: AssetId) -> [AssetId; 2] {
    if evm_addr(&a) < evm_addr(&b) {
        [a, b]
    } else {
        [b, a]
    }
}

fn v3_pool(a: AssetId, b: AssetId, fee_pips: u32) -> Pool {
    Pool::UniswapV3(UniswapV3Pool { assets: order(a, b), fee_pips })
}

fn aero_pool(a: AssetId, b: AssetId) -> Pool {
    Pool::AerodromeVolatile(AerodromeVolatilePool { assets: order(a, b) })
}

/// The amounts at the boundaries of a route of deep pools at par, each of which
/// keeps three per mille: forwards from the input, backwards from the output.
fn quotes(route: &Route, amount: u64) -> PathQuotes {
    let hops = route.pools.len();
    let (start, backward) = match route.trade_type {
        TradeType::ExactIn => (amount, Err(QuoteError::InsufficientLiquidity)),
        TradeType::ExactOut => {
            let mut amounts = vec![amount];
            for _ in 0..hops {
                amounts.insert(0, (amounts[0] * 1000).div_ceil(997));
            }
            (amounts[0], Ok(boundaries(route, &amounts)))
        }
    };
    let mut amounts = vec![start];
    for i in 0..hops {
        amounts.push(amounts[i] * 997 / 1000);
    }
    PathQuotes { forward: Ok(boundaries(route, &amounts)), backward }
}

/// Amounts, each of the asset at its boundary.
fn boundaries(route: &Route, amounts: &[u64]) -> Vec<AssetAmount> {
    let mut out = Vec::new();
    for i in 0..route.path.len() {
        out.push(AssetAmount::new(route.path[i], u(amounts[i])));
    }
    out
}

/// The transaction of a step that needs no other builder.
fn ready(
    step: Result<Option<SpanTx>, BuildError>,
) -> Result<Option<PreparedSwap>, BuildError> {
    match step? {
        Some(SpanTx::Ready(prepared)) => Ok(Some(prepared)),
        Some(SpanTx::Delegate(_)) => panic!("the span has one pool"),
        None => Ok(None),
    }
}

fn chain_id() -> ChainId {
    ChainId(1)
}

fn asset(byte: u8) -> AssetId {
    AssetId::new(chain_id(), left_padded(&[byte]))
}

fn universal_router() -> Address {
    repeat_byte(0xAA)
}

fn permit2() -> Address {
    repeat_byte(0xBB)
}

fn v3_router() -> Address {
    repeat_byte(0xCC)
}

fn aero_router() -> Address {
    repeat_byte(0xDD)
}

fn aero_factory() -> Address {
    repeat_byte(0xEE)
}

fn ctx() -> ChainConfig {
    ChainConfig::new(chain_id(), asset(0x02)).with_routers({
        let mut routers = Routers::default();
        routers.universal = Some(universal_router());
        routers.permit2 = Some(permit2());
        routers.v3 = Some(v3_router());
        routers.aerodrome = Some(aero_router());
        routers.aerodrome_factory = Some(aero_factory());
        routers
    })
}

fn opts(to: Address) -> ExecutionOptions {
    ExecutionOptions::new(Slippage::from_bps(Bps(50)))
        .with_recipient(Recipient::To(to))
        .with_deadline(Deadline::AtTimestamp(1_700_000_000))
}

#[test]
fn two_span_cross_router_routes_recipients_sequentially() {
    let (a, b, c) = (asset(0x11), asset(0x22), asset(0x33));
    let p1 = v3_pool(a, b, 3000);
    let p2 = aero_pool(b, c);
    let route = Route {
        pools: vec![p1, p2],
        path: vec![a, b, c],
        trade_type: TradeType::ExactIn,
    };
    let sender = repeat_byte(0x01);
    let recipient = repeat_byte(0x55);
    let options = opts(recipient);
    let config = ctx();

    let mut p = plan(
        &config,
        &route,
        u(1_000_000u64),
        &options,
        sender,
        false,
        false,
        ExactOutPolicy::Strict,
        quotes(&route, 1_000_000),
    )
    .expect("plan must build");

    assert!(!p.is_atomic(), "two routers → not atomic");
    assert_eq!(p.tx_count(), 2, "two spans → two txs");

    let first = ready(p.next_tx(None, no_limit()))
        .expect("span 1 builds")
        .expect("span 1 yields a tx");

    let observed = AssetAmount::new(c, u(990_000u64));
    let second = ready(p.next_tx(Some(observed), no_limit()))
        .expect("span 2 builds")
        .expect("span 2 yields a tx");

    assert_eq!(first.tx.to, v3_router(), "span 1 uses the V3 router");
    assert_eq!(
        second.tx.to,
        aero_router(),
        "span 2 uses the Aerodrome router"
    );

    let outer =
        decode_deadline_multicall(&first.tx.data).expect("span 1 must decode as multicall");
    let first_recipient = decode_exact_input_single(&outer.data[0])
        .expect("span 1 inner must decode as exactInputSingle")

        .recipient;
    assert_eq!(
        first_recipient, sender,
        "non-final span delivers to the sender"
    );

    let second_recipient = decode_leg_swap(SWAP_EXACT_TOKENS_FOR_TOKENS, &second.tx.data)
        .expect("span 2 must decode as swapExactTokensForTokens")
        .to;
    assert_eq!(
        second_recipient, recipient,
        "final span delivers to the caller's recipient"
    );

    assert!(
        ready(p.next_tx(None, no_limit())).expect("no error past the end").is_none(),
        "a third call after two spans yields None"
    );
}

#[test]
fn single_pool_span_slippage_floor_is_identity_of_compound_one() {
    let slippage = Slippage::from_bps(Bps(50));
    assert_eq!(
        slippage.compound(1).bps(),
        slippage.bps(),
        "compound(1) must return the same tolerance (identity)"
    );

    let (a, b, c) = (asset(0x11), asset(0x22), asset(0x33));
    let p1 = v3_pool(a, b, 3000);
    let p2 = aero_pool(b, c);
    let route = Route {
        pools: vec![p1, p2],
        path: vec![a, b, c],
        trade_type: TradeType::ExactIn,
    };
    let sender = repeat_byte(0x01);
    let recipient = repeat_byte(0x55);
    let options = ExecutionOptions::new(slippage)
        .with_recipient(Recipient::To(recipient))
        .with_deadline(Deadline::AtTimestamp(1_700_000_000));
    let config = ctx();
    let amount_in = u(1_000_000u64);

    let mut p = plan(
        &config,
        &route,
        amount_in,
        &options,
        sender,
        false,
        false,
        ExactOutPolicy::Strict,
        quotes(&route, 1_000_000),
    )
    .expect("plan must build");

    let quoted = quotes(&route, 1_000_000).forward.expect("quote must succeed");
    let span1_quoted_out = &quoted[1];
    let expected_floor_span1 = slippage.min_amount_out(span1_quoted_out).raw;
    let compounded_floor_span1 = slippage.compound(1).min_amount_out(span1_quoted_out).raw;
    assert_eq!(
        expected_floor_span1, compounded_floor_span1,
        "compound(1).min_amount_out must equal plain min_amount_out — identity invariant"
    );

    let span1_prepared = ready(p.next_tx(None, no_limit()))
        .expect("span 1 builds")
        .expect("span 1 yields tx");
    assert_eq!(
        span1_prepared.min_received.raw, expected_floor_span1,
        "span 1 min_received.raw must equal the (compound-1-identical) floor"
    );
}

#[test]
fn or_better_exact_out_over_non_exact_out_span_degrades_to_exact_in() {
    let (a, b, c) = (asset(0x11), asset(0x22), asset(0x33));
    let p1 = v3_pool(a, b, 3000);
    let p2 = aero_pool(b, c);
    let route = Route {
        pools: vec![p1, p2],
        path: vec![a, b, c],
        trade_type: TradeType::ExactOut,
    };
    let sender = repeat_byte(0x01);
    let recipient = repeat_byte(0x55);
    let options = opts(recipient);
    let config = ctx();
    let target = u(500_000u64);

    let mut p = plan(
        &config,
        &route,
        target,
        &options,
        sender,
        false,
        false,
        ExactOutPolicy::OrBetter,
        quotes(&route, 500_000),
    )
    .expect("OrBetter exact-out must build even with a non-exact-out span family");

    assert_eq!(p.tx_count(), 2, "V3 then Aerodrome → two spans");

    let first = ready(p.next_tx(None, no_limit()))
        .expect("span 1 builds")
        .expect("span 1 yields a tx");
    let outer = decode_deadline_multicall(&first.tx.data)
        .expect("span 1 decodes as an exact-in multicall");
    decode_exact_input_single(&outer.data[0])
        .expect("span 1 inner is exactInputSingle (exact-in shape)");

    let observed = AssetAmount::new(b, u(495_000u64));
    let second = ready(p.next_tx(Some(observed), no_limit()))
        .expect("span 2 builds")
        .expect("span 2 yields a tx");
    decode_leg_swap(SWAP_EXACT_TOKENS_FOR_TOKENS, &second.tx.data)
        .expect("span 2 is swapExactTokensForTokens (exact-in shape)");
    assert_eq!(
        second.min_received.raw, target,
        "OrBetter final span floor must equal the exact target (AtLeast semantics)"
    );
    assert_eq!(
        second.min_received.asset, c,
        "final floor asset is the output c"
    );
}

#[test]
fn strict_exact_out_multi_span_is_rejected() {
    let (a, b, c) = (asset(0x11), asset(0x22), asset(0x33));
    let p1 = v3_pool(a, b, 3000);
    let p2 = aero_pool(b, c);
    let route = Route {
        pools: vec![p1, p2],
        path: vec![a, b, c],
        trade_type: TradeType::ExactOut,
    };
    let sender = repeat_byte(0x01);
    let recipient = repeat_byte(0x55);
    let options = opts(recipient);
    let config = ctx();

    let result = plan(
        &config,
        &route,
        u(500_000u64),
        &options,
        sender,
        false,
        false,
        ExactOutPolicy::Strict,
        quotes(&route, 500_000),
    );
    assert!(
        matches!(result, Err(BuildError::UnsupportedExactOut { .. })),
        "expected Err(UnsupportedExactOut) for multi-span strict exact-out"
    );
}

#[test]
fn strict_exact_out_single_aerodrome_span_is_rejected() {
    let (a, b) = (asset(0x11), asset(0x22));
    let p1 = aero_pool(a, b);
    let route = Route {
        pools: vec![p1],
        path: vec![a, b],
        trade_type: TradeType::ExactOut,
    };
    let sender = repeat_byte(0x01);
    let recipient = repeat_byte(0x55);
    let options = opts(recipient);
    let config = ctx();

    let result = plan(
        &config,
        &route,
        u(1_000u64),
        &options,
        sender,
        false,
        false,
        ExactOutPolicy::Strict,
        quotes(&route, 1_000),
    );
    assert!(
        matches!(result, Err(BuildError::UnsupportedExactOut { .. })),
        "expected Err(UnsupportedExactOut) for single Aerodrome strict exact-out"
    );
}

/// The description of a step that another builder encodes.
fn described(step: Result<Option<SpanTx>, BuildError>) -> SpanCall {
    match step.expect("the step succeeds") {
        Some(SpanTx::Delegate(call)) => call,
        _ => panic!("the span has several pools"),
    }
}

fn uniswap_route(trade_type: TradeType) -> Route {
    let (a, b, c) = (asset(0x11), asset(0x22), asset(0x33));
    Route {
        pools: vec![v3_pool(a, b, 500), v3_pool(b, c, 3000)],
        path: vec![a, b, c],
        trade_type,
    }
}

fn crossing_route(trade_type: TradeType) -> Route {
    let (a, b, c) = (asset(0x11), asset(0x22), asset(0x33));
    Route {
        pools: vec![v3_pool(a, b, 3000), aero_pool(b, c)],
        path: vec![a, b, c],
        trade_type,
    }
}

#[test]
fn a_span_of_two_pools_is_described() {
    let route = uniswap_route(TradeType::ExactIn);
    let options = opts(repeat_byte(0x55));
    let config = ctx();
    let mut p = plan(
        &config,
        &route,
        u(1_000_000u64),
        &options,
        repeat_byte(0x01),
        false,
        false,
        ExactOutPolicy::Strict,
        quotes(&route, 1_000_000),
    )
    .expect("plan must build");
    assert!(p.is_atomic());
    assert_eq!(p.tx_count(), 1);
    let span = RouterSpan { kind: RouterKind::UniswapUniversal, start: 0, end: 2 };
    assert_eq!(p.spans(), &[span]);
    assert_eq!(Slippage::from_bps(Bps(50)).compound(2).bps(), Bps(99));
    let expected = SpanCall {
        trade: TradeType::ExactIn,
        span,
        amount: u(1_000_000u64),
        limit: u(994_009u64 * 9901 / 10000),
        recipient: repeat_byte(0x55),
        native_in: false,
        native_out: false,
        deadline: 1_700_000_000,
        is_final: true,
    };
    assert_eq!(described(p.next_tx(None, no_limit())), expected);
    assert_eq!(described(p.next_tx(None, no_limit())), expected);
    p.span_built();
    assert!(p.next_tx(None, no_limit()).unwrap().is_none());
    p.span_built();
    assert!(p.next_tx(None, no_limit()).unwrap().is_none());
}

#[test]
fn native_edges_of_a_described_span() {
    let route = uniswap_route(TradeType::ExactIn);
    let options = opts(repeat_byte(0x55));
    let config = ctx();
    let mut p = plan(
        &config,
        &route,
        u(1_000_000u64),
        &options,
        repeat_byte(0x01),
        true,
        true,
        ExactOutPolicy::Strict,
        quotes(&route, 1_000_000),
    )
    .expect("plan must build");
    let call = described(p.next_tx(None, no_limit()));
    assert!(call.native_in);
    assert!(call.native_out);
    assert_eq!(call.amount, u(1_000_000u64));
}

#[test]
fn a_strict_span_is_described_by_its_output() {
    let route = uniswap_route(TradeType::ExactOut);
    let options = opts(repeat_byte(0x55));
    let config = ctx();
    let mut p = plan(
        &config,
        &route,
        u(500_000u64),
        &options,
        repeat_byte(0x01),
        false,
        false,
        ExactOutPolicy::Strict,
        quotes(&route, 500_000),
    )
    .expect("plan must build");
    let call = described(p.next_tx(None, no_limit()));
    assert_eq!(call.trade, TradeType::ExactOut);
    assert_eq!(call.amount, u(500_000u64));
    // 503_015 and a half percent of it, rounded up.
    assert_eq!(call.limit, u(505_531u64));
    assert_eq!(call.recipient, repeat_byte(0x55));
}

#[test]
fn an_or_better_span_is_described_by_its_target() {
    let route = uniswap_route(TradeType::ExactOut);
    let options = opts(repeat_byte(0x55));
    let config = ctx();
    let mut p = plan(
        &config,
        &route,
        u(500_000u64),
        &options,
        repeat_byte(0x01),
        false,
        false,
        ExactOutPolicy::OrBetter,
        quotes(&route, 500_000),
    )
    .expect("plan must build");
    let call = described(p.next_tx(None, no_limit()));
    assert_eq!(call.trade, TradeType::ExactIn);
    assert_eq!(call.amount, u(503_015u64));
    assert_eq!(call.limit, u(500_000u64));
}

#[test]
fn every_span_approves_what_it_spends() {
    let route = crossing_route(TradeType::ExactIn);
    let (a, b) = (asset(0x11), asset(0x22));
    let options = opts(repeat_byte(0x55));
    let config = ctx();
    let mut p = plan(
        &config,
        &route,
        u(1_000_000u64),
        &options,
        repeat_byte(0x01),
        false,
        false,
        ExactOutPolicy::Strict,
        quotes(&route, 1_000_000),
    )
    .expect("plan must build");
    let first = ready(p.next_tx(None, no_limit())).unwrap().unwrap().approval.unwrap();
    assert_eq!(first.token, a);
    assert_eq!(first.spender, v3_router());
    assert_eq!(first.min_allowance, u(1_000_000u64));
    let observed = AssetAmount::new(b, u(990_000u64));
    let second = ready(p.next_tx(Some(observed), no_limit())).unwrap().unwrap();
    let approval = second.approval.unwrap();
    assert_eq!(approval.token, b);
    assert_eq!(approval.spender, aero_router());
    assert_eq!(approval.min_allowance, u(990_000u64));
    assert_eq!(second.min_received.raw, u(994_009u64 * 9950 / 10000));
}

#[test]
fn a_later_span_needs_what_arrived() {
    let route = crossing_route(TradeType::ExactIn);
    let options = opts(repeat_byte(0x55));
    let config = ctx();
    let mut p = plan(
        &config,
        &route,
        u(1_000_000u64),
        &options,
        repeat_byte(0x01),
        false,
        false,
        ExactOutPolicy::Strict,
        quotes(&route, 1_000_000),
    )
    .expect("plan must build");
    ready(p.next_tx(None, no_limit())).unwrap().unwrap();
    assert_eq!(p.next_tx(None, no_limit()).unwrap_err(), BuildError::UnresolvedRecipient);
    let observed = AssetAmount::new(asset(0x22), u(990_000u64));
    assert!(ready(p.next_tx(Some(observed), no_limit())).unwrap().is_some());
}

/// What refuses a plan over `route`.
fn refusal(route: &Route, options: &ExecutionOptions, quotes: PathQuotes) -> BuildError {
    let config = ctx();
    let r = plan(
        &config,
        route,
        u(1_000_000u64),
        options,
        repeat_byte(0x01),
        false,
        false,
        ExactOutPolicy::OrBetter,
        quotes,
    );
    match r {
        Ok(_) => panic!("the plan is refused"),
        Err(e) => e,
    }
}

#[test]
fn a_plan_needs_pools_that_connect() {
    let options = opts(repeat_byte(0x55));
    let mut route = crossing_route(TradeType::ExactIn);
    let all = quotes(&route, 1_000_000);
    route.path[1] = asset(0x44);
    assert_eq!(refusal(&route, &options, all), BuildError::DisjointRoute);
    route.path.pop();
    let none = || Err(QuoteError::InsufficientLiquidity);
    let unquoted = PathQuotes { forward: none(), backward: none() };
    assert_eq!(refusal(&route, &options, unquoted), BuildError::DisjointRoute);
    route.pools.clear();
    let unquoted = PathQuotes { forward: none(), backward: none() };
    assert_eq!(refusal(&route, &options, unquoted), BuildError::EmptyRoute);
}

#[test]
fn a_plan_needs_known_routers() {
    let options = opts(repeat_byte(0x55));
    let mut route = crossing_route(TradeType::ExactIn);
    route.pools[1] = Pool::Other(OtherPool { assets: vec![asset(0x22), asset(0x33)] });
    let all = quotes(&route, 1_000_000);
    assert_eq!(refusal(&route, &options, all), BuildError::UnsupportedProtocol);
}

#[test]
fn a_plan_needs_quotes() {
    let options = opts(repeat_byte(0x55));
    let dry = || Err(QuoteError::InsufficientLiquidity);
    let one_way = || Err(QuoteError::ExactOutUnavailable { kind: PoolKind::Curve });
    let route = crossing_route(TradeType::ExactIn);
    let unquoted = PathQuotes { forward: dry(), backward: dry() };
    assert_eq!(refusal(&route, &options, unquoted), BuildError::UnsupportedProtocol);
    let route = crossing_route(TradeType::ExactOut);
    let unquoted = PathQuotes { forward: dry(), backward: one_way() };
    assert_eq!(
        refusal(&route, &options, unquoted),
        BuildError::UnsupportedExactOut { kind: PoolKind::Curve }
    );
    let half = PathQuotes { forward: dry(), backward: quotes(&route, 1_000_000).backward };
    assert_eq!(refusal(&route, &options, half), BuildError::UnsupportedProtocol);
}

#[test]
fn a_plan_needs_a_timestamp() {
    let options = opts(repeat_byte(0x55)).with_deadline(Deadline::AtBlock(7));
    let route = crossing_route(TradeType::ExactIn);
    let all = quotes(&route, 1_000_000);
    assert_eq!(refusal(&route, &options, all), BuildError::UnresolvedDeadline);
}

#[test]
fn several_curve_pools_have_no_common_call() {
    let (a, b, c) = (asset(0x11), asset(0x22), asset(0x33));
    let curve = |x: AssetId, y: AssetId| {
        Pool::Curve(CurvePool { assets: vec![x, y], pool_address: None, interface: None })
    };
    let route = Route {
        pools: vec![curve(a, b), curve(b, c)],
        path: vec![a, b, c],
        trade_type: TradeType::ExactIn,
    };
    let options = opts(repeat_byte(0x55));
    let config = ctx();
    let mut p = plan(
        &config,
        &route,
        u(1_000_000u64),
        &options,
        repeat_byte(0x01),
        false,
        false,
        ExactOutPolicy::Strict,
        quotes(&route, 1_000_000),
    )
    .expect("plan must build");
    assert_eq!(p.next_tx(None, no_limit()).unwrap_err(), BuildError::UnsupportedProtocol);
}

#[test]
fn where_quoting_starts() {
    let route = crossing_route(TradeType::ExactIn);
    let amount = u(1_000_000u64);
    assert_eq!(backward_target(&route, amount), None);
    let dry = Err(QuoteError::InsufficientLiquidity);
    assert_eq!(
        forward_start(&route, amount, &dry),
        Some(AssetAmount::new(asset(0x11), amount))
    );
    let route = crossing_route(TradeType::ExactOut);
    assert_eq!(
        backward_target(&route, amount),
        Some(AssetAmount::new(asset(0x33), amount))
    );
    assert_eq!(
        forward_start(&route, amount, &quotes(&route, 1_000_000).backward),
        Some(AssetAmount::new(asset(0x11), u(1_006_029u64)))
    );
    assert_eq!(forward_start(&route, amount, &dry), None);
}

#[test]
fn a_refused_quote_keeps_the_pool_it_names() {
    for kind in [PoolKind::Curve, PoolKind::AerodromeStable, PoolKind::UniswapV4] {
        assert_eq!(
            map_quote_err(QuoteError::ExactOutUnavailable { kind }),
            BuildError::UnsupportedExactOut { kind }
        );
    }
    assert_eq!(map_quote_err(QuoteError::Overflow), BuildError::UnsupportedProtocol);
}

#[test]
fn the_first_span_spends_the_amount() {
    for amount in [7u64, 1_000_000] {
        let route = crossing_route(TradeType::ExactIn);
        let options = opts(repeat_byte(0x55));
        let config = ctx();
        let mut p = plan(
            &config,
            &route,
            u(amount),
            &options,
            repeat_byte(0x01),
            false,
            false,
            ExactOutPolicy::Strict,
            quotes(&route, amount),
        )
        .expect("plan must build");
        let first = ready(p.next_tx(None, no_limit())).unwrap().unwrap();
        assert_eq!(first.approval.unwrap().min_allowance, u(amount));
    }
}

#[test]
fn single_span_all_v3_is_atomic_and_emits_one_ur_tx() {
    let (a, b, c) = (asset(0x11), asset(0x22), asset(0x33));
    let p1 = v3_pool(a, b, 500);
    let p2 = v3_pool(b, c, 3000);
    let route = Route {
        pools: vec![p1, p2],
        path: vec![a, b, c],
        trade_type: TradeType::ExactIn,
    };
    let sender = repeat_byte(0x01);
    let recipient = repeat_byte(0x55);
    let options = opts(recipient);
    let config = ctx();

    let mut p = plan(
        &config,
        &route,
        u(1_000u64),
        &options,
        sender,
        false,
        false,
        ExactOutPolicy::Strict,
        quotes(&route, 1_000),
    )
    .expect("plan must build");

    assert!(p.is_atomic(), "one router → atomic");
    assert_eq!(p.tx_count(), 1, "one span → one tx");

    let call = described(p.next_tx(None, no_limit()));
    assert_eq!(
        call.span.kind,
        RouterKind::UniswapUniversal,
        "atomic Uniswap span targets the Universal Router"
    );
    p.span_built();

    assert!(
        p.next_tx(None, no_limit()).expect("no error past the end").is_none(),
        "an exhausted plan yields None"
    );
}

#[test]
fn two_hop_ur_span_carries_compounded_slippage_floor() {
    let (a, b, c) = (asset(0x11), asset(0x22), asset(0x33));
    let p1 = v3_pool(a, b, 500);
    let p2 = v3_pool(b, c, 3000);
    let route = Route {
        pools: vec![p1, p2],
        path: vec![a, b, c],
        trade_type: TradeType::ExactIn,
    };

    let sender = repeat_byte(0x01);
    let recipient = repeat_byte(0x55);
    let slippage = Slippage::from_bps(Bps(50));
    let options = ExecutionOptions::new(slippage)
        .with_recipient(Recipient::To(recipient))
        .with_deadline(Deadline::AtTimestamp(1_700_000_000));
    let config = ctx();

    let mut p = plan(
        &config,
        &route,
        u(1_000_000u64),
        &options,
        sender,
        false,
        false,
        ExactOutPolicy::Strict,
        quotes(&route, 1_000_000),
    )
    .expect("plan must build");

    assert!(p.is_atomic(), "2-hop single-router route is atomic");

    let call = described(p.next_tx(None, no_limit()));
    let compound_slip = slippage.compound(2);
    assert_eq!(compound_slip.bps(), Bps(99), "sanity: compound(2) is 99 bps");
    assert_eq!(call.span.end - call.span.start, 2, "2-hop span has two UR inputs");
    assert_eq!(call.recipient, recipient, "last hop delivers to recipient");

    let quoted = quotes(&route, 1_000_000).forward.expect("quote must succeed");
    let span_quoted_out = &quoted[2];
    let expected_floor = compound_slip.min_amount_out(span_quoted_out).raw;
    assert_eq!(
        call.limit, expected_floor,
        "calldata amountOutMinimum must equal compound(2).min_amount_out(span_quoted_out)"
    );

    let naive_floor = slippage.min_amount_out(span_quoted_out).raw;
    assert!(
        naive_floor > expected_floor,
        "naive floor ({naive_floor:?}) must be above the compounded floor ({expected_floor:?})"
    );
}

#[test]
fn cross_router_spans_each_carry_correct_approval() {
    let (a, b, c) = (asset(0x11), asset(0x22), asset(0x33));
    let p1 = v3_pool(a, b, 3000);
    let p2 = aero_pool(b, c);
    let route = Route {
        pools: vec![p1, p2],
        path: vec![a, b, c],
        trade_type: TradeType::ExactIn,
    };
    let sender = repeat_byte(0x01);
    let recipient = repeat_byte(0x55);
    let options = opts(recipient);
    let config = ctx();
    let amount_in = u(1_000_000u64);

    {
        let mut p = plan(
            &config,
            &route,
            amount_in,
            &options,
            sender,
            false,
            false,
            ExactOutPolicy::Strict,
            quotes(&route, 1_000_000),
        )
        .expect("plan must build");

        let span1 = ready(p.next_tx(None, no_limit()))
            .expect("span 1 builds")
            .expect("span 1 yields tx");
        let appr1 = span1
            .approval
            .as_ref()
            .expect("span 1 (ERC-20 in) must have approval");
        assert_eq!(appr1.token, a, "span 1 approval token must be span input a");
        assert_eq!(
            appr1.spender,
            v3_router(),
            "span 1 spender must be the V3 router"
        );

        let observed = AssetAmount::new(b, u(990_000u64));
        let span2 = ready(p.next_tx(Some(observed), no_limit()))
            .expect("span 2 builds")
            .expect("span 2 yields tx");
        let appr2 = span2
            .approval
            .as_ref()
            .expect("span 2 (ERC-20 in) must have approval");
        assert_eq!(appr2.token, b, "span 2 approval token must be span input b");
        assert_eq!(
            appr2.spender,
            aero_router(),
            "span 2 spender must be the Aerodrome router"
        );
    }

    {
        let (x, y, z) = (asset(0xA1), asset(0xA2), asset(0xA3));
        let ur_route = Route {
            pools: vec![v3_pool(x, y, 500), v3_pool(y, z, 3000)],
            path: vec![x, y, z],
            trade_type: TradeType::ExactIn,
        };
        let mut p2 = plan(
            &config,
            &ur_route,
            amount_in,
            &options,
            sender,
            true,
            false,
            ExactOutPolicy::Strict,
            quotes(&ur_route, 1_000_000),
        )
        .expect("native-in UR plan must build");

        let native_span = described(p2.next_tx(None, no_limit()));
        assert!(native_span.native_in, "native-in span takes ETH");
        assert!(!native_span.native_out, "native-in span pays a token");
        assert_eq!(native_span.amount, amount_in, "the ETH must equal amount_in");
    }
}

#[test]
fn strict_exact_out_single_v3_span_emits_v3_swap_exact_out() {
    let (a, b, c) = (asset(0x11), asset(0x22), asset(0x33));
    let route = Route {
        pools: vec![v3_pool(a, b, 500), v3_pool(b, c, 3000)],
        path: vec![a, b, c],
        trade_type: TradeType::ExactOut,
    };
    let sender = repeat_byte(0x01);
    let recipient = repeat_byte(0x55);
    let options = opts(recipient);
    let config = ctx();
    let target = u(1_000u64);

    let mut p = plan(
        &config,
        &route,
        target,
        &options,
        sender,
        false,
        false,
        ExactOutPolicy::Strict,
        quotes(&route, 1_000),
    )
    .expect("strict single-span V3 exact-out must build");

    assert!(p.is_atomic(), "single-router route → atomic");
    assert_eq!(p.tx_count(), 1, "one span → one tx");

    let call = described(p.next_tx(None, no_limit()));
    assert_eq!(
        call.span.kind,
        RouterKind::UniswapUniversal,
        "strict exact-out span targets the Universal Router"
    );
    assert_eq!(call.trade, TradeType::ExactOut);
    assert_eq!(call.recipient, recipient, "delivers to the caller's recipient");
    assert_eq!(call.amount, target, "amountOut must equal the exact target");

    let required = quotes(&route, 1_000).backward.expect("backward solve");
    let expected_max_in = options.slippage.max_amount_in(&required[0]).raw;
    assert_eq!(
        call.limit, expected_max_in,
        "amountInMaximum must equal slippage.max_amount_in(required[0])"
    );
    assert_eq!(required[0].asset, a, "max_spent asset is the span input a");
}

/// The transactions of a plan over the crossing route.
fn crossing_swaps(route: &Route, amount: u64) -> [PreparedSwap; 2] {
    let options = opts(repeat_byte(0x55));
    let config = ctx();
    let mut p = plan(
        &config,
        route,
        u(amount),
        &options,
        repeat_byte(0x01),
        false,
        false,
        ExactOutPolicy::OrBetter,
        quotes(route, amount),
    )
    .expect("plan must build");
    let first = ready(p.next_tx(None, no_limit())).unwrap().unwrap();
    let observed = AssetAmount::new(asset(0x22), u(501_000u64));
    let second = ready(p.next_tx(Some(observed), no_limit())).unwrap().unwrap();
    [first, second]
}

#[test]
fn or_better_is_exact_in_but_for_its_last_floor() {
    let [p1, p2] = crossing_swaps(&crossing_route(TradeType::ExactOut), 500_000);
    let [q1, q2] = crossing_swaps(&crossing_route(TradeType::ExactIn), 503_015);
    assert_eq!(p1, q1);
    assert_eq!(p2.min_received.raw, u(500_000u64));
    assert_eq!(q2.min_received.raw, u(500_000u64 * 9950 / 10000));
    assert_eq!((p2.max_spent, q2.max_spent), (None, None));
    let calls = [&p2, &q2].map(|s| {
        decode_leg_swap(SWAP_EXACT_TOKENS_FOR_TOKENS, &s.tx.data).unwrap()
    });
    assert_eq!(calls[0].amount_out_min, p2.min_received.raw);
    assert_eq!(calls[1].amount_out_min, q2.min_received.raw);
    let floor = 4 + 32..4 + 64;
    assert_eq!(p2.tx.data[..floor.start], q2.tx.data[..floor.start]);
    assert_eq!(p2.tx.data[floor.end..], q2.tx.data[floor.end..]);
    assert_eq!((p2.tx.to, p2.tx.value), (q2.tx.to, q2.tx.value));
    assert_eq!(p2.approval, q2.approval);
}

#[test]
fn quotes_of_another_trade_are_not_planned() {
    let options = opts(repeat_byte(0x55));
    let config = ctx();
    let checked = |route: &Route, amount: u64, quotes: PathQuotes| {
        plan_checked(
            &config,
            route,
            u(amount),
            &options,
            repeat_byte(0x01),
            false,
            false,
            ExactOutPolicy::OrBetter,
            quotes,
        )
        .map(|made| made.map(|p| p.tx_count()))
    };
    let route = crossing_route(TradeType::ExactIn);
    assert_eq!(checked(&route, 1_000, quotes(&route, 1_000)), Some(Ok(2)));
    assert_eq!(checked(&route, 7, quotes(&route, 1_000)), None);
    let mut short = quotes(&route, 1_000);
    short.forward.as_mut().unwrap().pop();
    assert_eq!(checked(&route, 1_000, short), None);
    let route = crossing_route(TradeType::ExactOut);
    assert_eq!(checked(&route, 1_000, quotes(&route, 1_000)), Some(Ok(2)));
    assert_eq!(checked(&route, 7, quotes(&route, 1_000)), None);
    let unsolved = PathQuotes {
        forward: quotes(&route, 1_000).forward,
        backward: Err(QuoteError::InsufficientLiquidity),
    };
    assert_eq!(checked(&route, 1_000, unsolved), None);
    let dry = || Err(QuoteError::InsufficientLiquidity);
    let none = PathQuotes { forward: dry(), backward: dry() };
    assert_eq!(checked(&route, 1_000, none), Some(Err(BuildError::UnsupportedProtocol)));
}

#[test]
fn a_plan_names_its_next_span() {
    let route = crossing_route(TradeType::ExactIn);
    let options = opts(repeat_byte(0x55));
    let config = ctx();
    let mut p = plan(
        &config,
        &route,
        u(1_000u64),
        &options,
        repeat_byte(0x01),
        false,
        false,
        ExactOutPolicy::Strict,
        quotes(&route, 1_000),
    )
    .expect("plan must build");
    let v3 = RouterSpan { kind: RouterKind::UniswapUniversal, start: 0, end: 1 };
    let aero = RouterSpan { kind: RouterKind::Aerodrome, start: 1, end: 2 };
    assert_eq!(p.next_span(), Some(v3));
    ready(p.next_tx(None, no_limit())).unwrap().unwrap();
    assert_eq!(p.next_span(), Some(aero));
    let observed = AssetAmount::new(asset(0x22), u(990u64));
    ready(p.next_tx(Some(observed), no_limit())).unwrap().unwrap();
    assert_eq!(p.next_span(), None);
}

#[test]
fn nothing_is_quoted_on_a_disjoint_route() {
    let mut route = crossing_route(TradeType::ExactOut);
    route.path.pop();
    let dry = Err(QuoteError::InsufficientLiquidity);
    assert_eq!(backward_target(&route, u(7u64)), None);
    assert_eq!(forward_start(&route, u(7u64), &dry), None);
    let route = crossing_route(TradeType::ExactOut);
    assert_eq!(forward_start(&route, u(7u64), &Ok(vec![])), None);
}
