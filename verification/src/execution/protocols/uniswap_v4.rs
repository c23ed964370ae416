//! Uniswap V4 single-hop swaps through the Universal Router.
//!
//! The router runs a stream of commands. The swap itself is one `V4_SWAP`
//! command, whose input is a list of actions and their parameters: swap,
//! settle the input, take the output.
//!
//! A pool may hold native ETH as the zero address; then nothing else is needed.
//! Where it holds WETH instead, native input is wrapped before the swap and
//! settled out of the router's balance, and native output is taken to the
//! router and unwrapped behind it. An exact-out swap wraps the ceiling, so what
//! it leaves over is unwrapped too.
use crate::abi::{
    address_slot, bool_word, byte_views, bytes_list_tail, bytes_tail,
    encode_actions, encode_address_amount, encode_address_amount_flag, encode_addresses_amount,
    encode_keyed_swap, int_word, layout, uint_slot, word, KeyBytes, Slot,
};
use crate::asset::{AssetAmount, AssetId, QuoteError};
use crate::execution::config::{configured, ChainConfig};
use crate::execution::error::{BuildError, MissingAddr};
use crate::execution::executable::Executable;
use crate::execution::options::{ExecutionOptions, OptionsView};
use crate::execution::prepared::{
    outcome, ApprovalRequirement, PreparedSwap, Route, RouteView, SwapView,
};
use crate::execution::protocols::common::{
    allowance, assembled, attached, erc20_approval, evm_addr, prepared, promise, promised,
    resolve_swap_with, resolved_swap, ResolvedSwap,
};
use crate::execution::protocols::slipstream::spacing_fits;
use crate::execution::route_planner::{
    address_this, execute_data, RoutePlanner, UNWRAP_WETH, V4_SWAP, WRAP_ETH,
};
use crate::execution::sealed::Sealed;
use crate::execution::types::{Currency, CurrencyAmount, TradeType};
use crate::pools::UniswapV4Pool;
use crate::primitives::{limb_base, two_128, Address, B256, U256};
use vstd::prelude::*;

verus! {

/// Action: single-hop swap with a fixed input.
pub const ACTION_SWAP_EXACT_IN_SINGLE: u8 = 0x06;

/// Action: single-hop swap with a fixed output.
pub const ACTION_SWAP_EXACT_OUT_SINGLE: u8 = 0x08;

/// Action: settle a debt, out of the router's balance unless the user pays.
pub const ACTION_SETTLE: u8 = 0x0b;

/// Action: settle a debt up to an amount, paid by the user.
pub const ACTION_SETTLE_ALL: u8 = 0x0c;

/// Action: take a currency to a recipient.
pub const ACTION_TAKE: u8 = 0x0e;

/// The amount that stands for the whole open balance of a currency.
#[verifier::allow_in_spec]
pub fn open_delta() -> U256
    returns
        U256::zero(),
{
    U256::zero()
}

/// The action that swaps.
pub open spec fn swap_action(trade: TradeType) -> u8 {
    match trade {
        TradeType::ExactIn => ACTION_SWAP_EXACT_IN_SINGLE,
        TradeType::ExactOut => ACTION_SWAP_EXACT_OUT_SINGLE,
    }
}

/// The actions of a swap: swap, settle, take. Wrapped input is settled out of
/// the router's balance.
pub open spec fn action_bytes(trade: TradeType, wrapped_input: bool) -> Seq<u8> {
    seq![
        swap_action(trade),
        if wrapped_input {
            ACTION_SETTLE
        } else {
            ACTION_SETTLE_ALL
        },
        ACTION_TAKE,
    ]
}

/// The actions of a swap: swap, settle, take.
pub fn actions(trade: TradeType, wrapped_input: bool) -> (r: Vec<u8>)
    ensures
        r@ == action_bytes(trade, wrapped_input),
{
    let swap: u8 = match trade {
        TradeType::ExactIn => ACTION_SWAP_EXACT_IN_SINGLE,
        TradeType::ExactOut => ACTION_SWAP_EXACT_OUT_SINGLE,
    };
    let settle: u8 = if wrapped_input {
        ACTION_SETTLE
    } else {
        ACTION_SETTLE_ALL
    };
    let r: Vec<u8> = vec![swap, settle, ACTION_TAKE];
    assert(r@ =~= action_bytes(trade, wrapped_input));
    r
}

/// The key of a pool as encoded values.
#[derive(Clone, Copy, Debug, PartialEq, Eq, Structural)]
pub struct PoolKey {
    pub currency0: Address,
    pub currency1: Address,
    pub fee: u32,
    pub tick_spacing: i32,
    pub hooks: Address,
}

/// The key of a pool, where its fee and tick spacing fit their types.
pub open spec fn pool_key(pool: UniswapV4Pool) -> Result<PoolKey, BuildError> {
    if pool.key_fee >= 0x100_0000 || !spacing_fits(pool.tick_spacing) {
        Err(BuildError::Overflow)
    } else {
        Ok(
            PoolKey {
                currency0: pool.assets@[0].address(),
                currency1: pool.assets@[1].address(),
                fee: pool.key_fee,
                tick_spacing: pool.tick_spacing,
                hooks: pool.hooks_address,
            },
        )
    }
}

/// The key of a pool, where its fee and tick spacing fit their types.
pub fn build_pool_key(pool: &UniswapV4Pool) -> (r: Result<PoolKey, BuildError>)
    ensures
        r == pool_key(*pool),
{
    let currency0 = evm_addr(&pool.assets[0]);
    let currency1 = evm_addr(&pool.assets[1]);
    if pool.key_fee >= 0x100_0000 {
        return Err(BuildError::Overflow);
    }
    if pool.tick_spacing < -0x80_0000 || pool.tick_spacing >= 0x80_0000 {
        return Err(BuildError::Overflow);
    }
    Ok(
        PoolKey {
            currency0,
            currency1,
            fee: pool.key_fee,
            tick_spacing: pool.tick_spacing,
            hooks: pool.hooks_address,
        },
    )
}

/// The parameters of the swap action. No hook data is sent.
pub open spec fn swap_params(key: PoolKey, zero_for_one: bool, amount: nat, limit: nat) -> Seq<u8> {
    layout(
        seq![
            Slot::Tail(
                layout(
                    seq![
                        address_slot(key.currency0),
                        address_slot(key.currency1),
                        Slot::Word(word(key.fee as nat)),
                        Slot::Word(int_word(key.tick_spacing as int)),
                        address_slot(key.hooks),
                        Slot::Word(bool_word(zero_for_one)),
                        Slot::Word(word(amount)),
                        Slot::Word(word(limit)),
                        Slot::Tail(bytes_tail(Seq::empty())),
                    ],
                ),
            ),
        ],
    )
}

fn encode_swap_params(key: &PoolKey, zero_for_one: bool, amount: u128, limit: u128) -> (r: Vec<u8>)
    requires
        key.fee < 0x100_0000,
        spacing_fits(key.tick_spacing),
    ensures
        r@ == swap_params(*key, zero_for_one, amount as nat, limit as nat),
{
    let bytes = KeyBytes {
        currency0: key.currency0.to_bytes(),
        currency1: key.currency1.to_bytes(),
        fee: key.fee,
        tick_spacing: key.tick_spacing,
        hooks: key.hooks.to_bytes(),
    };
    let hook_data: Vec<u8> = Vec::new();
    encode_keyed_swap(&bytes, zero_for_one, amount, limit, &hook_data)
}

/// The input of a `V4_SWAP` command.
pub open spec fn v4_swap_input(actions: Seq<u8>, params: Seq<Seq<u8>>) -> Seq<u8> {
    layout(seq![Slot::Tail(bytes_tail(actions)), Slot::Tail(bytes_list_tail(params))])
}

/// The input of a `V4_SWAP` command.
pub fn build_v4_swap_input(actions: Vec<u8>, params: Vec<Vec<u8>>) -> (r: Vec<u8>)
    ensures
        r@ == v4_swap_input(actions@, byte_views(params@)),
{
    encode_actions(&actions, &params)
}

/// The input of a command, or the parameters of an action, that name an address
/// and an amount.
pub open spec fn address_amount(a: Address, amount: U256) -> Seq<u8> {
    layout(seq![address_slot(a), uint_slot(amount)])
}

/// The parameters of the settle action: out of the router's balance for wrapped
/// input, else up to `spend` from the user.
pub open spec fn settle_params(wrapped_input: bool, currency: Address, spend: U256) -> Seq<u8> {
    if wrapped_input {
        layout(seq![address_slot(currency), uint_slot(open_delta()), Slot::Word(bool_word(false))])
    } else {
        address_amount(currency, spend)
    }
}

/// The parameters of the take action: all of the output.
pub open spec fn take_params(currency: Address, recipient: Address) -> Seq<u8> {
    layout(seq![address_slot(currency), address_slot(recipient), uint_slot(open_delta())])
}

fn encode_pair(a: Address, amount: U256) -> (r: Vec<u8>)
    ensures
        r@ == address_amount(a, amount),
{
    encode_address_amount(&a.to_bytes(), &amount.to_be_bytes())
}

fn encode_settle(wrapped_input: bool, currency: Address, spend: U256) -> (r: Vec<u8>)
    ensures
        r@ == settle_params(wrapped_input, currency, spend),
{
    if wrapped_input {
        encode_address_amount_flag(&currency.to_bytes(), &open_delta().to_be_bytes(), false)
    } else {
        encode_pair(currency, spend)
    }
}

fn encode_take(currency: Address, recipient: Address) -> (r: Vec<u8>)
    ensures
        r@ == take_params(currency, recipient),
{
    encode_addresses_amount(
        &currency.to_bytes(),
        &recipient.to_bytes(),
        &open_delta().to_be_bytes(),
    )
}

/// Whether native ETH has to be wrapped or unwrapped around the swap: one side
/// is native, the pool holds WETH, and it does not hold native ETH itself.
pub open spec fn wraps(
    in_currency: Currency,
    out_currency: Currency,
    weth: Address,
    c0: Address,
    c1: Address,
) -> bool {
    &&& in_currency is Native || out_currency is Native
    &&& c0 == weth || c1 == weth
    &&& c0 != Address::zero() && c1 != Address::zero()
}

/// Whether native ETH has to be wrapped or unwrapped around the swap.
pub fn is_wrap_case(
    in_currency: Currency,
    out_currency: Currency,
    weth: Address,
    c0: Address,
    c1: Address,
) -> (r: bool)
    ensures
        r == wraps(in_currency, out_currency, weth, c0, c1),
{
    let pool_has_weth = c0 == weth || c1 == weth;
    let pool_has_native = c0 == Address::zero() || c1 == Address::zero();
    (in_currency.is_native() || out_currency.is_native()) && pool_has_weth && !pool_has_native
}

/// The asset that stands for the native token: WETH where it is wrapped, else
/// the zero address.
pub open spec fn native_asset_of(ctx: ChainConfig, wrap: bool) -> AssetId {
    if wrap {
        ctx.weth
    } else {
        AssetId { chain: ctx.chain, token: B256(U256::zero()) }
    }
}

/// One swap, resolved: which side is fixed, whether ETH is wrapped around it,
/// and the amounts. `spend` is the input or its ceiling, `payout` the output or
/// its floor.
#[derive(Clone, Copy, Debug, PartialEq, Eq, Structural)]
pub struct Order {
    pub trade: TradeType,
    pub wrap: bool,
    pub r: ResolvedSwap,
    pub spend: U256,
    pub payout: U256,
}

impl Order {
    /// Whether the input is wrapped before the swap.
    pub open spec fn wraps_input(self) -> bool {
        self.wrap && self.r.native_in
    }

    /// Whether the output is unwrapped behind the swap.
    pub open spec fn unwraps_output(self) -> bool {
        self.wrap && !self.r.native_in
    }

    /// The `V4_SWAP` input of the order.
    pub open spec fn swap_input(self, key: PoolKey) -> Seq<u8> {
        let input = self.r.input.address();
        let output = self.r.output.address();
        let zero_for_one = input == key.currency0;
        let (fixed, bound) = match self.trade {
            TradeType::ExactIn => (self.spend, self.payout),
            TradeType::ExactOut => (self.payout, self.spend),
        };
        let payee = if self.unwraps_output() {
            address_this()
        } else {
            self.r.recipient
        };
        v4_swap_input(
            action_bytes(self.trade, self.wraps_input()),
            seq![
                swap_params(key, zero_for_one, fixed.value(), bound.value()),
                settle_params(self.wraps_input(), input, self.spend),
                take_params(output, payee),
            ],
        )
    }

    /// The commands of the order.
    pub open spec fn commands(self) -> Seq<u8> {
        if self.wraps_input() {
            match self.trade {
                TradeType::ExactIn => seq![WRAP_ETH, V4_SWAP],
                TradeType::ExactOut => seq![WRAP_ETH, V4_SWAP, UNWRAP_WETH],
            }
        } else if self.unwraps_output() {
            seq![V4_SWAP, UNWRAP_WETH]
        } else {
            seq![V4_SWAP]
        }
    }

    /// The input of each command of the order.
    pub open spec fn inputs(self, key: PoolKey) -> Seq<Seq<u8>> {
        let swap = self.swap_input(key);
        let wrap_in = address_amount(address_this(), self.spend);
        if self.wraps_input() {
            match self.trade {
                TradeType::ExactIn => seq![wrap_in, swap],
                TradeType::ExactOut => seq![
                    wrap_in,
                    swap,
                    address_amount(self.r.recipient, U256::zero()),
                ],
            }
        } else if self.unwraps_output() {
            seq![swap, address_amount(self.r.recipient, self.payout)]
        } else {
            seq![swap]
        }
    }
}

/// Every command of an order has its input, and exactly one of them swaps.
pub proof fn commands_match_inputs(o: Order, key: PoolKey)
    ensures
        o.commands().len() == o.inputs(key).len(),
        o.commands().contains(V4_SWAP),
        forall|i: int| #![trigger o.commands()[i]]
            0 <= i < o.commands().len() && o.commands()[i] == V4_SWAP ==> o.inputs(key)[i]
                == o.swap_input(key),
{
    let at = if o.wraps_input() {
        1int
    } else {
        0
    };
    assert(o.commands()[at] == V4_SWAP);
}

/// What is wrapped is all of the attached ETH, it goes to the router, and an
/// exact-out swap hands what it leaves of it back to the recipient as ETH.
pub proof fn wrapped_input_is_not_stranded(o: Order, key: PoolKey)
    requires
        o.wraps_input(),
    ensures
        o.commands()[0] == WRAP_ETH,
        o.inputs(key)[0] == address_amount(address_this(), attached(o.r.native_in, o.spend)),
        o.trade == TradeType::ExactOut ==> o.commands().last() == UNWRAP_WETH && o.inputs(
            key,
        ).last() == address_amount(o.r.recipient, U256::zero()),
{
}

/// Output that is taken to the router is unwrapped there and paid to the
/// recipient, at least the order's payout.
pub proof fn unwrapped_output_is_not_stranded(o: Order, key: PoolKey)
    requires
        o.unwraps_output(),
    ensures
        o.commands().last() == UNWRAP_WETH,
        o.inputs(key).last() == address_amount(o.r.recipient, o.payout),
{
}

/// Nothing is wrapped or unwrapped unless one side is native and the pool holds
/// WETH in its place.
pub proof fn plain_order_is_one_swap(o: Order, key: PoolKey)
    requires
        !o.wrap,
    ensures
        o.commands() == seq![V4_SWAP],
        o.inputs(key) == seq![o.swap_input(key)],
{
}

/// The calldata of an order.
fn encode_order(o: &Order, key: &PoolKey, fixed: u128, bound: u128, deadline: u64) -> (d: Vec<u8>)
    requires
        key.fee < 0x100_0000,
        spacing_fits(key.tick_spacing),
        o.trade == TradeType::ExactIn ==> fixed == o.spend.value() && bound == o.payout.value(),
        o.trade == TradeType::ExactOut ==> fixed == o.payout.value() && bound == o.spend.value(),
    ensures
        d@ == execute_data(o.commands(), o.inputs(*key), deadline),
{
    let wraps_input = o.wrap && o.r.native_in;
    let unwraps_output = o.wrap && !o.r.native_in;
    let input = evm_addr(&o.r.input);
    let output = evm_addr(&o.r.output);
    let payee = if unwraps_output {
        address_this()
    } else {
        o.r.recipient
    };
    let swap = encode_swap_params(key, input == key.currency0, fixed, bound);
    let settle = encode_settle(wraps_input, input, o.spend);
    let take = encode_take(output, payee);
    let ghost parts = seq![swap@, settle@, take@];
    let params: Vec<Vec<u8>> = vec![swap, settle, take];
    assert(byte_views(params@) =~= parts);
    let swap_input = build_v4_swap_input(actions(o.trade, wraps_input), params);
    assert(swap_input@ == o.swap_input(*key));
    let mut planner = RoutePlanner::new();
    if wraps_input {
        planner.add(WRAP_ETH, encode_pair(address_this(), o.spend));
        planner.add(V4_SWAP, swap_input);
        match o.trade {
            TradeType::ExactIn => {},
            TradeType::ExactOut => {
                // Whatever the swap did not need of the wrapped ceiling.
                planner.add(UNWRAP_WETH, encode_pair(o.r.recipient, U256::zero()));
            },
        }
    } else if unwraps_output {
        planner.add(V4_SWAP, swap_input);
        planner.add(UNWRAP_WETH, encode_pair(o.r.recipient, o.payout));
    } else {
        planner.add(V4_SWAP, swap_input);
    }
    assert(planner.commands() =~= o.commands());
    assert(planner.inputs() =~= o.inputs(*key));
    planner.encode(deadline)
}

/// The allowance of an order: none for native input, else through Permit2.
pub open spec fn order_allowance(ctx: ChainConfig, r: ResolvedSwap, spend: U256) -> Result<
    Option<ApprovalRequirement>,
    BuildError,
> {
    if r.native_in {
        Ok(None)
    } else {
        match configured(ctx.routers.permit2, ctx.chain, MissingAddr::Permit2) {
            Err(e) => Err(e),
            Ok(permit2) => Ok(Some(allowance(permit2, r.input, spend))),
        }
    }
}

/// The allowance of an order: none for native input, else through Permit2.
fn approve_order(ctx: &ChainConfig, r: &ResolvedSwap, spend: U256) -> (a: Result<
    Option<ApprovalRequirement>,
    BuildError,
>)
    ensures
        a == order_allowance(*ctx, *r, spend),
{
    if r.native_in {
        Ok(None)
    } else {
        let permit2 = ctx.permit2()?;
        Ok(Some(erc20_approval(permit2, r.input, spend)))
    }
}

/// What becomes of an order with these bounds: both amounts have to fit 128
/// bits and the deadline 64, and Permit2 and the router have to be configured.
pub open spec fn order_outcome(
    ctx: ChainConfig,
    key: PoolKey,
    o: Order,
    min_received: AssetAmount,
    max_spent: Option<AssetAmount>,
) -> Result<SwapView, BuildError> {
    if o.spend.value() >= two_128() || o.payout.value() >= two_128() || o.r.deadline.value()
        >= limb_base() {
        Err(BuildError::Overflow)
    } else {
        match order_allowance(ctx, o.r, o.spend) {
            Err(e) => Err(e),
            Ok(approval) => match configured(
                ctx.routers.universal,
                ctx.chain,
                MissingAddr::UniversalRouter,
            ) {
                Err(e) => Err(e),
                Ok(router) => Ok(
                    assembled(
                        ctx,
                        router,
                        execute_data(o.commands(), o.inputs(key), o.r.deadline.value() as u64),
                        attached(o.r.native_in, o.spend),
                        min_received,
                        max_spent,
                        approval,
                    ),
                ),
            },
        }
    }
}

/// Builds an order.
fn build_order(
    ctx: &ChainConfig,
    key: &PoolKey,
    o: &Order,
    min_received: AssetAmount,
    max_spent: Option<AssetAmount>,
) -> (p: Result<PreparedSwap, BuildError>)
    requires
        key.fee < 0x100_0000,
        spacing_fits(key.tick_spacing),
    ensures
        outcome(p) == order_outcome(*ctx, *key, *o, min_received, max_spent),
{
    let spend = match o.spend.to_u128() {
        Some(n) => n,
        None => return Err(BuildError::Overflow),
    };
    let payout = match o.payout.to_u128() {
        Some(n) => n,
        None => return Err(BuildError::Overflow),
    };
    let deadline = match o.r.deadline.to_u64() {
        Some(n) => n,
        None => return Err(BuildError::Overflow),
    };
    let (fixed, bound) = match o.trade {
        TradeType::ExactIn => (spend, payout),
        TradeType::ExactOut => (payout, spend),
    };
    let data = encode_order(o, key, fixed, bound, deadline);
    let value = if o.r.native_in {
        o.spend
    } else {
        U256::zero()
    };
    let approval = approve_order(ctx, &o.r, o.spend)?;
    let router = ctx.router_universal()?;
    Ok(prepared(ctx, router, data, value, min_received, max_spent, approval))
}

/// The sides of a V4 swap, and whether ETH is wrapped around it.
pub open spec fn v4_sides(
    assets: Seq<AssetId>,
    key: PoolKey,
    ctx: ChainConfig,
    in_currency: Currency,
    out_currency: Currency,
    route: RouteView,
    opts: OptionsView,
    expected: TradeType,
) -> Result<(bool, ResolvedSwap), BuildError> {
    let wrap = wraps(
        in_currency,
        out_currency,
        ctx.weth.address(),
        key.currency0,
        key.currency1,
    );
    match resolved_swap(
        assets,
        native_asset_of(ctx, wrap),
        in_currency,
        out_currency,
        route,
        opts,
        expected,
    ) {
        Err(e) => Err(e),
        // The router's swap actions carry no price limit.
        Ok(r) => if opts.price_limit is Some {
            Err(BuildError::UnsupportedProtocol)
        } else {
            Ok((wrap, r))
        },
    }
}

fn resolve_sides(
    assets: &[AssetId],
    key: &PoolKey,
    ctx: &ChainConfig,
    in_currency: Currency,
    out_currency: Currency,
    route: &Route,
    opts: &ExecutionOptions,
    expected: TradeType,
) -> (s: Result<(bool, ResolvedSwap), BuildError>)
    ensures
        s == v4_sides(
            assets@,
            *key,
            *ctx,
            in_currency,
            out_currency,
            route@,
            opts@,
            expected,
        ),
{
    let weth = evm_addr(&ctx.weth);
    let wrap = is_wrap_case(in_currency, out_currency, weth, key.currency0, key.currency1);
    let native_asset = if wrap {
        ctx.weth
    } else {
        AssetId::new(ctx.chain, B256(U256::zero()))
    };
    let r = resolve_swap_with(
        assets,
        in_currency,
        out_currency,
        route,
        opts,
        expected,
        native_asset,
    )?;
    if opts.price_limit.is_some() {
        return Err(BuildError::UnsupportedProtocol);
    }
    Ok((wrap, r))
}

impl Sealed for UniswapV4Pool {

}

impl Executable for UniswapV4Pool {
    open spec fn exact_in_outcome(
        &self,
        ctx: ChainConfig,
        amount_in: CurrencyAmount,
        to: Currency,
        route: RouteView,
        quoted_out: AssetAmount,
        limit_x96: Result<U256, QuoteError>,
        opts: OptionsView,
    ) -> Result<SwapView, BuildError> {
        let min = promised(opts.slippage, quoted_out, to, ctx.weth);
        let trade = TradeType::ExactIn;
        match pool_key(*self) {
            Err(e) => Err(e),
            Ok(key) => match v4_sides(
                self.assets@,
                key,
                ctx,
                amount_in.currency,
                to,
                route,
                opts,
                trade,
            ) {
                Err(e) => Err(e),
                Ok((wrap, r)) => order_outcome(
                    ctx,
                    key,
                    Order { trade, wrap, r, spend: amount_in.raw, payout: min.raw },
                    min,
                    None,
                ),
            },
        }
    }

    open spec fn exact_out_outcome(
        &self,
        ctx: ChainConfig,
        amount_out: CurrencyAmount,
        from: Currency,
        route: RouteView,
        quoted_in: AssetAmount,
        limit_x96: Result<U256, QuoteError>,
        opts: OptionsView,
    ) -> Result<SwapView, BuildError> {
        let max = opts.slippage.max_in(quoted_in).raw;
        let trade = TradeType::ExactOut;
        match pool_key(*self) {
            Err(e) => Err(e),
            Ok(key) => match v4_sides(
                self.assets@,
                key,
                ctx,
                from,
                amount_out.currency,
                route,
                opts,
                trade,
            ) {
                Err(e) => Err(e),
                Ok((wrap, r)) => order_outcome(
                    ctx,
                    key,
                    Order { trade, wrap, r, spend: max, payout: amount_out.raw },
                    AssetAmount {
                        asset: amount_out.currency.resolved(ctx.weth),
                        raw: amount_out.raw,
                    },
                    Some(AssetAmount { asset: r.input, raw: max }),
                ),
            },
        }
    }

    fn sealed(&self, by: &dyn Sealed) {
    }

    fn build_swap(
        &self,
        ctx: &ChainConfig,
        amount_in: CurrencyAmount,
        to: Currency,
        route: &Route,
        quoted_out: &AssetAmount,
        limit_x96: Result<U256, QuoteError>,
        opts: &ExecutionOptions,
    ) -> (r: Result<PreparedSwap, BuildError>) {
        let key = build_pool_key(self)?;
        let trade = TradeType::ExactIn;
        let (wrap, r) = resolve_sides(
            self.assets.as_slice(),
            &key,
            ctx,
            amount_in.currency,
            to,
            route,
            opts,
            trade,
        )?;
        let min = promise(&opts.slippage, quoted_out, to, ctx.weth);
        let order = Order { trade, wrap, r, spend: amount_in.raw, payout: min.raw };
        build_order(ctx, &key, &order, min, None)
    }

    fn build_swap_exact_out(
        &self,
        ctx: &ChainConfig,
        amount_out: CurrencyAmount,
        from: Currency,
        route: &Route,
        quoted_in: &AssetAmount,
        limit_x96: Result<U256, QuoteError>,
        opts: &ExecutionOptions,
    ) -> (r: Result<PreparedSwap, BuildError>) {
        let key = build_pool_key(self)?;
        let trade = TradeType::ExactOut;
        let (wrap, r) = resolve_sides(
            self.assets.as_slice(),
            &key,
            ctx,
            from,
            amount_out.currency,
            route,
            opts,
            trade,
        )?;
        let max = opts.slippage.max_amount_in(quoted_in).raw;
        let order = Order { trade, wrap, r, spend: max, payout: amount_out.raw };
        build_order(
            ctx,
            &key,
            &order,
            AssetAmount::new(amount_out.currency.resolve(ctx.weth), amount_out.raw),
            Some(AssetAmount::new(r.input, max)),
        )
    }
}

} // verus!
