//! Contract-call argument bytes.
//!
//! The layout of an argument list is stated here; the bytes themselves are
//! produced by `alloy`'s `SolValue` encoder. Values cross that boundary as
//! big-endian byte arrays, so nothing about integer representation is trusted.
use crate::primitives::{be_bytes, be_value, push_be, two_160, two_256};
use alloy::primitives::aliases::{I24, U160, U24};
use alloy::primitives::{Address, U256};
use alloy::sol_types::SolValue;
use vstd::prelude::*;

verus! {

/// `k` zero bytes.
pub open spec fn zeros(k: nat) -> Seq<u8> {
    Seq::new(k, |i: int| 0u8)
}

/// A non-negative integer as one 32-byte word.
pub open spec fn word(n: nat) -> Seq<u8> {
    be_bytes(n, 32)
}

/// A signed integer as one 32-byte word in two's complement.
pub open spec fn int_word(i: int) -> Seq<u8> {
    if i >= 0 {
        word(i as nat)
    } else {
        word((two_256() + i) as nat)
    }
}

/// A flag as one 32-byte word.
pub open spec fn bool_word(b: bool) -> Seq<u8> {
    word(if b {
        1
    } else {
        0
    })
}

/// A 20-byte address as one 32-byte word.
pub open spec fn address_word(a: Seq<u8>) -> Seq<u8> {
    zeros(12) + a
}

/// One argument: a static word that stands in the head, or a dynamic value
/// whose head is its offset and whose bytes stand behind all heads.
pub enum Slot {
    Word(Seq<u8>),
    Tail(Seq<u8>),
}

/// The dynamic parts of the first `n` arguments, one behind the other.
pub open spec fn tails(slots: Seq<Slot>, n: nat) -> Seq<u8>
    decreases n,
{
    if n == 0 {
        Seq::empty()
    } else {
        match slots[n - 1] {
            Slot::Word(_) => tails(slots, (n - 1) as nat),
            Slot::Tail(t) => tails(slots, (n - 1) as nat) + t,
        }
    }
}

/// The heads of the first `n` arguments: a static argument is its own word, a
/// dynamic one is the offset of its bytes from the start of the list.
pub open spec fn heads(slots: Seq<Slot>, n: nat) -> Seq<u8>
    decreases n,
{
    if n == 0 {
        Seq::empty()
    } else {
        heads(slots, (n - 1) as nat) + match slots[n - 1] {
            Slot::Word(w) => w,
            Slot::Tail(_) => word(32 * slots.len() + tails(slots, (n - 1) as nat).len()),
        }
    }
}

/// The bytes of an argument list.
pub open spec fn layout(slots: Seq<Slot>) -> Seq<u8> {
    heads(slots, slots.len()) + tails(slots, slots.len())
}

/// A byte string behind its length, padded with zeros to whole words.
pub open spec fn bytes_tail(b: Seq<u8>) -> Seq<u8> {
    word(b.len()) + b + zeros(((32 - b.len() % 32) % 32) as nat)
}

/// A list of byte strings behind its length.
pub open spec fn bytes_list_tail(l: Seq<Seq<u8>>) -> Seq<u8> {
    word(l.len()) + layout(l.map_values(|b: Seq<u8>| Slot::Tail(bytes_tail(b))))
}

/// A list of addresses behind its length.
pub open spec fn address_list_tail(l: Seq<Seq<u8>>) -> Seq<u8> {
    word(l.len()) + layout(l.map_values(|a: Seq<u8>| Slot::Word(address_word(a))))
}

/// One leg of a pair-type route: from, to, whether the pair is stable, factory.
pub struct LegBytes {
    pub from: [u8; 20],
    pub to: [u8; 20],
    pub stable: bool,
    pub factory: [u8; 20],
}

/// A leg as the four words it takes in a list.
pub open spec fn leg_words(l: LegBytes) -> Seq<u8> {
    address_word(l.from@) + address_word(l.to@) + bool_word(l.stable) + address_word(l.factory@)
}

/// The words of each leg of a list.
pub open spec fn leg_views(l: Seq<LegBytes>) -> Seq<Seq<u8>> {
    l.map_values(|g: LegBytes| leg_words(g))
}

/// A list of static values, each as its words, behind its length.
pub open spec fn static_list_tail(l: Seq<Seq<u8>>) -> Seq<u8> {
    word(l.len()) + layout(l.map_values(|w: Seq<u8>| Slot::Word(w)))
}

/// The byte strings of a list of byte vectors.
pub open spec fn byte_views(l: Seq<Vec<u8>>) -> Seq<Seq<u8>> {
    l.map_values(|v: Vec<u8>| v@)
}

/// The bytes of a list of address arrays.
pub open spec fn array_views(l: Seq<[u8; 20]>) -> Seq<Seq<u8>> {
    l.map_values(|a: [u8; 20]| a@)
}

/// `SolValue::abi_encode_params` on `(address, uint256)`: two words.
#[verifier::external_body]
pub(crate) fn encode_address_amount(a: &[u8; 20], x: &[u8; 32]) -> (r: Vec<u8>)
    ensures
        r@ == layout(seq![Slot::Word(address_word(a@)), Slot::Word(x@)]),
{
    (Address::from(*a), U256::from_be_bytes(*x)).abi_encode_params()
}

/// `SolValue::abi_encode_params` on `(address, uint256, bool)`: three words.
#[verifier::external_body]
pub(crate) fn encode_address_amount_flag(a: &[u8; 20], x: &[u8; 32], flag: bool) -> (r: Vec<u8>)
    ensures
        r@ == layout(
            seq![Slot::Word(address_word(a@)), Slot::Word(x@), Slot::Word(bool_word(flag))],
        ),
{
    (Address::from(*a), U256::from_be_bytes(*x), flag).abi_encode_params()
}

/// `SolValue::abi_encode_params` on `(address, address, uint256)`: three words.
#[verifier::external_body]
pub(crate) fn encode_addresses_amount(a: &[u8; 20], b: &[u8; 20], x: &[u8; 32]) -> (r: Vec<u8>)
    ensures
        r@ == layout(
            seq![
                Slot::Word(address_word(a@)),
                Slot::Word(address_word(b@)),
                Slot::Word(x@),
            ],
        ),
{
    (Address::from(*a), Address::from(*b), U256::from_be_bytes(*x)).abi_encode_params()
}

/// `SolValue::abi_encode_params` on `(uint256, address)`: two words.
#[verifier::external_body]
pub(crate) fn encode_amount_address(x: &[u8; 32], a: &[u8; 20]) -> (r: Vec<u8>)
    ensures
        r@ == layout(seq![Slot::Word(x@), Slot::Word(address_word(a@))]),
{
    (U256::from_be_bytes(*x), Address::from(*a)).abi_encode_params()
}

/// `SolValue::abi_encode_params` on `(address, uint256, uint256, bytes, bool)`:
/// five heads, the fourth the offset of the path behind them.
#[verifier::external_body]
pub(crate) fn encode_bytes_path_input(
    recipient: &[u8; 20],
    amount: &[u8; 32],
    limit: &[u8; 32],
    path: &Vec<u8>,
    payer_is_user: bool,
) -> (r: Vec<u8>)
    ensures
        r@ == layout(
            seq![
                Slot::Word(address_word(recipient@)),
                Slot::Word(amount@),
                Slot::Word(limit@),
                Slot::Tail(bytes_tail(path@)),
                Slot::Word(bool_word(payer_is_user)),
            ],
        ),
{
    (
        Address::from(*recipient),
        U256::from_be_bytes(*amount),
        U256::from_be_bytes(*limit),
        path.clone(),
        payer_is_user,
    ).abi_encode_params()
}

/// `SolValue::abi_encode_params` on `(address, uint256, uint256, address[],
/// bool)`: five heads, the fourth the offset of the list behind them.
#[verifier::external_body]
pub(crate) fn encode_list_path_input(
    recipient: &[u8; 20],
    amount: &[u8; 32],
    limit: &[u8; 32],
    path: &Vec<[u8; 20]>,
    payer_is_user: bool,
) -> (r: Vec<u8>)
    ensures
        r@ == layout(
            seq![
                Slot::Word(address_word(recipient@)),
                Slot::Word(amount@),
                Slot::Word(limit@),
                Slot::Tail(address_list_tail(array_views(path@))),
                Slot::Word(bool_word(payer_is_user)),
            ],
        ),
{
    (
        Address::from(*recipient),
        U256::from_be_bytes(*amount),
        U256::from_be_bytes(*limit),
        path.iter().map(|a| Address::from(*a)).collect::<Vec<Address>>(),
        payer_is_user,
    ).abi_encode_params()
}

/// `SolValue::abi_encode_params` on `(bytes, bytes[])`: two offsets, then the
/// byte string and the list.
#[verifier::external_body]
pub(crate) fn encode_actions(actions: &Vec<u8>, params: &Vec<Vec<u8>>) -> (r: Vec<u8>)
    ensures
        r@ == layout(
            seq![
                Slot::Tail(bytes_tail(actions@)),
                Slot::Tail(bytes_list_tail(byte_views(params@))),
            ],
        ),
{
    (actions.clone(), params.clone()).abi_encode_params()
}

/// `SolValue::abi_encode_params` on `(bytes, bytes[], uint256)`: two offsets
/// and a word, then the byte string and the list.
#[verifier::external_body]
pub(crate) fn encode_execute(
    commands: &Vec<u8>,
    inputs: &Vec<Vec<u8>>,
    deadline: &[u8; 32],
) -> (r: Vec<u8>)
    ensures
        r@ == layout(
            seq![
                Slot::Tail(bytes_tail(commands@)),
                Slot::Tail(bytes_list_tail(byte_views(inputs@))),
                Slot::Word(deadline@),
            ],
        ),
{
    (commands.clone(), inputs.clone(), U256::from_be_bytes(*deadline)).abi_encode_params()
}

/// `SolValue::abi_encode_params` on `(bytes[],)`: one offset, then the list.
#[verifier::external_body]
pub(crate) fn encode_calls(calls: &Vec<Vec<u8>>) -> (r: Vec<u8>)
    ensures
        r@ == layout(seq![Slot::Tail(bytes_list_tail(byte_views(calls@)))]),
{
    (calls.clone(),).abi_encode_params()
}

/// `SolValue::abi_encode_params` on `(uint256, bytes[])`: a word and an offset,
/// then the list.
#[verifier::external_body]
pub(crate) fn encode_deadline_calls(deadline: &[u8; 32], calls: &Vec<Vec<u8>>) -> (r: Vec<u8>)
    ensures
        r@ == layout(
            seq![Slot::Word(deadline@), Slot::Tail(bytes_list_tail(byte_views(calls@)))],
        ),
{
    (U256::from_be_bytes(*deadline), calls.clone()).abi_encode_params()
}

/// `SolValue::abi_encode_params` on `(uint256, uint256, address[], address,
/// uint256)`: five heads, the third the offset of the list behind them.
#[verifier::external_body]
pub(crate) fn encode_path_swap(
    amount: &[u8; 32],
    limit: &[u8; 32],
    path: &Vec<[u8; 20]>,
    to: &[u8; 20],
    deadline: &[u8; 32],
) -> (r: Vec<u8>)
    ensures
        r@ == layout(
            seq![
                Slot::Word(amount@),
                Slot::Word(limit@),
                Slot::Tail(address_list_tail(array_views(path@))),
                Slot::Word(address_word(to@)),
                Slot::Word(deadline@),
            ],
        ),
{
    (
        U256::from_be_bytes(*amount),
        U256::from_be_bytes(*limit),
        path.iter().map(|a| Address::from(*a)).collect::<Vec<Address>>(),
        Address::from(*to),
        U256::from_be_bytes(*deadline),
    ).abi_encode_params()
}

/// `SolValue::abi_encode_params` on `(uint256, address[], address, uint256)`:
/// four heads, the second the offset of the list behind them.
#[verifier::external_body]
pub(crate) fn encode_path_swap_payable(
    amount: &[u8; 32],
    path: &Vec<[u8; 20]>,
    to: &[u8; 20],
    deadline: &[u8; 32],
) -> (r: Vec<u8>)
    ensures
        r@ == layout(
            seq![
                Slot::Word(amount@),
                Slot::Tail(address_list_tail(array_views(path@))),
                Slot::Word(address_word(to@)),
                Slot::Word(deadline@),
            ],
        ),
{
    (
        U256::from_be_bytes(*amount),
        path.iter().map(|a| Address::from(*a)).collect::<Vec<Address>>(),
        Address::from(*to),
        U256::from_be_bytes(*deadline),
    ).abi_encode_params()
}

/// `SolValue::abi_encode_params` on `(address, address, uint24, address,
/// uint256, uint256, uint160)`: seven words. `U24::from` and `U160::from` panic
/// on a value that is too wide.
#[verifier::external_body]
pub(crate) fn encode_single_by_fee(
    token_in: &[u8; 20],
    token_out: &[u8; 20],
    fee: u32,
    recipient: &[u8; 20],
    amount: &[u8; 32],
    limit: &[u8; 32],
    sqrt_limit: &[u8; 32],
) -> (r: Vec<u8>)
    requires
        fee < 0x100_0000,
        be_value(sqrt_limit@) < two_160(),
    ensures
        r@ == layout(
            seq![
                Slot::Word(address_word(token_in@)),
                Slot::Word(address_word(token_out@)),
                Slot::Word(word(fee as nat)),
                Slot::Word(address_word(recipient@)),
                Slot::Word(amount@),
                Slot::Word(limit@),
                Slot::Word(sqrt_limit@),
            ],
        ),
{
    (
        Address::from(*token_in),
        Address::from(*token_out),
        U24::from(fee),
        Address::from(*recipient),
        U256::from_be_bytes(*amount),
        U256::from_be_bytes(*limit),
        U160::from(U256::from_be_bytes(*sqrt_limit)),
    ).abi_encode_params()
}

/// `SolValue::abi_encode_params` on `(address, address, int24, address,
/// uint256, uint256, uint256, uint160)`: eight words. The conversions to
/// `int24` and `uint160` panic on a value that is too wide.
#[verifier::external_body]
pub(crate) fn encode_single_by_spacing(
    token_in: &[u8; 20],
    token_out: &[u8; 20],
    tick_spacing: i32,
    recipient: &[u8; 20],
    deadline: &[u8; 32],
    amount: &[u8; 32],
    limit: &[u8; 32],
    sqrt_limit: &[u8; 32],
) -> (r: Vec<u8>)
    requires
        -0x80_0000 <= tick_spacing < 0x80_0000,
        be_value(sqrt_limit@) < two_160(),
    ensures
        r@ == layout(
            seq![
                Slot::Word(address_word(token_in@)),
                Slot::Word(address_word(token_out@)),
                Slot::Word(int_word(tick_spacing as int)),
                Slot::Word(address_word(recipient@)),
                Slot::Word(deadline@),
                Slot::Word(amount@),
                Slot::Word(limit@),
                Slot::Word(sqrt_limit@),
            ],
        ),
{
    (
        Address::from(*token_in),
        Address::from(*token_out),
        I24::try_from(tick_spacing).unwrap(),
        Address::from(*recipient),
        U256::from_be_bytes(*deadline),
        U256::from_be_bytes(*amount),
        U256::from_be_bytes(*limit),
        U160::from(U256::from_be_bytes(*sqrt_limit)),
    ).abi_encode_params()
}

/// `SolValue::abi_encode_params` on `(uint256, uint256, (address, address,
/// bool, address)[], address, uint256)`: five heads, the third the offset of
/// the list behind them.
#[verifier::external_body]
pub(crate) fn encode_leg_swap(
    amount: &[u8; 32],
    limit: &[u8; 32],
    legs: &Vec<LegBytes>,
    to: &[u8; 20],
    deadline: &[u8; 32],
) -> (r: Vec<u8>)
    ensures
        r@ == layout(
            seq![
                Slot::Word(amount@),
                Slot::Word(limit@),
                Slot::Tail(static_list_tail(leg_views(legs@))),
                Slot::Word(address_word(to@)),
                Slot::Word(deadline@),
            ],
        ),
{
    (
        U256::from_be_bytes(*amount),
        U256::from_be_bytes(*limit),
        legs.iter().map(
            |l| (Address::from(l.from), Address::from(l.to), l.stable, Address::from(l.factory)),
        ).collect::<Vec<_>>(),
        Address::from(*to),
        U256::from_be_bytes(*deadline),
    ).abi_encode_params()
}

/// `SolValue::abi_encode_params` on `(uint256, (address, address, bool,
/// address)[], address, uint256)`: four heads, the second the offset of the
/// list behind them.
#[verifier::external_body]
pub(crate) fn encode_leg_swap_payable(
    amount: &[u8; 32],
    legs: &Vec<LegBytes>,
    to: &[u8; 20],
    deadline: &[u8; 32],
) -> (r: Vec<u8>)
    ensures
        r@ == layout(
            seq![
                Slot::Word(amount@),
                Slot::Tail(static_list_tail(leg_views(legs@))),
                Slot::Word(address_word(to@)),
                Slot::Word(deadline@),
            ],
        ),
{
    (
        U256::from_be_bytes(*amount),
        legs.iter().map(
            |l| (Address::from(l.from), Address::from(l.to), l.stable, Address::from(l.factory)),
        ).collect::<Vec<_>>(),
        Address::from(*to),
        U256::from_be_bytes(*deadline),
    ).abi_encode_params()
}

/// `SolValue::abi_encode_params` on `(int128, int128, uint256, uint256)`: four
/// words.
#[verifier::external_body]
pub(crate) fn encode_signed_exchange(i: i128, j: i128, dx: &[u8; 32], min_dy: &[u8; 32]) -> (r: Vec<
    u8,
>)
    ensures
        r@ == layout(
            seq![
                Slot::Word(int_word(i as int)),
                Slot::Word(int_word(j as int)),
                Slot::Word(dx@),
                Slot::Word(min_dy@),
            ],
        ),
{
    (i, j, U256::from_be_bytes(*dx), U256::from_be_bytes(*min_dy)).abi_encode_params()
}

/// `SolValue::abi_encode_params` on `(uint256, uint256, uint256, uint256,
/// bool)`: five words.
#[verifier::external_body]
pub(crate) fn encode_flag_exchange(
    i: &[u8; 32],
    j: &[u8; 32],
    dx: &[u8; 32],
    min_dy: &[u8; 32],
    use_eth: bool,
) -> (r: Vec<u8>)
    ensures
        r@ == layout(
            seq![
                Slot::Word(i@),
                Slot::Word(j@),
                Slot::Word(dx@),
                Slot::Word(min_dy@),
                Slot::Word(bool_word(use_eth)),
            ],
        ),
{
    (
        U256::from_be_bytes(*i),
        U256::from_be_bytes(*j),
        U256::from_be_bytes(*dx),
        U256::from_be_bytes(*min_dy),
        use_eth,
    ).abi_encode_params()
}

/// `SolValue::abi_encode_params` on `(uint256, uint256, uint256, uint256,
/// address)`: five words.
#[verifier::external_body]
pub(crate) fn encode_receiver_exchange(
    i: &[u8; 32],
    j: &[u8; 32],
    dx: &[u8; 32],
    min_dy: &[u8; 32],
    receiver: &[u8; 20],
) -> (r: Vec<u8>)
    ensures
        r@ == layout(
            seq![
                Slot::Word(i@),
                Slot::Word(j@),
                Slot::Word(dx@),
                Slot::Word(min_dy@),
                Slot::Word(address_word(receiver@)),
            ],
        ),
{
    (
        U256::from_be_bytes(*i),
        U256::from_be_bytes(*j),
        U256::from_be_bytes(*dx),
        U256::from_be_bytes(*min_dy),
        Address::from(*receiver),
    ).abi_encode_params()
}

/// The identity of a keyed pool as byte arrays and small integers.
pub struct KeyBytes {
    pub currency0: [u8; 20],
    pub currency1: [u8; 20],
    pub fee: u32,
    pub tick_spacing: i32,
    pub hooks: [u8; 20],
}

/// `SolValue::abi_encode` on `((address, address, uint24, int24, address),
/// bool, uint128, uint128, bytes)`: an offset, then the tuple as nine heads and
/// the byte string, the inner static tuple spread over its five words. The
/// conversions to `uint24` and `int24` panic on a value that is too wide.
#[verifier::external_body]
pub(crate) fn encode_keyed_swap(
    key: &KeyBytes,
    zero_for_one: bool,
    amount: u128,
    limit: u128,
    hook_data: &Vec<u8>,
) -> (r: Vec<u8>)
    requires
        key.fee < 0x100_0000,
        -0x80_0000 <= key.tick_spacing < 0x80_0000,
    ensures
        r@ == layout(
            seq![
                Slot::Tail(
                    layout(
                        seq![
                            Slot::Word(address_word(key.currency0@)),
                            Slot::Word(address_word(key.currency1@)),
                            Slot::Word(word(key.fee as nat)),
                            Slot::Word(int_word(key.tick_spacing as int)),
                            Slot::Word(address_word(key.hooks@)),
                            Slot::Word(bool_word(zero_for_one)),
                            Slot::Word(word(amount as nat)),
                            Slot::Word(word(limit as nat)),
                            Slot::Tail(bytes_tail(hook_data@)),
                        ],
                    ),
                ),
            ],
        ),
{
    let pool_key = (
        Address::from(key.currency0),
        Address::from(key.currency1),
        U24::from(key.fee),
        I24::try_from(key.tick_spacing).unwrap(),
        Address::from(key.hooks),
    );
    (pool_key, zero_for_one, amount, limit, hook_data.clone()).abi_encode()
}

/// The calldata of a call: the four selector bytes, then the arguments.
pub(crate) fn call_data(selector: u32, args: Vec<u8>) -> (r: Vec<u8>)
    ensures
        r@ == be_bytes(selector as nat, 4) + args@,
{
    let mut out: Vec<u8> = Vec::new();
    push_be(&mut out, selector as u64, 4);
    let mut rest = args;
    out.append(&mut rest);
    assert(out@ =~= be_bytes(selector as nat, 4) + args@);
    out
}

/// An unsigned integer argument.
pub open spec fn uint_slot(x: crate::primitives::U256) -> Slot {
    Slot::Word(word(x.value()))
}

/// An address argument.
pub open spec fn address_slot(a: crate::primitives::Address) -> Slot {
    Slot::Word(address_word(a.bytes()))
}

} // verus!
