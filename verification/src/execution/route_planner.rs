//! Universal Router command streams.
use crate::abi::{
    address_list_tail, address_slot, array_views, bool_word, byte_views, bytes_list_tail,
    bytes_tail, call_data, encode_bytes_path_input, encode_execute, encode_list_path_input, layout,
    uint_slot, word, Slot,
};
use crate::primitives::{be_bytes, lemma_be_bytes_len, push_be, two_256, Address, U256};
use crate::reading::{
    arguments, bytes_list_reads_back, bytes_read_back, lemma_whole, read_bytes, read_bytes_list,
    read_word, word_reads_back,
};
use vstd::prelude::*;

verus! {

/// Command: Uniswap V3 swap with a fixed input.
pub const V3_SWAP_EXACT_IN: u8 = 0x00;

/// Command: Uniswap V3 swap with a fixed output.
pub const V3_SWAP_EXACT_OUT: u8 = 0x01;

/// Command: Uniswap V2 swap with a fixed input.
pub const V2_SWAP_EXACT_IN: u8 = 0x08;

/// Command: Uniswap V2 swap with a fixed output.
pub const V2_SWAP_EXACT_OUT: u8 = 0x09;

/// Command: Uniswap V4 swap.
pub const V4_SWAP: u8 = 0x10;

/// Command: wrap native ETH. The V4 encoder emits it where a WETH pool is fed
/// native ETH.
pub const WRAP_ETH: u8 = 0x0b;

/// Command: unwrap WETH. The V4 encoder emits it where a WETH pool pays native
/// ETH, and to return what an exact-out wrap left over.
pub const UNWRAP_WETH: u8 = 0x0c;

/// Command: process a Permit2 `permit`.
pub const PERMIT2_PERMIT: u8 = 0x0a;

/// Command: sweep a token to a recipient.
pub const SWEEP: u8 = 0x04;

/// Selector of `execute(bytes,bytes[],uint256)`.
pub const EXECUTE: u32 = 0x3593564c;

/// The amount that stands for the router's whole balance: bit 255 alone.
#[verifier::allow_in_spec]
pub fn contract_balance() -> U256
    returns
        (U256 { l3: 0x8000_0000_0000_0000, l2: 0, l1: 0, l0: 0 }),
{
    U256 { l3: 0x8000_0000_0000_0000, l2: 0, l1: 0, l0: 0 }
}

/// The recipient that stands for the transaction sender.
#[verifier::allow_in_spec]
pub fn msg_sender() -> Address
    returns
        Address::with_last_byte(1),
{
    Address::with_last_byte(1)
}

/// The recipient that stands for the router itself.
#[verifier::allow_in_spec]
pub fn address_this() -> Address
    returns
        Address::with_last_byte(2),
{
    Address::with_last_byte(2)
}

/// The fee between hop tokens `i` and `i + 1` in three bytes, or nothing where
/// there is none.
pub open spec fn fee_bytes(fees: Seq<u32>, i: int) -> Seq<u8> {
    if 0 <= i < fees.len() {
        be_bytes(fees[i] as nat, 3)
    } else {
        Seq::empty()
    }
}

/// The first `n` tokens, each followed by the fee of the hop it starts.
pub open spec fn forward_path(tokens: Seq<Address>, fees: Seq<u32>, n: nat) -> Seq<u8>
    decreases n,
{
    if n == 0 {
        Seq::empty()
    } else {
        forward_path(tokens, fees, (n - 1) as nat) + (tokens[n - 1].bytes() + fee_bytes(
            fees,
            n - 1,
        ))
    }
}

/// The first `n` tokens from last to first, each followed by the fee of the hop
/// that ends in it.
pub open spec fn backward_path(tokens: Seq<Address>, fees: Seq<u32>, n: nat) -> Seq<u8>
    decreases n,
{
    if n == 0 {
        Seq::empty()
    } else {
        tokens[n - 1].bytes() + fee_bytes(fees, n - 2) + backward_path(
            tokens,
            fees,
            (n - 1) as nat,
        )
    }
}

/// A packed multi-hop path, front to back or back to front.
pub open spec fn packed_path(tokens: Seq<Address>, fees: Seq<u32>, reversed: bool) -> Seq<u8> {
    if reversed {
        backward_path(tokens, fees, tokens.len())
    } else {
        forward_path(tokens, fees, tokens.len())
    }
}

fn push_address(out: &mut Vec<u8>, a: Address)
    ensures
        final(out)@ == old(out)@ + a.bytes(),
{
    let bytes = a.to_bytes();
    let mut i: usize = 0;
    let ghost before = out@;
    assert(before + bytes@.take(0) =~= before);
    while i < 20
        invariant
            i <= 20,
            out@ == before + bytes@.take(i as int),
        decreases 20 - i,
    {
        out.push(bytes[i]);
        assert(before + bytes@.take(i + 1) =~= (before + bytes@.take(i as int)).push(
            bytes@[i as int],
        ));
        i = i + 1;
    }
    assert(bytes@.take(20) =~= bytes@);
}

/// Packs a multi-hop path: tokens with the three-byte fee of each hop between
/// them. An exact-out swap takes the path back to front.
pub fn v3_path(tokens: &[Address], fees: &[u32], reversed: bool) -> (r: Vec<u8>)
    ensures
        r@ == packed_path(tokens@, fees@, reversed),
{
    let mut out: Vec<u8> = Vec::new();
    let n: usize = tokens.len();
    if reversed {
        let mut i: usize = n;
        assert(out@ + backward_path(tokens@, fees@, n as nat) =~= backward_path(
            tokens@,
            fees@,
            n as nat,
        ));
        while i > 0
            invariant
                i <= n == tokens@.len(),
                out@ + backward_path(tokens@, fees@, i as nat) == backward_path(
                    tokens@,
                    fees@,
                    n as nat,
                ),
            decreases i,
        {
            let ghost before = out@;
            push_address(&mut out, tokens[i - 1]);
            if i >= 2 && i - 2 < fees.len() {
                push_be(&mut out, fees[i - 2] as u64, 3);
            }
            proof {
                let piece = tokens@[i - 1].bytes() + fee_bytes(fees@, i - 2);
                assert(out@ =~= before + piece);
                assert(out@ + backward_path(tokens@, fees@, (i - 1) as nat) =~= before + (piece
                    + backward_path(tokens@, fees@, (i - 1) as nat)));
            }
            i = i - 1;
        }
        assert(out@ + backward_path(tokens@, fees@, 0) =~= out@);
    } else {
        let mut i: usize = 0;
        while i < n
            invariant
                i <= n == tokens@.len(),
                out@ == forward_path(tokens@, fees@, i as nat),
            decreases n - i,
        {
            let ghost before = out@;
            push_address(&mut out, tokens[i]);
            if i < fees.len() {
                push_be(&mut out, fees[i] as u64, 3);
            }
            assert(out@ =~= before + (tokens@[i as int].bytes() + fee_bytes(fees@, i as int)));
            i = i + 1;
        }
    }
    out
}

/// The input of a V3 command. Amount and limit are the input and the least
/// output of an exact-in swap, the output and the most input of an exact-out
/// swap; the command byte says which.
pub fn v3_swap_input(
    _exact_in: bool,
    recipient: Address,
    amount: U256,
    limit: U256,
    path: Vec<u8>,
    payer_is_user: bool,
) -> (r: Vec<u8>)
    ensures
        r@ == layout(
            seq![
                address_slot(recipient),
                uint_slot(amount),
                uint_slot(limit),
                Slot::Tail(bytes_tail(path@)),
                Slot::Word(bool_word(payer_is_user)),
            ],
        ),
{
    encode_bytes_path_input(
        &recipient.to_bytes(),
        &amount.to_be_bytes(),
        &limit.to_be_bytes(),
        &path,
        payer_is_user,
    )
}

/// The bytes of each address of a list.
pub open spec fn address_views(l: Seq<Address>) -> Seq<Seq<u8>> {
    l.map_values(|a: Address| a.bytes())
}

/// The 20 bytes of each address of a list.
pub(crate) fn address_arrays(l: &Vec<Address>) -> (r: Vec<[u8; 20]>)
    ensures
        array_views(r@) == address_views(l@),
{
    let mut out: Vec<[u8; 20]> = Vec::new();
    let mut i: usize = 0;
    while i < l.len()
        invariant
            i <= l@.len(),
            out@.len() == i,
            forall|j: int| 0 <= j < i ==> (#[trigger] out@[j])@ == l@[j].bytes(),
        decreases l@.len() - i,
    {
        out.push(l[i].to_bytes());
        i = i + 1;
    }
    assert(array_views(out@) =~= address_views(l@));
    out
}

/// The input of a V2 command. Amount and limit are as in [`v3_swap_input`].
pub fn v2_swap_input(
    _exact_in: bool,
    recipient: Address,
    amount: U256,
    limit: U256,
    path: Vec<Address>,
    payer_is_user: bool,
) -> (r: Vec<u8>)
    ensures
        r@ == layout(
            seq![
                address_slot(recipient),
                uint_slot(amount),
                uint_slot(limit),
                Slot::Tail(address_list_tail(address_views(path@))),
                Slot::Word(bool_word(payer_is_user)),
            ],
        ),
{
    let arrays = address_arrays(&path);
    encode_list_path_input(
        &recipient.to_bytes(),
        &amount.to_be_bytes(),
        &limit.to_be_bytes(),
        &arrays,
        payer_is_user,
    )
}

/// The calldata that runs these commands on these inputs until `deadline`.
pub open spec fn execute_data(commands: Seq<u8>, inputs: Seq<Seq<u8>>, deadline: u64) -> Seq<u8> {
    be_bytes(EXECUTE as nat, 4) + layout(
        seq![
            Slot::Tail(bytes_tail(commands)),
            Slot::Tail(bytes_list_tail(inputs)),
            Slot::Word(word(deadline as nat)),
        ],
    )
}

/// Universal Router commands and their inputs, in order.
pub struct RoutePlanner {
    commands: Vec<u8>,
    inputs: Vec<Vec<u8>>,
}

impl RoutePlanner {
    /// The queued command bytes.
    pub closed spec fn commands(self) -> Seq<u8> {
        self.commands@
    }

    /// The input of each queued command.
    pub closed spec fn inputs(self) -> Seq<Seq<u8>> {
        byte_views(self.inputs@)
    }

    /// A planner without commands.
    pub fn new() -> (r: RoutePlanner)
        ensures
            r.commands() == Seq::<u8>::empty(),
            r.inputs() == Seq::<Seq<u8>>::empty(),
    {
        let r = RoutePlanner { commands: Vec::new(), inputs: Vec::new() };
        assert(r.inputs() =~= Seq::<Seq<u8>>::empty());
        r
    }

    /// Queues one command behind the others and hands the planner back for the
    /// next.
    pub fn add(&mut self, command: u8, input: Vec<u8>) -> (r: &mut RoutePlanner)
        ensures
            r.commands() == old(self).commands().push(command),
            r.inputs() == old(self).inputs().push(input@),
            *final(self) == *final(r),
    {
        let ghost before = self.inputs@;
        self.commands.push(command);
        self.inputs.push(input);
        assert(byte_views(self.inputs@) =~= byte_views(before).push(input@));
        self
    }

    /// The `execute` call for all queued commands.
    pub fn encode(&self, deadline: u64) -> (r: Vec<u8>)
        ensures
            r@ == execute_data(self.commands(), self.inputs(), deadline),
    {
        let secs = U256::from_u64(deadline).to_be_bytes();
        call_data(EXECUTE, encode_execute(&self.commands, &self.inputs, &secs))
    }
}

impl Default for RoutePlanner {
    fn default() -> (r: RoutePlanner)
        ensures
            r.commands() == Seq::<u8>::empty(),
            r.inputs() == Seq::<Seq<u8>>::empty(),
    {
        RoutePlanner::new()
    }
}

/// The commands, the inputs and the deadline of an `execute` call read back.
pub proof fn execute_reads_back(commands: Seq<u8>, inputs: Seq<Seq<u8>>, deadline: u64)
    requires
        execute_data(commands, inputs, deadline).len() < two_256(),
    ensures
        ({
            let args = arguments(execute_data(commands, inputs, deadline));
            &&& read_bytes(args, 0) == commands
            &&& read_bytes_list(args, 1) == inputs
            &&& read_word(args, 2) == word(deadline as nat)
        }),
{
    let slots = seq![
        Slot::Tail(bytes_tail(commands)),
        Slot::Tail(bytes_list_tail(inputs)),
        Slot::Word(word(deadline as nat)),
    ];
    lemma_be_bytes_len(EXECUTE as nat, 4);
    lemma_be_bytes_len(deadline as nat, 32);
    assert(arguments(execute_data(commands, inputs, deadline)) =~= layout(slots));
    lemma_whole(slots);
    bytes_read_back(layout(slots), slots, 0, commands);
    bytes_list_reads_back(layout(slots), slots, 1, inputs);
    word_reads_back(layout(slots), slots, 2);
}

/// A path back to front is the path of the reversed tokens and fees.
pub proof fn reversed_path_is_path_reversed(tokens: Seq<Address>, fees: Seq<u32>)
    requires
        tokens.len() == fees.len() + 1,
    ensures
        packed_path(tokens, fees, true) == packed_path(tokens.reverse(), fees.reverse(), false),
{
    lemma_reversed(tokens, fees, tokens.len());
    assert(forward_path(tokens.reverse(), fees.reverse(), 0) + backward_path(
        tokens,
        fees,
        tokens.len(),
    ) =~= backward_path(tokens, fees, tokens.len()));
}

proof fn lemma_reversed(tokens: Seq<Address>, fees: Seq<u32>, n: nat)
    requires
        tokens.len() == fees.len() + 1,
        n <= tokens.len(),
    ensures
        forward_path(tokens.reverse(), fees.reverse(), (tokens.len() - n) as nat) + backward_path(
            tokens,
            fees,
            n,
        ) == forward_path(tokens.reverse(), fees.reverse(), tokens.len()),
    decreases n,
{
    let back = tokens.reverse();
    let done = (tokens.len() - n) as nat;
    if n == 0 {
        assert(forward_path(back, fees.reverse(), tokens.len()) + backward_path(tokens, fees, 0)
            =~= forward_path(back, fees.reverse(), tokens.len()));
    } else {
        lemma_reversed(tokens, fees, (n - 1) as nat);
        assert(back[done as int] == tokens[n - 1]);
        assert(fee_bytes(fees.reverse(), done as int) =~= fee_bytes(fees, n - 2));
        let piece = tokens[n - 1].bytes() + fee_bytes(fees, n - 2);
        assert(forward_path(back, fees.reverse(), done) + (piece + backward_path(
            tokens,
            fees,
            (n - 1) as nat,
        )) =~= forward_path(back, fees.reverse(), done) + piece + backward_path(
            tokens,
            fees,
            (n - 1) as nat,
        ));
    }
}

/// A path reads back: token `i` in the 20 bytes behind the tokens and fees before
/// it, then the fee of the hop that it starts in 3.
pub proof fn path_reads_back(tokens: Seq<Address>, fees: Seq<u32>, i: int)
    requires
        tokens.len() == fees.len() + 1,
        0 <= i < tokens.len(),
    ensures
        packed_path(tokens, fees, false).subrange(23 * i, 23 * i + 20) == tokens[i].bytes(),
        i < fees.len() ==> packed_path(tokens, fees, false).subrange(23 * i + 20, 23 * i + 23)
            == be_bytes(fees[i] as nat, 3),
{
    lemma_forward_at(tokens, fees, tokens.len(), i);
}

/// A path back to front reads back: token `i` with as many tokens and fees before
/// it as there are behind it, then the fee of the hop that ends in it.
pub proof fn reversed_path_reads_back(tokens: Seq<Address>, fees: Seq<u32>, i: int)
    requires
        tokens.len() == fees.len() + 1,
        0 <= i < tokens.len(),
    ensures
        ({
            let path = packed_path(tokens, fees, true);
            let at = 23 * (tokens.len() - 1 - i);
            &&& path.subrange(at, at + 20) == tokens[i].bytes()
            &&& i > 0 ==> path.subrange(at + 20, at + 23) == be_bytes(fees[i - 1] as nat, 3)
        }),
{
    reversed_path_is_path_reversed(tokens, fees);
    path_reads_back(tokens.reverse(), fees.reverse(), tokens.len() - 1 - i);
}

proof fn lemma_forward_at(tokens: Seq<Address>, fees: Seq<u32>, n: nat, i: int)
    requires
        tokens.len() == fees.len() + 1,
        0 <= i < n <= tokens.len(),
    ensures
        ({
            let path = forward_path(tokens, fees, n);
            &&& path.len() >= 23 * i + 20 + fee_bytes(fees, i).len()
            &&& path.subrange(23 * i, 23 * i + 20) == tokens[i].bytes()
            &&& i < fees.len() ==> path.subrange(23 * i + 20, 23 * i + 23) == be_bytes(
                fees[i] as nat,
                3,
            )
        }),
    decreases n,
{
    let head = forward_path(tokens, fees, (n - 1) as nat);
    let path = forward_path(tokens, fees, n);
    lemma_forward_length(tokens, fees, (n - 1) as nat);
    lemma_be_bytes_len(tokens[n - 1].value(), 20);
    if n - 1 < fees.len() {
        lemma_be_bytes_len(fees[n - 1] as nat, 3);
    }
    if i < fees.len() {
        lemma_be_bytes_len(fees[i] as nat, 3);
    }
    if i == n - 1 {
        assert(path.subrange(23 * i, 23 * i + 20) =~= tokens[i].bytes());
        if i < fees.len() {
            assert(path.subrange(23 * i + 20, 23 * i + 23) =~= be_bytes(fees[i] as nat, 3));
        }
    } else {
        lemma_forward_at(tokens, fees, (n - 1) as nat, i);
        assert(path.subrange(23 * i, 23 * i + 20) =~= head.subrange(23 * i, 23 * i + 20));
        assert(path.subrange(23 * i + 20, 23 * i + 23) =~= head.subrange(23 * i + 20, 23 * i + 23));
    }
}

/// A path of `n` tokens takes 20 bytes for each and 3 for each hop.
pub proof fn path_length(tokens: Seq<Address>, fees: Seq<u32>, reversed: bool)
    requires
        tokens.len() == fees.len() + 1,
    ensures
        packed_path(tokens, fees, reversed).len() == 20 * tokens.len() + 3 * fees.len(),
{
    if reversed {
        reversed_path_is_path_reversed(tokens, fees);
        lemma_forward_length(tokens.reverse(), fees.reverse(), tokens.len());
    } else {
        lemma_forward_length(tokens, fees, tokens.len());
    }
}

proof fn lemma_forward_length(tokens: Seq<Address>, fees: Seq<u32>, n: nat)
    requires
        tokens.len() == fees.len() + 1,
        n <= tokens.len(),
    ensures
        forward_path(tokens, fees, n).len() == 20 * n + 3 * (if n <= fees.len() {
            n
        } else {
            fees.len()
        }),
    decreases n,
{
    if n > 0 {
        lemma_forward_length(tokens, fees, (n - 1) as nat);
        lemma_be_bytes_len(tokens[n - 1].value(), 20);
        if n - 1 < fees.len() {
            lemma_be_bytes_len(fees[n - 1] as nat, 3);
        }
    }
}

} // verus!
