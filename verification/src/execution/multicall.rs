//! Several router calls in one transaction.
use crate::abi::{
    byte_views, bytes_list_tail, call_data, encode_calls, encode_deadline_calls, layout, word, Slot,
};
use crate::primitives::{be_bytes, lemma_be_bytes_len, two_256, U256};
use crate::reading::{
    arguments, bytes_list_reads_back, lemma_whole, read_bytes_list, read_word, word_reads_back,
};
use vstd::prelude::*;

verus! {

/// Selector of `multicall(bytes[])`.
pub const MULTICALL: u32 = 0xac9650d8;

/// Selector of `multicall(uint256,bytes[])`.
pub const MULTICALL_WITH_DEADLINE: u32 = 0x5ae401dc;

/// The calldata that makes these calls, in order: the call itself where there
/// is one and no deadline, otherwise one of the two `multicall` overloads.
pub open spec fn multicall_data(deadline: Option<u64>, calls: Seq<Seq<u8>>) -> Seq<u8> {
    match deadline {
        None => if calls.len() == 1 {
            calls[0]
        } else {
            be_bytes(MULTICALL as nat, 4) + layout(seq![Slot::Tail(bytes_list_tail(calls))])
        },
        Some(d) => be_bytes(MULTICALL_WITH_DEADLINE as nat, 4) + layout(
            seq![Slot::Word(word(d as nat)), Slot::Tail(bytes_list_tail(calls))],
        ),
    }
}

/// One call without a deadline is returned as it is. Several calls, or a
/// deadline, take the matching `multicall` overload.
pub fn encode_multicall(deadline: Option<u64>, calls: Vec<Vec<u8>>) -> (r: Vec<u8>)
    ensures
        r@ == multicall_data(deadline, byte_views(calls@)),
{
    match deadline {
        None => {
            if calls.len() == 1 {
                let mut calls = calls;
                let only = calls.swap_remove(0);
                only
            } else {
                call_data(MULTICALL, encode_calls(&calls))
            }
        },
        Some(d) => {
            let secs = U256::from_u64(d).to_be_bytes();
            call_data(MULTICALL_WITH_DEADLINE, encode_deadline_calls(&secs, &calls))
        },
    }
}

/// The calls of a `multicall` read back, and its deadline where it has one.
pub proof fn multicall_reads_back(deadline: Option<u64>, calls: Seq<Seq<u8>>)
    requires
        deadline is Some || calls.len() != 1,
        multicall_data(deadline, calls).len() < two_256(),
    ensures
        ({
            let args = arguments(multicall_data(deadline, calls));
            match deadline {
                None => read_bytes_list(args, 0) == calls,
                Some(d) => read_word(args, 0) == word(d as nat) && read_bytes_list(args, 1)
                    == calls,
            }
        }),
{
    let list = Slot::Tail(bytes_list_tail(calls));
    match deadline {
        None => {
            let slots = seq![list];
            lemma_be_bytes_len(MULTICALL as nat, 4);
            assert(arguments(multicall_data(deadline, calls)) =~= layout(slots));
            lemma_whole(slots);
            bytes_list_reads_back(layout(slots), slots, 0, calls);
        },
        Some(d) => {
            let slots = seq![Slot::Word(word(d as nat)), list];
            lemma_be_bytes_len(MULTICALL_WITH_DEADLINE as nat, 4);
            lemma_be_bytes_len(d as nat, 32);
            assert(arguments(multicall_data(deadline, calls)) =~= layout(slots));
            lemma_whole(slots);
            word_reads_back(layout(slots), slots, 0);
            bytes_list_reads_back(layout(slots), slots, 1, calls);
        },
    }
}

} // verus!
