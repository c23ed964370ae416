//! Reading an argument list back: what stands at which place of a layout.
use crate::abi::{bytes_list_tail, bytes_tail, heads, int_word, layout, tails, word, Slot};
use crate::primitives::{
    be_bytes, be_bytes_round_trip, be_value, lemma_be_bytes_len, lemma_pow256_values, two_256,
    Address,
};
use vstd::prelude::*;

verus! {

/// The 32 bytes at an offset.
pub open spec fn word_at(data: Seq<u8>, offset: int) -> Seq<u8> {
    data.subrange(offset, offset + 32)
}

/// The head of argument `i`.
pub open spec fn read_word(data: Seq<u8>, i: int) -> Seq<u8> {
    word_at(data, 32 * i)
}

/// The byte string that argument `i` points to.
pub open spec fn read_bytes(data: Seq<u8>, i: int) -> Seq<u8> {
    let offset = be_value(read_word(data, i)) as int;
    let len = be_value(word_at(data, offset)) as int;
    data.subrange(offset + 32, offset + 32 + len)
}

/// The list of byte strings that argument `i` points to.
pub open spec fn read_bytes_list(data: Seq<u8>, i: int) -> Seq<Seq<u8>> {
    let offset = be_value(read_word(data, i)) as int;
    let n = be_value(word_at(data, offset));
    let body = data.skip(offset + 32);
    Seq::new(n, |k: int| read_bytes(body, k))
}

/// How many elements the list that argument `i` points to has.
pub open spec fn list_len(data: Seq<u8>, i: int) -> nat {
    be_value(word_at(data, be_value(read_word(data, i)) as int))
}

/// Word `k` of the elements of the list that argument `i` points to.
pub open spec fn list_word(data: Seq<u8>, i: int, k: int) -> Seq<u8> {
    word_at(data, be_value(read_word(data, i)) as int + 32 + 32 * k)
}

/// Whether every static argument is one word.
pub open spec fn one_word_each(slots: Seq<Slot>) -> bool {
    forall|i: int|
        0 <= i < slots.len() ==> ((#[trigger] slots[i]) matches Slot::Word(w) ==> w.len() == 32)
}

/// Whether the data begins with this argument list, and is of a size that
/// offsets can express.
pub open spec fn begins_with(data: Seq<u8>, slots: Seq<Slot>) -> bool {
    &&& one_word_each(slots)
    &&& layout(slots).len() <= data.len() < two_256()
    &&& data.take(layout(slots).len() as int) == layout(slots)
}

/// The head of argument `i`: its word, or the offset of its bytes.
pub open spec fn head_of(slots: Seq<Slot>, i: int) -> Seq<u8> {
    match slots[i] {
        Slot::Word(w) => w,
        Slot::Tail(_) => word(32 * slots.len() + tails(slots, i as nat).len()),
    }
}

pub(crate) proof fn lemma_heads_len(slots: Seq<Slot>, n: nat)
    requires
        one_word_each(slots),
        n <= slots.len(),
    ensures
        heads(slots, n).len() == 32 * n,
    decreases n,
{
    if n > 0 {
        lemma_heads_len(slots, (n - 1) as nat);
        lemma_be_bytes_len(32 * slots.len() + tails(slots, (n - 1) as nat).len(), 32);
        assert(slots[n - 1] == slots[n - 1]);
    }
}

proof fn lemma_head_at(slots: Seq<Slot>, n: nat, i: int)
    requires
        one_word_each(slots),
        0 <= i < n <= slots.len(),
    ensures
        heads(slots, n).subrange(32 * i, 32 * i + 32) == head_of(slots, i),
    decreases n,
{
    lemma_heads_len(slots, n);
    lemma_heads_len(slots, (n - 1) as nat);
    let before = heads(slots, (n - 1) as nat);
    if i == n - 1 {
        assert(heads(slots, n) == before + head_of(slots, i));
        assert(heads(slots, n).subrange(32 * i, 32 * i + 32) =~= head_of(slots, i));
    } else {
        lemma_head_at(slots, (n - 1) as nat, i);
        assert(heads(slots, n).subrange(32 * i, 32 * i + 32) =~= before.subrange(
            32 * i,
            32 * i + 32,
        ));
    }
}

proof fn lemma_tail_at(slots: Seq<Slot>, n: nat, i: int)
    requires
        0 <= i < n <= slots.len(),
        slots[i] is Tail,
    ensures
        tails(slots, i as nat).len() + slots[i]->Tail_0.len() <= tails(slots, n).len(),
        tails(slots, n).subrange(
            tails(slots, i as nat).len() as int,
            (tails(slots, i as nat).len() + slots[i]->Tail_0.len()) as int,
        ) == slots[i]->Tail_0,
    decreases n,
{
    let from = tails(slots, i as nat).len() as int;
    let to = from + slots[i]->Tail_0.len();
    let before = tails(slots, (n - 1) as nat);
    if i == n - 1 {
        assert(tails(slots, n) == before + slots[i]->Tail_0);
        assert(tails(slots, n).subrange(from, to) =~= slots[i]->Tail_0);
    } else {
        lemma_tail_at(slots, (n - 1) as nat, i);
        assert(tails(slots, n).subrange(from, to) =~= before.subrange(from, to));
    }
}

proof fn lemma_word_value(n: nat)
    requires
        n < two_256(),
    ensures
        be_value(word(n)) == n,
        word(n).len() == 32,
{
    lemma_pow256_values();
    be_bytes_round_trip(n, 32);
    lemma_be_bytes_len(n, 32);
}

/// A static argument reads back as its word.
pub proof fn word_reads_back(data: Seq<u8>, slots: Seq<Slot>, i: int)
    requires
        begins_with(data, slots),
        0 <= i < slots.len(),
        slots[i] is Word,
    ensures
        read_word(data, i) == slots[i]->Word_0,
{
    lemma_heads(data, slots, i);
}

proof fn lemma_heads(data: Seq<u8>, slots: Seq<Slot>, i: int)
    requires
        begins_with(data, slots),
        0 <= i < slots.len(),
    ensures
        read_word(data, i) == head_of(slots, i),
{
    let n = slots.len();
    lemma_heads_len(slots, n);
    lemma_head_at(slots, n, i);
    let all = layout(slots);
    assert(read_word(data, i) =~= data.take(all.len() as int).subrange(32 * i, 32 * i + 32));
    assert(all.subrange(32 * i, 32 * i + 32) =~= heads(slots, n).subrange(32 * i, 32 * i + 32));
}

/// Where the bytes of dynamic argument `i` stand: at the offset in its head.
pub proof fn tail_reads_back(data: Seq<u8>, slots: Seq<Slot>, i: int)
    requires
        begins_with(data, slots),
        0 <= i < slots.len(),
        slots[i] is Tail,
    ensures
        ({
            let offset = be_value(read_word(data, i)) as int;
            let t = slots[i]->Tail_0;
            &&& offset + t.len() <= layout(slots).len()
            &&& data.subrange(offset, offset + t.len()) == t
        }),
{
    let n = slots.len();
    let t = slots[i]->Tail_0;
    lemma_heads(data, slots, i);
    lemma_heads_len(slots, n);
    lemma_tail_at(slots, n, i);
    let from = tails(slots, i as nat).len() as int;
    let offset = 32 * n + from;
    let all = layout(slots);
    lemma_word_value(offset as nat);
    assert(data.subrange(offset, offset + t.len()) =~= data.take(all.len() as int).subrange(
        offset,
        offset + t.len(),
    ));
    assert(all.subrange(offset, offset + t.len()) =~= tails(slots, n).subrange(
        from,
        from + t.len(),
    ));
}

/// A byte string argument reads back as the byte string.
pub proof fn bytes_read_back(data: Seq<u8>, slots: Seq<Slot>, i: int, b: Seq<u8>)
    requires
        begins_with(data, slots),
        0 <= i < slots.len(),
        slots[i] == Slot::Tail(bytes_tail(b)),
    ensures
        read_bytes(data, i) == b,
{
    let t = bytes_tail(b);
    tail_reads_back(data, slots, i);
    let offset = be_value(read_word(data, i)) as int;
    lemma_be_bytes_len(b.len(), 32);
    assert(b.len() < two_256());
    lemma_word_value(b.len());
    assert(t.subrange(0, 32) =~= word(b.len()));
    assert(t.subrange(32, 32 + b.len() as int) =~= b);
    assert(word_at(data, offset) =~= data.subrange(offset, offset + t.len()).subrange(0, 32));
    assert(read_bytes(data, i) =~= data.subrange(offset, offset + t.len()).subrange(
        32,
        32 + b.len() as int,
    ));
}

/// A list argument reads back as the list.
pub proof fn bytes_list_reads_back(data: Seq<u8>, slots: Seq<Slot>, i: int, l: Seq<Seq<u8>>)
    requires
        begins_with(data, slots),
        0 <= i < slots.len(),
        slots[i] == Slot::Tail(bytes_list_tail(l)),
    ensures
        read_bytes_list(data, i) == l,
{
    let t = bytes_list_tail(l);
    let inner = l.map_values(|b: Seq<u8>| Slot::Tail(bytes_tail(b)));
    tail_reads_back(data, slots, i);
    let offset = be_value(read_word(data, i)) as int;
    lemma_be_bytes_len(l.len(), 32);
    lemma_heads_len(inner, inner.len());
    assert(layout(inner).len() >= 32 * l.len());
    assert(l.len() < two_256());
    lemma_word_value(l.len());
    assert(t.subrange(0, 32) =~= word(l.len()));
    assert(word_at(data, offset) =~= data.subrange(offset, offset + t.len()).subrange(0, 32));
    let body = data.skip(offset + 32);
    assert(body.take(layout(inner).len() as int) =~= data.subrange(
        offset,
        offset + t.len(),
    ).subrange(32, t.len() as int));
    assert(t.subrange(32, t.len() as int) =~= layout(inner));
    assert(begins_with(body, inner));
    assert forall|k: int| 0 <= k < l.len() implies read_bytes(body, k) == l[k] by {
        assert(inner[k] == Slot::Tail(bytes_tail(l[k])));
        bytes_read_back(body, inner, k, l[k]);
    }
    assert(read_bytes_list(data, i) =~= l);
}

/// A list of static values reads back: its length, and its elements word by
/// word.
pub proof fn list_words_read_back(data: Seq<u8>, slots: Seq<Slot>, i: int, n: nat, body: Seq<u8>)
    requires
        begins_with(data, slots),
        0 <= i < slots.len(),
        slots[i] == Slot::Tail(word(n) + body),
        n < two_256(),
    ensures
        list_len(data, i) == n,
        forall|k: int| 0 <= k && 32 * k + 32 <= body.len() ==> #[trigger] list_word(data, i, k)
            == body.subrange(32 * k, 32 * k + 32),
{
    let t = word(n) + body;
    tail_reads_back(data, slots, i);
    lemma_word_value(n);
    let offset = be_value(read_word(data, i)) as int;
    let there = data.subrange(offset, offset + t.len());
    assert(word_at(data, offset) =~= there.subrange(0, 32));
    assert(t.subrange(0, 32) =~= word(n));
    assert forall|k: int| 0 <= k && 32 * k + 32 <= body.len() implies #[trigger] list_word(
        data,
        i,
        k,
    ) == body.subrange(32 * k, 32 * k + 32) by {
        assert(list_word(data, i, k) =~= there.subrange(32 + 32 * k, 64 + 32 * k));
        assert(t.subrange(32 + 32 * k, 64 + 32 * k) =~= body.subrange(32 * k, 32 * k + 32));
    }
}

/// A layout begins with itself.
pub proof fn lemma_whole(slots: Seq<Slot>)
    requires
        one_word_each(slots),
        layout(slots).len() < two_256(),
    ensures
        begins_with(layout(slots), slots),
{
    assert(layout(slots).take(layout(slots).len() as int) =~= layout(slots));
}

/// Words are 32 bytes long, addresses 20.
pub proof fn lemma_lengths()
    ensures
        forall|n: nat| (#[trigger] word(n)).len() == 32,
        forall|a: Address| (#[trigger] a.bytes()).len() == 20,
        forall|i: int| (#[trigger] int_word(i)).len() == 32,
        forall|s: u32| (#[trigger] be_bytes(s as nat, 4)).len() == 4,
{
    assert forall|n: nat| (#[trigger] word(n)).len() == 32 by {
        lemma_be_bytes_len(n, 32);
    }
    assert forall|a: Address| (#[trigger] a.bytes()).len() == 20 by {
        lemma_be_bytes_len(a.value(), 20);
    }
    assert forall|i: int| (#[trigger] int_word(i)).len() == 32 by {
        if i >= 0 {
            lemma_be_bytes_len(i as nat, 32);
        } else {
            lemma_be_bytes_len((two_256() + i) as nat, 32);
        }
    }
    assert forall|s: u32| (#[trigger] be_bytes(s as nat, 4)).len() == 4 by {
        lemma_be_bytes_len(s as nat, 4);
    }
}

/// A list element is no longer than the list, nor a dynamic argument longer
/// than its argument list.
pub proof fn lemma_parts_are_shorter(slots: Seq<Slot>, i: int, l: Seq<Seq<u8>>, k: int)
    requires
        0 <= i < slots.len(),
        slots[i] == Slot::Tail(bytes_list_tail(l)),
        0 <= k < l.len(),
    ensures
        l[k].len() <= layout(slots).len(),
{
    let inner = l.map_values(|b: Seq<u8>| Slot::Tail(bytes_tail(b)));
    lemma_tail_at(slots, slots.len(), i);
    assert(inner[k] == Slot::Tail(bytes_tail(l[k])));
    lemma_tail_at(inner, inner.len(), k);
}

/// The arguments of a call: its calldata without the selector.
pub open spec fn arguments(data: Seq<u8>) -> Seq<u8> {
    data.skip(4)
}

} // verus!
