//! Numbers and assets as text.
use crate::asset::AssetId;
use crate::primitives::{be_bytes, be_value};
use vstd::prelude::*;
use vstd::string::StringExecFns;

verus! {

/// One digit, in base ten or sixteen.
pub open spec fn digit(d: u8) -> Seq<char> {
    match d {
        0 => "0"@,
        1 => "1"@,
        2 => "2"@,
        3 => "3"@,
        4 => "4"@,
        5 => "5"@,
        6 => "6"@,
        7 => "7"@,
        8 => "8"@,
        9 => "9"@,
        10 => "a"@,
        11 => "b"@,
        12 => "c"@,
        13 => "d"@,
        14 => "e"@,
        _ => "f"@,
    }
}

/// A number in base ten, without leading zeros.
pub open spec fn decimal(n: nat) -> Seq<char>
    decreases n,
{
    if n < 10 {
        digit(n as u8)
    } else {
        decimal(n / 10) + digit((n % 10) as u8)
    }
}

/// Bytes in base sixteen, two digits each.
pub open spec fn hex(s: Seq<u8>) -> Seq<char>
    decreases s.len(),
{
    if s.len() == 0 {
        Seq::empty()
    } else {
        hex(s.drop_last()) + digit(s.last() / 16) + digit(s.last() % 16)
    }
}

/// An asset: its chain, and its token slot in base sixteen.
pub open spec fn asset_text(a: AssetId) -> Seq<char> {
    decimal(a.chain.0 as nat) + ":0x"@ + hex(be_bytes(a.token.value(), 32))
}

/// The value of one digit, in base ten or sixteen.
pub open spec fn digit_value(c: char) -> nat {
    if '0' <= c <= '9' {
        (c as nat - 48) as nat
    } else {
        (c as nat - 87) as nat
    }
}

/// The number that digits stand for in a base.
pub open spec fn number(s: Seq<char>, base: nat) -> nat
    decreases s.len(),
{
    if s.len() == 0 {
        0
    } else {
        number(s.drop_last(), base) * base + digit_value(s.last())
    }
}

proof fn lemma_digit(d: u8)
    requires
        d < 16,
    ensures
        digit(d).len() == 1,
        digit_value(digit(d)[0]) == d,
        digit(d)[0] == '0' <==> d == 0,
{
    reveal_strlit("0");
    reveal_strlit("1");
    reveal_strlit("2");
    reveal_strlit("3");
    reveal_strlit("4");
    reveal_strlit("5");
    reveal_strlit("6");
    reveal_strlit("7");
    reveal_strlit("8");
    reveal_strlit("9");
    reveal_strlit("a");
    reveal_strlit("b");
    reveal_strlit("c");
    reveal_strlit("d");
    reveal_strlit("e");
    reveal_strlit("f");
}

/// A digit behind others adds itself to as many times the base.
proof fn lemma_number_of(s: Seq<char>, d: u8, base: nat)
    requires
        d < 16,
    ensures
        number(s + digit(d), base) == number(s, base) * base + d,
{
    lemma_digit(d);
    assert((s + digit(d)).drop_last() =~= s);
}

/// A number in base ten reads back as itself, and but for zero does not start
/// with a zero.
pub proof fn decimal_reads_back(n: nat)
    ensures
        number(decimal(n), 10) == n,
        decimal(n).len() > 0,
        decimal(n)[0] == '0' <==> n == 0,
    decreases n,
{
    if n < 10 {
        lemma_digit(n as u8);
        reveal_with_fuel(number, 2);
        assert(digit(n as u8).drop_last() =~= Seq::<char>::empty());
    } else {
        decimal_reads_back(n / 10);
        lemma_number_of(decimal(n / 10), (n % 10) as u8, 10);
    }
}

/// Bytes in base sixteen take two digits each and read back as the number that
/// the bytes are.
pub proof fn hex_reads_back(s: Seq<u8>)
    ensures
        hex(s).len() == 2 * s.len(),
        number(hex(s), 16) == be_value(s),
    decreases s.len(),
{
    if s.len() > 0 {
        let b = s.last();
        hex_reads_back(s.drop_last());
        lemma_digit(b / 16);
        lemma_digit(b % 16);
        lemma_number_of(hex(s.drop_last()), b / 16, 16);
        lemma_number_of(hex(s.drop_last()) + digit(b / 16), b % 16, 16);
    }
}

fn push_digit(out: &mut String, d: u8)
    requires
        d < 16,
    ensures
        final(out)@ == old(out)@ + digit(d),
{
    let s = match d {
        0 => "0",
        1 => "1",
        2 => "2",
        3 => "3",
        4 => "4",
        5 => "5",
        6 => "6",
        7 => "7",
        8 => "8",
        9 => "9",
        10 => "a",
        11 => "b",
        12 => "c",
        13 => "d",
        14 => "e",
        _ => "f",
    };
    out.append(s);
}

/// Appends a number in base ten.
pub(crate) fn push_decimal(out: &mut String, n: u64)
    ensures
        final(out)@ == old(out)@ + decimal(n as nat),
    decreases n,
{
    let ghost before = out@;
    if n >= 10 {
        push_decimal(out, n / 10);
        push_digit(out, (n % 10) as u8);
        assert(out@ =~= before + decimal(n as nat));
    } else {
        push_digit(out, n as u8);
    }
}

/// Appends an asset.
pub(crate) fn push_asset(out: &mut String, a: &AssetId)
    ensures
        final(out)@ == old(out)@ + asset_text(*a),
{
    let ghost before = out@;
    push_decimal(out, a.chain.0);
    out.append(":0x");
    let ghost prefix = out@;
    let bytes = a.token.0.to_be_bytes();
    let mut i: usize = 0;
    assert(bytes@.take(0) =~= Seq::<u8>::empty());
    assert(prefix + hex(bytes@.take(0)) =~= prefix);
    while i < 32
        invariant
            i <= 32,
            out@ == prefix + hex(bytes@.take(i as int)),
        decreases 32 - i,
    {
        let b: u8 = bytes[i];
        push_digit(out, b / 16);
        push_digit(out, b % 16);
        proof {
            let next = bytes@.take(i + 1);
            assert(next.drop_last() =~= bytes@.take(i as int));
            assert(next.last() == b);
            assert(out@ =~= prefix + hex(next));
        }
        i = i + 1;
    }
    assert(bytes@.take(32) =~= bytes@);
    assert(out@ =~= before + asset_text(*a));
}

} // verus!
