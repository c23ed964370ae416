//! Fixed-width values: 256-bit words, 20-byte addresses, and the big-endian
//! byte strings they are written as.
use vstd::prelude::*;

verus! {

/// `256` to the power `k`: the number of values that `k` bytes can hold.
pub open spec fn pow256(k: nat) -> nat
    decreases k,
{
    if k == 0 {
        1
    } else {
        256 * pow256((k - 1) as nat)
    }
}

/// The `k` low bytes of `n`, most significant first.
pub open spec fn be_bytes(n: nat, k: nat) -> Seq<u8>
    decreases k,
{
    if k == 0 {
        Seq::empty()
    } else {
        be_bytes(n / 256, (k - 1) as nat).push((n % 256) as u8)
    }
}

/// The number that a byte string reads as, most significant byte first.
pub open spec fn be_value(s: Seq<u8>) -> nat
    decreases s.len(),
{
    if s.len() == 0 {
        0
    } else {
        be_value(s.drop_last()) * 256 + s.last() as nat
    }
}

/// Two to the power 64: one more than the largest limb.
pub open spec fn limb_base() -> nat {
    0x1_0000_0000_0000_0000nat
}

/// Two to the power 128.
pub open spec fn two_128() -> nat {
    0x1_0000_0000_0000_0000_0000_0000_0000_0000nat
}

/// Two to the power 160.
pub open spec fn two_160() -> nat {
    0x1_0000_0000_0000_0000_0000_0000_0000_0000_0000_0000nat
}

/// Two to the power 256.
pub open spec fn two_256() -> nat {
    0x1_0000_0000_0000_0000_0000_0000_0000_0000_0000_0000_0000_0000_0000_0000_0000_0000nat
}

pub proof fn lemma_be_bytes_len(n: nat, k: nat)
    ensures
        be_bytes(n, k).len() == k,
    decreases k,
{
    if k > 0 {
        lemma_be_bytes_len(n / 256, (k - 1) as nat);
    }
}

/// Reading back `k` bytes written from a number that fits in them gives that
/// number.
pub proof fn be_bytes_round_trip(n: nat, k: nat)
    requires
        n < pow256(k),
    ensures
        be_value(be_bytes(n, k)) == n,
    decreases k,
{
    if k > 0 {
        be_bytes_round_trip(n / 256, (k - 1) as nat);
        assert(be_bytes(n, k).drop_last() =~= be_bytes(n / 256, (k - 1) as nat));
    }
}

pub(crate) proof fn lemma_be_bytes_split(a: nat, b: nat, j: nat, k: nat)
    requires
        b < pow256(k),
    ensures
        be_bytes(a * pow256(k) + b, j + k) == be_bytes(a, j) + be_bytes(b, k),
    decreases k,
{
    if k == 0 {
        assert(a * pow256(k) + b == a) by (nonlinear_arith)
            requires
                pow256(k) == 1,
                b == 0,
        ;
        assert(be_bytes(a, j) + be_bytes(b, k) =~= be_bytes(a, j));
    } else {
        let p = pow256((k - 1) as nat);
        let n = a * pow256(k) + b;
        assert(n == 256 * (a * p) + b) by (nonlinear_arith)
            requires
                n == a * (256 * p) + b,
        ;
        assert(n / 256 == a * p + b / 256);
        assert(n % 256 == b % 256);
        lemma_be_bytes_split(a, b / 256, j, (k - 1) as nat);
        assert((j + k - 1) as nat == j + (k - 1) as nat);
        assert(be_bytes(n, j + k) =~= be_bytes(a, j) + be_bytes(b, k));
    }
}

pub(crate) proof fn lemma_pow256_values()
    ensures
        pow256(3) == 0x100_0000,
        pow256(4) == 0x1_0000_0000,
        pow256(8) == limb_base(),
        pow256(16) == two_128(),
        pow256(20) == two_160(),
        pow256(32) == two_256(),
{
    reveal_with_fuel(pow256, 33);
}

/// An unsigned 256-bit integer as four 64-bit limbs, `l0` the least
/// significant.
#[derive(Clone, Copy, Debug, PartialEq, Eq, PartialOrd, Ord, Hash, Structural)]
pub struct U256 {
    pub l3: u64,
    pub l2: u64,
    pub l1: u64,
    pub l0: u64,
}

impl U256 {
    /// The integer zero.
    #[verifier::allow_in_spec]
    pub fn zero() -> U256
        returns
            (U256 { l3: 0, l2: 0, l1: 0, l0: 0 }),
    {
        U256 { l3: 0, l2: 0, l1: 0, l0: 0 }
    }

    /// The largest 256-bit integer.
    #[verifier::allow_in_spec]
    pub fn max() -> U256
        returns
            (U256 { l3: u64::MAX, l2: u64::MAX, l1: u64::MAX, l0: u64::MAX }),
    {
        U256 { l3: u64::MAX, l2: u64::MAX, l1: u64::MAX, l0: u64::MAX }
    }

    /// The number that the limbs stand for.
    pub open spec fn value(self) -> nat {
        ((self.l3 as nat * limb_base() + self.l2 as nat) * limb_base() + self.l1 as nat)
            * limb_base() + self.l0 as nat
    }

    /// The limbs of a number below `two_256()`.
    pub open spec fn of(n: nat) -> U256 {
        U256 {
            l3: (n / limb_base() / limb_base() / limb_base()) as u64,
            l2: (n / limb_base() / limb_base() % limb_base()) as u64,
            l1: (n / limb_base() % limb_base()) as u64,
            l0: (n % limb_base()) as u64,
        }
    }

    pub fn from_u64(n: u64) -> (r: U256)
        ensures
            r.value() == n,
            r == U256::of(n as nat),
    {
        U256 { l3: 0, l2: 0, l1: 0, l0: n }
    }

    /// The value as a `u128`, or `None` when it needs more than 128 bits.
    pub fn to_u128(self) -> (r: Option<u128>)
        ensures
            match r {
                Some(n) => n == self.value(),
                None => self.value() >= two_128(),
            },
    {
        if self.l3 == 0 && self.l2 == 0 {
            let hi: u128 = self.l1 as u128;
            let lo: u128 = self.l0 as u128;
            Some(hi * 0x1_0000_0000_0000_0000u128 + lo)
        } else {
            None
        }
    }

    /// The value as a `u64`, or `None` when it needs more than 64 bits.
    pub fn to_u64(self) -> (r: Option<u64>)
        ensures
            match r {
                Some(n) => n == self.value(),
                None => self.value() >= limb_base(),
            },
    {
        if self.l3 == 0 && self.l2 == 0 && self.l1 == 0 {
            Some(self.l0)
        } else {
            None
        }
    }

    /// Whether the value fits in 160 bits.
    pub fn fits_160(self) -> (r: bool)
        ensures
            r == (self.value() < two_160()),
    {
        self.l3 == 0 && self.l2 < 0x1_0000_0000
    }

    /// The 32 bytes of the value, most significant first.
    pub fn to_be_bytes(self) -> (r: [u8; 32])
        ensures
            r@ == be_bytes(self.value(), 32),
    {
        let mut out: [u8; 32] = [0u8; 32];
        write_be(&mut out, 0, 8, self.l3);
        write_be(&mut out, 8, 8, self.l2);
        write_be(&mut out, 16, 8, self.l1);
        write_be(&mut out, 24, 8, self.l0);
        proof {
            lemma_pow256_values();
            let a = self.l3 as nat;
            let b = a * limb_base() + self.l2 as nat;
            let c = b * limb_base() + self.l1 as nat;
            lemma_be_bytes_split(a, self.l2 as nat, 8, 8);
            lemma_be_bytes_split(b, self.l1 as nat, 16, 8);
            lemma_be_bytes_split(c, self.l0 as nat, 24, 8);
            lemma_be_bytes_len(a, 8);
            lemma_be_bytes_len(self.l2 as nat, 8);
            lemma_be_bytes_len(self.l1 as nat, 8);
            lemma_be_bytes_len(self.l0 as nat, 8);
            assert(out@.subrange(0, 8) =~= be_bytes(a, 8));
            assert(out@.subrange(8, 16) =~= be_bytes(self.l2 as nat, 8));
            assert(out@.subrange(16, 24) =~= be_bytes(self.l1 as nat, 8));
            assert(out@.subrange(24, 32) =~= be_bytes(self.l0 as nat, 8));
            assert(out@ =~= out@.subrange(0, 8) + out@.subrange(8, 16) + out@.subrange(16, 24)
                + out@.subrange(24, 32));
        }
        out
    }
}

/// Writes the `width` low bytes of `n` at offset `at`, most significant first.
fn write_be<const N: usize>(out: &mut [u8; N], at: usize, width: usize, n: u64)
    requires
        at + width <= N,
    ensures
        final(out)@.subrange(at as int, at + width) == be_bytes(n as nat, width as nat),
        forall|j: int|
            0 <= j < N && !(at <= j < at + width) ==> final(out)@[j] == old(out)@[j],
{
    let mut i: usize = width;
    let mut m: u64 = n;
    assert(out@.subrange(at + i, at + width) =~= Seq::<u8>::empty());
    assert(be_bytes(n as nat, width as nat) =~= be_bytes(m as nat, i as nat) + out@.subrange(
        at + i,
        at + width,
    ));
    while i > 0
        invariant
            i <= width,
            at + width <= N,
            be_bytes(n as nat, width as nat) == be_bytes(m as nat, i as nat) + out@.subrange(
                at + i,
                at + width,
            ),
            forall|j: int|
                0 <= j < N && !(at <= j < at + width) ==> out@[j] == old(out)@[j],
        decreases i,
    {
        let ghost before = out@;
        out[at + i - 1] = (m % 256) as u8;
        proof {
            assert(out@.subrange(at + i - 1, at + width) =~= seq![(m % 256) as u8]
                + before.subrange(at + i, at + width));
            assert(be_bytes(m as nat, i as nat) + before.subrange(at + i, at + width) =~= be_bytes(
                (m / 256) as nat,
                (i - 1) as nat,
            ) + out@.subrange(at + i - 1, at + width));
        }
        m = m / 256;
        i = i - 1;
    }
    assert(be_bytes(m as nat, 0) + out@.subrange(at as int, at + width) =~= out@.subrange(
        at as int,
        at + width,
    ));
}

/// Appends the `k` low bytes of `n`, most significant first.
pub(crate) fn push_be(out: &mut Vec<u8>, n: u64, k: usize)
    ensures
        final(out)@ == old(out)@ + be_bytes(n as nat, k as nat),
    decreases k,
{
    if k > 0 {
        let ghost before = out@;
        push_be(out, n / 256, k - 1);
        out.push((n % 256) as u8);
        assert(out@ =~= before + be_bytes(n as nat, k as nat));
    } else {
        assert(out@ =~= out@ + be_bytes(n as nat, 0));
    }
}

/// Every number below `two_256()` is the value of its limbs.
pub proof fn u256_of_value(n: nat)
    requires
        n < two_256(),
    ensures
        U256::of(n).value() == n,
{
    let q1 = n / limb_base();
    let q2 = q1 / limb_base();
    let q3 = q2 / limb_base();
    assert(q3 < limb_base());
}

/// A 256-bit integer is determined by its value.
pub proof fn u256_value_of(x: U256)
    ensures
        U256::of(x.value()) == x,
        x.value() < two_256(),
{
    let a = x.l3 as nat;
    let b = a * limb_base() + x.l2 as nat;
    let c = b * limb_base() + x.l1 as nat;
    assert(x.value() / limb_base() == c);
    assert(c / limb_base() == b);
    assert(b / limb_base() == a);
}

/// A 32-byte token slot, read as a big-endian number.
#[derive(Clone, Copy, Debug, PartialEq, Eq, PartialOrd, Ord, Hash, Structural)]
pub struct B256(pub U256);

impl B256 {
    pub open spec fn value(self) -> nat {
        self.0.value()
    }

    /// Whether the slot reads as a smaller number than `other`.
    pub fn less_than(self, other: B256) -> (r: bool)
        ensures
            r == (self.value() < other.value()),
    {
        let a = self.0;
        let b = other.0;
        if a.l3 != b.l3 {
            a.l3 < b.l3
        } else if a.l2 != b.l2 {
            a.l2 < b.l2
        } else if a.l1 != b.l1 {
            a.l1 < b.l1
        } else {
            a.l0 < b.l0
        }
    }
}

/// A 20-byte account address: its high 4 bytes, then two groups of 8.
#[derive(Clone, Copy, Debug, PartialEq, Eq, PartialOrd, Ord, Hash, Structural)]
pub struct Address {
    pub hi: u32,
    pub mid: u64,
    pub lo: u64,
}

impl Address {
    /// The all-zero address.
    #[verifier::allow_in_spec]
    pub fn zero() -> Address
        returns
            (Address { hi: 0, mid: 0, lo: 0 }),
    {
        Address { hi: 0, mid: 0, lo: 0 }
    }

    /// The address read as a big-endian number.
    pub open spec fn value(self) -> nat {
        (self.hi as nat * limb_base() + self.mid as nat) * limb_base() + self.lo as nat
    }

    /// The 20 bytes of the address.
    pub open spec fn bytes(self) -> Seq<u8> {
        be_bytes(self.value(), 20)
    }

    /// The address in the rightmost 20 bytes of a slot.
    pub open spec fn from_word_spec(w: B256) -> Address {
        Address { hi: (w.0.l2 % 0x1_0000_0000) as u32, mid: w.0.l1, lo: w.0.l0 }
    }

    /// The address in the rightmost 20 bytes of a slot.
    pub fn from_word(w: B256) -> (r: Address)
        ensures
            r == Address::from_word_spec(w),
            r.value() == w.value() % two_160(),
    {
        proof {
            lemma_from_word(w);
        }
        Address { hi: (w.0.l2 % 0x1_0000_0000) as u32, mid: w.0.l1, lo: w.0.l0 }
    }

    /// The slot that holds the address in its rightmost 20 bytes and zeros
    /// before them.
    pub fn into_word(self) -> (r: B256)
        ensures
            r.value() == self.value(),
            Address::from_word_spec(r) == self,
    {
        B256(U256 { l3: 0, l2: self.hi as u64, l1: self.mid, l0: self.lo })
    }

    /// The address that is all zeros but for its last byte.
    #[verifier::allow_in_spec]
    pub fn with_last_byte(b: u8) -> Address
        returns
            (Address { hi: 0, mid: 0, lo: b as u64 }),
    {
        Address { hi: 0, mid: 0, lo: b as u64 }
    }

    /// The 20 bytes of the address, most significant first.
    pub fn to_bytes(self) -> (r: [u8; 20])
        ensures
            r@ == self.bytes(),
    {
        let mut out: [u8; 20] = [0u8; 20];
        write_be(&mut out, 0, 4, self.hi as u64);
        write_be(&mut out, 4, 8, self.mid);
        write_be(&mut out, 12, 8, self.lo);
        proof {
            lemma_pow256_values();
            let a = self.hi as nat;
            let b = a * limb_base() + self.mid as nat;
            lemma_be_bytes_split(a, self.mid as nat, 4, 8);
            lemma_be_bytes_split(b, self.lo as nat, 12, 8);
            lemma_be_bytes_len(a, 4);
            lemma_be_bytes_len(self.mid as nat, 8);
            lemma_be_bytes_len(self.lo as nat, 8);
            assert(out@.subrange(0, 4) =~= be_bytes(a, 4));
            assert(out@.subrange(4, 12) =~= be_bytes(self.mid as nat, 8));
            assert(out@.subrange(12, 20) =~= be_bytes(self.lo as nat, 8));
            assert(out@ =~= out@.subrange(0, 4) + out@.subrange(4, 12) + out@.subrange(12, 20));
        }
        out
    }
}

proof fn lemma_from_word(w: B256)
    ensures
        Address::from_word_spec(w).value() == w.value() % two_160(),
{
    let q = (w.0.l2 / 0x1_0000_0000) as int;
    let r = Address::from_word_spec(w).value() as int;
    let d = two_160() as int;
    let s = w.0.l3 as int * 0x1_0000_0000 + q;
    assert(w.value() as int == s * d + r);
    assert(0 <= r < d);
    vstd::arithmetic::div_mod::lemma_fundamental_div_mod_converse(w.value() as int, d, s, r);
}

/// The slot an address is padded into gives the address back.
pub proof fn address_word_round_trip(a: Address, w: B256)
    requires
        w.value() == a.value(),
    ensures
        Address::from_word_spec(w) == a,
{
    let p = B256(U256 { l3: 0, l2: a.hi as u64, l1: a.mid, l0: a.lo });
    assert(p.value() == a.value());
    u256_value_of(p.0);
    u256_value_of(w.0);
    assert(p == w);
}

} // verus!
