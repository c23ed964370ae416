//! Slippage tolerance: output floors, input ceilings, and tolerances compounded
//! over several hops.
use crate::asset::{AssetAmount, Bps};
use crate::primitives::{limb_base, two_256, u256_of_value, u256_value_of, U256};
use vstd::arithmetic::power::{lemma_pow0, lemma_pow1, lemma_pow_positive, pow};
use vstd::prelude::*;

verus! {

/// The tolerance that stands for the whole amount, in basis points.
pub open spec fn whole() -> nat {
    10000
}

/// How far an executed amount may fall short of, or exceed, its quote.
#[derive(Clone, Copy, Debug, PartialEq, Eq, PartialOrd, Ord, Hash, Structural)]
pub struct Slippage(pub Bps);

impl Slippage {
    /// The share of a quote that must arrive, in basis points.
    pub open spec fn kept(self) -> nat {
        if self.0.0 >= whole() {
            0
        } else {
            (whole() - self.0.0) as nat
        }
    }

    /// The least output accepted for a quote: the kept share, rounded down.
    pub open spec fn floor_of(self, quoted: nat) -> nat {
        quoted * self.kept() / whole()
    }

    /// The most input accepted for a quote: the quote and the tolerance on top,
    /// rounded up, and no more than 256 bits can hold.
    pub open spec fn ceiling_of(self, quoted: nat) -> nat {
        let exact = (quoted * (whole() + self.0.0 as nat) + whole() - 1) as nat / whole();
        if exact < two_256() {
            exact
        } else {
            (two_256() - 1) as nat
        }
    }

    /// The quoted asset with the output floor.
    pub open spec fn min_out(self, quoted: AssetAmount) -> AssetAmount {
        AssetAmount { asset: quoted.asset, raw: U256::of(self.floor_of(quoted.raw.value())) }
    }

    /// The quoted asset with the input ceiling.
    pub open spec fn max_in(self, quoted: AssetAmount) -> AssetAmount {
        AssetAmount { asset: quoted.asset, raw: U256::of(self.ceiling_of(quoted.raw.value())) }
    }

    /// The tolerance that `n` hops of this tolerance add up to: one less the
    /// `n`th power of the kept share, in basis points, rounded down.
    pub open spec fn compounded(self, n: nat) -> nat {
        ((pow(whole() as int, n) - pow(self.kept() as int, n)) * whole() / pow(
            whole() as int,
            n,
        )) as nat
    }

    pub fn from_bps(bps: Bps) -> (r: Slippage)
        ensures
            r.0 == bps,
    {
        Slippage(bps)
    }

    pub fn bps(&self) -> (r: Bps)
        ensures
            r == self.0,
    {
        self.0
    }

    /// The least output accepted for `quoted`, rounded down.
    pub fn min_amount_out(&self, quoted: &AssetAmount) -> (r: AssetAmount)
        ensures
            r == self.min_out(*quoted),
            r.asset == quoted.asset,
            r.raw.value() == self.floor_of(quoted.raw.value()),
            r.raw.value() <= quoted.raw.value(),
    {
        let kept: u32 = if self.0.0 >= 10000 {
            0
        } else {
            10000 - self.0.0 as u32
        };
        let (q, _rem) = div_whole(mul_small(quoted.raw, kept));
        proof {
            let x = quoted.raw.value();
            u256_value_of(quoted.raw);
            assert(x * kept <= x * 10000) by (nonlinear_arith)
                requires
                    kept <= 10000,
            ;
            assert(q.value() == self.floor_of(x));
            assert(q.value() <= x);
            assert(q.l4 == 0);
            u256_value_of(q.low());
        }
        AssetAmount { asset: quoted.asset, raw: U256 { l3: q.l3, l2: q.l2, l1: q.l1, l0: q.l0 } }
    }

    /// The most input accepted for `quoted`, rounded up; the largest 256-bit
    /// amount where the exact ceiling needs more.
    pub fn max_amount_in(&self, quoted: &AssetAmount) -> (r: AssetAmount)
        ensures
            r == self.max_in(*quoted),
            r.asset == quoted.asset,
            r.raw.value() == self.ceiling_of(quoted.raw.value()),
            r.raw.value() >= quoted.raw.value(),
    {
        let factor: u32 = 10000 + self.0.0 as u32;
        let wide = mul_small(quoted.raw, factor);
        let (q, rem) = div_whole(wide);
        let ghost x = quoted.raw.value();
        let ghost exact = (x * factor + whole() - 1) as nat / whole();
        proof {
            u256_value_of(quoted.raw);
            assert(x * factor >= x * 10000) by (nonlinear_arith)
                requires
                    factor >= 10000,
            ;
            assert(wide.value() == x * factor);
            assert(wide.value() == q.value() * 10000 + rem);
            assert(exact == q.value() + (if rem > 0 { 1int } else { 0 }));
            assert(exact >= x);
        }
        let raw = if q.l4 > 0 {
            U256::max()
        } else {
            let low = U256 { l3: q.l3, l2: q.l2, l1: q.l1, l0: q.l0 };
            if rem == 0 {
                low
            } else {
                increment(low)
            }
        };
        proof {
            u256_value_of(raw);
            assert(U256::max().value() == two_256() - 1);
            assert(raw.value() == self.ceiling_of(x));
        }
        AssetAmount { asset: quoted.asset, raw }
    }

    /// The tolerance that `n` hops of this tolerance add up to.
    pub fn compound(&self, n: usize) -> (r: Slippage)
        ensures
            r.0.0 == self.compounded(n as nat),
    {
        let b: u64 = 10000;
        let kept: u64 = if self.0.0 >= 10000 {
            0
        } else {
            10000 - self.0.0 as u64
        };
        proof {
            lemma_pow0(whole() as int);
            lemma_pow0(kept as int);
            lemma_pow_positive(whole() as int, n as nat);
        }
        if n == 0 || kept == b {
            assert(0int * whole() / pow(whole() as int, n as nat) == 0) by {
                vstd::arithmetic::div_mod::lemma_div_basics(pow(whole() as int, n as nat));
            }
            return Slippage(Bps(0));
        }
        let mut digits: Vec<u64> = Vec::new();
        digits.push(kept);
        let mut j: usize = 1;
        proof {
            lemma_pow1(kept as int);
            lemma_pow0(whole() as int);
            assert(digits@.drop_last() =~= Seq::<u64>::empty());
            let one = pow(whole() as int, 0);
            assert(kept * one == kept) by (nonlinear_arith)
                requires
                    one == 1,
            ;
            assert(digits@.last() == kept);
            assert(digit_value(digits@) == digit_value(digits@.drop_last()) + kept * one);
        }
        while j < n
            invariant
                1 <= j <= n,
                digits@.len() == j,
                kept < 10000,
                decimal_digits(digits@),
                digit_value(digits@) == pow(kept as int, j as nat),
            decreases n - j,
        {
            let ghost before = digits@;
            digits = times(&digits, kept);
            proof {
                vstd::arithmetic::power::lemma_pow_adds(kept as int, 1, j as nat);
                lemma_pow1(kept as int);
            }
            j = j + 1;
        }
        let top: u64 = digits[n - 1];
        digits.pop();
        let rest = any_digit(&digits);
        let t: u64 = if rest {
            b - top - 1
        } else {
            b - top
        };
        proof {
            let w = whole() as int;
            let p = pow(w, (n - 1) as nat);
            let low = digit_value(digits@);
            lemma_pow_positive(w, (n - 1) as nat);
            lemma_digit_bound(digits@);
            vstd::arithmetic::power::lemma_pow_adds(w, 1, (n - 1) as nat);
            lemma_pow1(w);
            let kn = pow(kept as int, n as nat);
            let wn = pow(w, n as nat);
            assert(kn == low + top * p);
            assert(wn == w * p);
            lemma_compound_quotient(w, p, top as int, low, t as int);
        }
        Slippage(Bps(t as u16))
    }
}

/// The floor of a quote is the largest amount that is no more than the kept share
/// of it: all but the tolerance, and nothing from a tolerance of the whole on.
pub proof fn floor_is_the_kept_share(s: Slippage, quoted: AssetAmount)
    ensures
        s.min_out(quoted).asset == quoted.asset,
        ({
            let floor = s.min_out(quoted).raw.value();
            let share = quoted.raw.value() * (if s.0.0 < 10000 {
                10000 - s.0.0
            } else {
                0
            });
            floor * 10000 <= share < (floor + 1) * 10000
        }),
{
    let q = quoted.raw.value();
    u256_value_of(quoted.raw);
    bounds_enclose_the_quote(s, q);
    u256_of_value(s.floor_of(q));
    assert(q * 0 == 0) by (nonlinear_arith);
}

/// The ceiling of a quote is the smallest amount that is no less than the quote
/// and the tolerance on top, or the largest there is, where that is less.
pub proof fn ceiling_is_the_quote_and_the_tolerance(s: Slippage, quoted: AssetAmount)
    ensures
        s.max_in(quoted).asset == quoted.asset,
        ({
            let ceiling = s.max_in(quoted).raw.value();
            let share = quoted.raw.value() * (10000 + s.0.0);
            &&& (ceiling - 1) * 10000 < share
            &&& share <= ceiling * 10000 || ceiling == two_256() - 1
        }),
{
    let q = quoted.raw.value();
    u256_value_of(quoted.raw);
    u256_of_value(s.ceiling_of(q));
}

/// Over several hops the share that is kept is multiplied, and the tolerance is
/// what that leaves of the whole, rounded down to basis points.
pub proof fn compounding_multiplies_the_kept_share(s: Slippage, n: nat)
    ensures
        ({
            let kept = pow(
                if s.0.0 < 10000 {
                    10000 - s.0.0
                } else {
                    0
                },
                n,
            );
            let all = pow(10000, n);
            let t = s.compounded(n);
            t * all <= (all - kept) * 10000 < (t + 1) * all
        }),
{
    let all = pow(10000, n);
    let kept = pow(s.kept() as int, n);
    lemma_pow_positive(10000, n);
    lemma_kept_power(s, n);
    let x = (all - kept) * 10000;
    assert(x >= 0) by (nonlinear_arith)
        requires
            x == (all - kept) * 10000,
            kept <= all,
    ;
    vstd::arithmetic::div_mod::lemma_fundamental_div_mod(x, all);
    vstd::arithmetic::div_mod::lemma_mod_bound(x, all);
    vstd::arithmetic::div_mod::lemma_div_pos_is_pos(x, all);
    let t = x / all;
    assert((t + 1) * all == t * all + all) by (nonlinear_arith);
    assert(all * t == t * all) by (nonlinear_arith);
}

/// The floor of a quote is at most the quote, and its ceiling at least.
pub proof fn bounds_enclose_the_quote(s: Slippage, quoted: nat)
    requires
        quoted < two_256(),
    ensures
        s.floor_of(quoted) <= quoted <= s.ceiling_of(quoted),
{
    let k = s.kept();
    let f = whole() + s.0.0 as nat;
    assert(quoted * k <= quoted * 10000) by (nonlinear_arith)
        requires
            k <= 10000,
    ;
    assert(quoted * f >= quoted * 10000) by (nonlinear_arith)
        requires
            f >= 10000,
    ;
}

/// Without tolerance, floor and ceiling are the quote.
pub proof fn no_tolerance_is_exact(s: Slippage, quoted: nat)
    requires
        s.0.0 == 0,
        quoted < two_256(),
    ensures
        s.floor_of(quoted) == quoted,
        s.ceiling_of(quoted) == quoted,
{
    let k = s.kept();
    let f = whole() + s.0.0 as nat;
    assert(quoted * k == quoted * 10000 && quoted * f == quoted * 10000) by (nonlinear_arith)
        requires
            k == 10000,
            f == 10000,
    ;
}

/// A wider tolerance lowers the floor and raises the ceiling.
pub proof fn wider_tolerance_widens_bounds(narrow: Slippage, wide: Slippage, quoted: nat)
    requires
        narrow.0.0 <= wide.0.0,
    ensures
        wide.floor_of(quoted) <= narrow.floor_of(quoted),
        narrow.ceiling_of(quoted) <= wide.ceiling_of(quoted),
{
    let (k, l) = (narrow.kept(), wide.kept());
    assert(quoted * l <= quoted * k) by (nonlinear_arith)
        requires
            l <= k,
    ;
    let (f, g) = (whole() + narrow.0.0 as nat, whole() + wide.0.0 as nat);
    assert(quoted * f <= quoted * g) by (nonlinear_arith)
        requires
            f <= g,
    ;
}

/// A better quote has a floor and a ceiling no lower.
pub proof fn bounds_follow_the_quote(s: Slippage, less: nat, more: nat)
    requires
        less <= more,
    ensures
        s.floor_of(less) <= s.floor_of(more),
        s.ceiling_of(less) <= s.ceiling_of(more),
{
    let k = s.kept();
    assert(less * k <= more * k) by (nonlinear_arith)
        requires
            less <= more,
    ;
    let f = whole() + s.0.0 as nat;
    assert(less * f <= more * f) by (nonlinear_arith)
        requires
            less <= more,
    ;
}

/// One hop compounds to the tolerance itself.
pub proof fn one_hop_keeps_the_tolerance(s: Slippage)
    requires
        s.0.0 <= whole(),
    ensures
        s.compounded(1) == s.0.0,
{
    lemma_pow1(whole() as int);
    lemma_pow1(s.kept() as int);
    let t = s.0.0 as int;
    assert(t * 10000 / 10000 == t);
}

/// A tolerance never compounds past the whole amount.
pub proof fn compounding_stays_below_the_whole(s: Slippage, n: nat)
    ensures
        s.compounded(n) <= whole(),
{
    let w = whole() as int;
    let p = pow(w, n);
    let q = pow(s.kept() as int, n);
    lemma_pow_positive(w, n);
    lemma_pow_nonnegative(s.kept(), n);
    lemma_kept_power(s, n);
    assert(0 <= (p - q) * w <= w * p) by (nonlinear_arith)
        requires
            0 <= q <= p,
            w > 0,
    ;
    vstd::arithmetic::div_mod::lemma_div_is_ordered((p - q) * w, w * p, p);
    vstd::arithmetic::div_mod::lemma_div_multiples_vanish(w, p);
    vstd::arithmetic::div_mod::lemma_div_pos_is_pos((p - q) * w, p);
    assert(w * p == p * w) by (nonlinear_arith);
}

/// More hops tolerate no less: the floor that a compounded tolerance sets is
/// never above the floor that fewer hops set.
pub proof fn more_hops_tolerate_more(s: Slippage, n: nat)
    ensures
        s.compounded(n) <= s.compounded(n + 1),
{
    let w = whole() as int;
    let k = s.kept() as int;
    let p = pow(w, n);
    let q = pow(k, n);
    lemma_pow_positive(w, n);
    lemma_pow_nonnegative(s.kept(), n);
    lemma_kept_power(s, n);
    vstd::arithmetic::power::lemma_pow_adds(w, 1, n);
    vstd::arithmetic::power::lemma_pow_adds(k, 1, n);
    lemma_pow1(w);
    lemma_pow1(k);
    let wide = (w * p - k * q) * w;
    let narrow = (p - q) * w;
    assert(narrow >= 0) by (nonlinear_arith)
        requires
            narrow == (p - q) * w,
            q <= p,
            w > 0,
    ;
    assert(w * narrow <= wide) by (nonlinear_arith)
        requires
            wide == (w * p - k * q) * w,
            narrow == (p - q) * w,
            0 <= k <= w,
            q >= 0,
            w > 0,
    ;
    assert(w * p > 0) by (nonlinear_arith)
        requires
            w > 0,
            p > 0,
    ;
    vstd::arithmetic::div_mod::lemma_div_is_ordered(w * narrow, wide, w * p);
    vstd::arithmetic::div_mod::lemma_div_multiples_vanish_quotient(w, narrow, p);
    vstd::arithmetic::div_mod::lemma_div_pos_is_pos(narrow, p);
}

proof fn lemma_pow_nonnegative(k: nat, n: nat)
    ensures
        pow(k as int, n) >= 0,
    decreases n,
{
    if n == 0 {
        lemma_pow0(k as int);
    } else {
        lemma_pow_nonnegative(k, (n - 1) as nat);
        vstd::arithmetic::power::lemma_pow_adds(k as int, 1, (n - 1) as nat);
        lemma_pow1(k as int);
        let p = pow(k as int, (n - 1) as nat);
        assert(k * p >= 0) by (nonlinear_arith)
            requires
                p >= 0,
        ;
    }
}

proof fn lemma_kept_power(s: Slippage, n: nat)
    ensures
        pow(s.kept() as int, n) <= pow(whole() as int, n),
    decreases n,
{
    let k = s.kept() as int;
    let w = whole() as int;
    if n == 0 {
        lemma_pow0(k);
        lemma_pow0(w);
    } else {
        let m = (n - 1) as nat;
        lemma_kept_power(s, m);
        lemma_pow_nonnegative(s.kept(), m);
        lemma_pow_positive(w, m);
        vstd::arithmetic::power::lemma_pow_adds(k, 1, m);
        vstd::arithmetic::power::lemma_pow_adds(w, 1, m);
        lemma_pow1(k);
        lemma_pow1(w);
        let (p, q) = (pow(k, m), pow(w, m));
        assert(k * p <= w * q) by (nonlinear_arith)
            requires
                0 <= k <= w,
                0 <= p <= q,
        ;
    }
}

/// Five limbs, enough for a 256-bit integer times a 32-bit one.
struct Wide {
    l4: u64,
    l3: u64,
    l2: u64,
    l1: u64,
    l0: u64,
}

impl Wide {
    spec fn low(self) -> U256 {
        U256 { l3: self.l3, l2: self.l2, l1: self.l1, l0: self.l0 }
    }

    spec fn value(self) -> nat {
        (((self.l4 as nat * limb_base() + self.l3 as nat) * limb_base() + self.l2 as nat)
            * limb_base() + self.l1 as nat) * limb_base() + self.l0 as nat
    }
}

proof fn lemma_mul_step(a: int, b: int, m: int, c: int, q: int, o: int)
    requires
        b * m + c == q * limb_base() + o,
    ensures
        (a * limb_base() + b) * m + c == (a * m + q) * limb_base() + o,
{
    assert((a * limb_base() + b) * m == a * m * limb_base() + b * m) by (nonlinear_arith);
    assert((a * m + q) * limb_base() == a * m * limb_base() + q * limb_base())
        by (nonlinear_arith);
}

/// One limb of a product: the low limb and the carry of `x * m + c`.
fn mul_limb(x: u64, m: u32, c: u64) -> (r: (u64, u64))
    requires
        c <= 0x1_0000_0000,
    ensures
        r.0 as int * limb_base() + r.1 as int == x * m + c,
        r.0 <= 0x1_0000_0000,
{
    assert(0 <= x * m <= 0xffff_ffff_ffff_ffff * 0xffff_ffff) by (nonlinear_arith)
        requires
            0 <= x <= 0xffff_ffff_ffff_ffff,
            0 <= m <= 0xffff_ffff,
    ;
    let t: u128 = x as u128 * m as u128 + c as u128;
    let hi: u64 = (t / 0x1_0000_0000_0000_0000u128) as u64;
    let lo: u64 = (t % 0x1_0000_0000_0000_0000u128) as u64;
    (hi, lo)
}

fn mul_small(x: U256, m: u32) -> (r: Wide)
    ensures
        r.value() == x.value() * m,
{
    let (c0, o0) = mul_limb(x.l0, m, 0);
    let (c1, o1) = mul_limb(x.l1, m, c0);
    let (c2, o2) = mul_limb(x.l2, m, c1);
    let (c3, o3) = mul_limb(x.l3, m, c2);
    proof {
        let a3 = x.l3 as int;
        let a2 = a3 * limb_base() + x.l2;
        let a1 = a2 * limb_base() + x.l1;
        lemma_mul_step(a1, x.l0 as int, m as int, 0, c0 as int, o0 as int);
        lemma_mul_step(a2, x.l1 as int, m as int, c0 as int, c1 as int, o1 as int);
        lemma_mul_step(a3, x.l2 as int, m as int, c1 as int, c2 as int, o2 as int);
    }
    Wide { l4: c3, l3: o3, l2: o2, l1: o1, l0: o0 }
}

/// One limb of a quotient by the whole: the limb and the remainder.
fn div_limb(rem: u64, x: u64) -> (r: (u64, u64))
    requires
        rem < 10000,
    ensures
        r.0 as int * 10000 + r.1 as int == rem * limb_base() + x,
        r.1 < 10000,
{
    let t: u128 = rem as u128 * 0x1_0000_0000_0000_0000u128 + x as u128;
    let q: u64 = (t / 10000) as u64;
    let s: u64 = (t % 10000) as u64;
    (q, s)
}

fn div_whole(x: Wide) -> (r: (Wide, u64))
    ensures
        r.0.value() * 10000 + r.1 == x.value(),
        r.1 < 10000,
{
    let (q4, r4) = div_limb(0, x.l4);
    let (q3, r3) = div_limb(r4, x.l3);
    let (q2, r2) = div_limb(r3, x.l2);
    let (q1, r1) = div_limb(r2, x.l1);
    let (q0, r0) = div_limb(r1, x.l0);
    (Wide { l4: q4, l3: q3, l2: q2, l1: q1, l0: q0 }, r0)
}

/// One more, but never past the largest value.
fn increment(x: U256) -> (r: U256)
    ensures
        r.value() == (if x.value() + 1 < two_256() {
            x.value() + 1
        } else {
            x.value()
        }),
{
    if x.l0 < u64::MAX {
        U256 { l0: x.l0 + 1, ..x }
    } else if x.l1 < u64::MAX {
        U256 { l3: x.l3, l2: x.l2, l1: x.l1 + 1, l0: 0 }
    } else if x.l2 < u64::MAX {
        U256 { l3: x.l3, l2: x.l2 + 1, l1: 0, l0: 0 }
    } else if x.l3 < u64::MAX {
        U256 { l3: x.l3 + 1, l2: 0, l1: 0, l0: 0 }
    } else {
        x
    }
}

/// The number that base-10000 digits stand for, least significant first.
spec fn digit_value(s: Seq<u64>) -> int
    decreases s.len(),
{
    if s.len() == 0 {
        0
    } else {
        digit_value(s.drop_last()) + s.last() * pow(whole() as int, (s.len() - 1) as nat)
    }
}

spec fn decimal_digits(s: Seq<u64>) -> bool {
    forall|i: int| 0 <= i < s.len() ==> s[i] < 10000
}

proof fn lemma_digit_bound(s: Seq<u64>)
    requires
        decimal_digits(s),
    ensures
        0 <= digit_value(s) < pow(whole() as int, s.len()),
    decreases s.len(),
{
    if s.len() == 0 {
        lemma_pow0(whole() as int);
    } else {
        lemma_digit_bound(s.drop_last());
        let p = pow(whole() as int, (s.len() - 1) as nat);
        lemma_pow_positive(whole() as int, (s.len() - 1) as nat);
        vstd::arithmetic::power::lemma_pow_adds(whole() as int, 1, (s.len() - 1) as nat);
        lemma_pow1(whole() as int);
        let d = s.last() as int;
        assert(0 <= d * p <= 9999 * p) by (nonlinear_arith)
            requires
                0 <= d <= 9999,
                p > 0,
        ;
    }
}

/// The digits of a number times `k`, one digit longer.
fn times(d: &Vec<u64>, k: u64) -> (r: Vec<u64>)
    requires
        k < 10000,
        decimal_digits(d@),
    ensures
        decimal_digits(r@),
        r@.len() == d@.len() + 1,
        digit_value(r@) == k * digit_value(d@),
{
    let mut out: Vec<u64> = Vec::new();
    let mut carry: u64 = 0;
    let mut i: usize = 0;
    proof {
        assert(d@.take(0) =~= Seq::<u64>::empty());
        assert(carry * pow(whole() as int, 0) == 0) by (nonlinear_arith)
            requires
                carry == 0,
        ;
        assert(k * digit_value(d@.take(0)) == 0) by (nonlinear_arith)
            requires
                digit_value(d@.take(0)) == 0,
        ;
    }
    while i < d.len()
        invariant
            k < 10000,
            decimal_digits(d@),
            decimal_digits(out@),
            carry < 10000,
            i <= d@.len(),
            out@.len() == i,
            digit_value(out@) + carry * pow(whole() as int, i as nat) == k * digit_value(
                d@.take(i as int),
            ),
        decreases d@.len() - i,
    {
        let x: u64 = d[i];
        assert(0 <= x * k <= 9999 * 9999) by (nonlinear_arith)
            requires
                0 <= x <= 9999,
                0 <= k <= 9999,
        ;
        let t: u64 = x * k + carry;
        let o: u64 = t % 10000;
        let c: u64 = t / 10000;
        let ghost before = out@;
        out.push(o);
        proof {
            let p = pow(whole() as int, i as nat);
            let low = digit_value(d@.take(i as int));
            assert(out@.drop_last() =~= before);
            assert(d@.take(i + 1).drop_last() =~= d@.take(i as int));
            vstd::arithmetic::power::lemma_pow_adds(whole() as int, 1, i as nat);
            lemma_pow1(whole() as int);
            assert(digit_value(d@.take(i + 1)) == low + x * p);
            assert(digit_value(out@) == digit_value(before) + o * p);
            assert(digit_value(before) + o * p + c * (10000 * p) == k * (low + x * p))
                by (nonlinear_arith)
                requires
                    digit_value(before) + carry * p == k * low,
                    x * k + carry == c * 10000 + o,
            ;
        }
        carry = c;
        i = i + 1;
    }
    let ghost before = out@;
    out.push(carry);
    proof {
        assert(out@.drop_last() =~= before);
        assert(d@.take(i as int) =~= d@);
    }
    out
}

/// Whether the digits stand for anything but zero.
fn any_digit(d: &Vec<u64>) -> (r: bool)
    requires
        decimal_digits(d@),
    ensures
        r == (digit_value(d@) > 0),
{
    let mut i: usize = 0;
    assert(d@.take(0) =~= Seq::<u64>::empty());
    while i < d.len()
        invariant
            i <= d@.len(),
            decimal_digits(d@),
            digit_value(d@.take(i as int)) == 0,
        decreases d@.len() - i,
    {
        proof {
            assert(d@.take(i + 1).drop_last() =~= d@.take(i as int));
            lemma_pow_positive(whole() as int, i as nat);
        }
        if d[i] != 0 {
            proof {
                let x = d@[i as int] as int;
                let p = pow(whole() as int, i as nat);
                assert(x * p > 0) by (nonlinear_arith)
                    requires
                        x > 0,
                        p > 0,
                ;
                lemma_digit_monotone(d@, i + 1);
            }
            return true;
        }
        proof {
            assert(0 * pow(whole() as int, i as nat) == 0) by (nonlinear_arith);
        }
        i = i + 1;
    }
    assert(d@.take(i as int) =~= d@);
    false
}

proof fn lemma_digit_monotone(s: Seq<u64>, k: int)
    requires
        0 <= k <= s.len(),
    ensures
        digit_value(s.take(k)) <= digit_value(s),
    decreases s.len(),
{
    if k == s.len() {
        assert(s.take(k) =~= s);
    } else {
        lemma_digit_monotone(s.drop_last(), k);
        assert(s.drop_last().take(k) =~= s.take(k));
        let d = s.last() as int;
        let p = pow(whole() as int, (s.len() - 1) as nat);
        lemma_pow_positive(whole() as int, (s.len() - 1) as nat);
        assert(d * p >= 0) by (nonlinear_arith)
            requires
                d >= 0,
                p > 0,
        ;
    }
}

proof fn lemma_compound_quotient(w: int, p: int, top: int, low: int, t: int)
    requires
        w > 0,
        p > 0,
        0 <= low < p,
        0 <= top < w,
        t == w - top - (if low > 0 {
            1int
        } else {
            0
        }),
    ensures
        (w * p - (low + top * p)) * w / (w * p) == t,
{
    let n = (w * p - (low + top * p)) * w;
    let r = if low > 0 {
        (p - low) * w
    } else {
        0
    };
    assert(n == t * (w * p) + r) by (nonlinear_arith)
        requires
            n == (w * p - (low + top * p)) * w,
            low > 0 ==> t == w - top - 1 && r == (p - low) * w,
            low <= 0 ==> low == 0 && t == w - top && r == 0,
    ;
    assert(0 <= r < w * p) by (nonlinear_arith)
        requires
            w > 0,
            p > 0,
            0 <= low < p,
            r == (p - low) * w && low > 0 || r == 0,
    ;
    vstd::arithmetic::div_mod::lemma_fundamental_div_mod_converse(n, w * p, t, r);
}

} // verus!
