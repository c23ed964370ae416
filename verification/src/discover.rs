//! What factory-based pool discovery shares: the pairs to ask a factory about,
//! and how its answer reads.
use crate::asset::AssetId;
use crate::primitives::{
    be_bytes, lemma_be_bytes_len, lemma_be_bytes_split, lemma_pow256_values, limb_base, pow256,
    two_160, Address,
};
use vstd::prelude::*;

verus! {

/// The outcome of one batched call.
#[derive(Clone, Debug, PartialEq, Eq)]
pub struct CallResult {
    /// Whether the call did not revert.
    pub success: bool,
    /// What the call returned.
    pub return_data: Vec<u8>,
}

/// Two assets in the order that factories key pools by.
pub open spec fn ordered(a: AssetId, b: AssetId) -> (AssetId, AssetId) {
    if a.token.value() < b.token.value() {
        (a, b)
    } else {
        (b, a)
    }
}

/// The pairs of asset `i` with those behind it, up to but without asset `end`.
pub open spec fn pairs_of(assets: Seq<AssetId>, i: int, end: int) -> Seq<(AssetId, AssetId)> {
    Seq::new((end - i - 1) as nat, |k: int| ordered(assets[i], assets[i + 1 + k]))
}

/// The pairs of each of the first `n` assets with those behind it.
pub open spec fn pairs_up_to(assets: Seq<AssetId>, n: nat) -> Seq<(AssetId, AssetId)>
    decreases n,
{
    if n == 0 {
        Seq::empty()
    } else {
        pairs_up_to(assets, (n - 1) as nat) + pairs_of(assets, n - 1, assets.len() as int)
    }
}

/// Every pair of the assets once, each in factory order.
pub fn sorted_pairs(assets: &[AssetId]) -> (r: Vec<(AssetId, AssetId)>)
    ensures
        r@ == pairs_up_to(assets@, assets@.len()),
{
    let mut pairs: Vec<(AssetId, AssetId)> = Vec::new();
    let n: usize = assets.len();
    let mut i: usize = 0;
    while i < n
        invariant
            i <= n == assets@.len(),
            pairs@ == pairs_up_to(assets@, i as nat),
        decreases n - i,
    {
        let ghost before = pairs@;
        let mut j: usize = i + 1;
        assert(before + pairs_of(assets@, i as int, j as int) =~= before);
        while j < n
            invariant
                i < j <= n == assets@.len(),
                pairs@ == before + pairs_of(assets@, i as int, j as int),
            decreases n - j,
        {
            let a = assets[i];
            let b = assets[j];
            let ghost so_far = pairs@;
            if a.token.less_than(b.token) {
                pairs.push((a, b));
            } else {
                pairs.push((b, a));
            }
            assert(pairs@ =~= before + pairs_of(assets@, i as int, j + 1));
            j = j + 1;
        }
        i = i + 1;
    }
    pairs
}

/// The address of a token: the rightmost 20 bytes of its slot.
pub fn asset_address(asset: &AssetId) -> (r: Address)
    ensures
        r == asset.address(),
        r.value() == asset.token.value() % two_160(),
{
    Address::from_word(asset.token)
}

proof fn lemma_pow256_monotone(j: nat, k: nat)
    requires
        j <= k,
    ensures
        pow256(j) <= pow256(k),
    decreases k,
{
    if j < k {
        lemma_pow256_monotone(j, (k - 1) as nat);
    }
}

/// The number in `k` bytes at offset `at`.
fn read_be(data: &Vec<u8>, at: usize, k: usize) -> (r: u64)
    requires
        at + k <= data@.len(),
        k <= 8,
    ensures
        r < pow256(k as nat),
        be_bytes(r as nat, k as nat) == data@.subrange(at as int, at + k),
{
    let n: usize = data.len();
    let mut acc: u64 = 0;
    let mut i: usize = 0;
    assert(be_bytes(0, 0) =~= data@.subrange(at as int, at as int));
    while i < k
        invariant
            i <= k <= 8,
            at + k <= n == data@.len(),
            acc < pow256(i as nat),
            be_bytes(acc as nat, i as nat) == data@.subrange(at as int, at + i),
        decreases k - i,
    {
        let b: u8 = data[at + i];
        proof {
            lemma_pow256_values();
            lemma_pow256_monotone((i + 1) as nat, 8);
            assert(pow256((i + 1) as nat) == 256 * pow256(i as nat));
            let next = (acc * 256 + b) as nat;
            assert(next / 256 == acc);
            assert(next % 256 == b);
            assert(be_bytes(next, (i + 1) as nat) =~= data@.subrange(at as int, at + i + 1));
        }
        acc = acc * 256 + b as u64;
        i = i + 1;
    }
    acc
}

/// The bytes of the address that a factory returned: the rightmost 20 of the
/// first word.
pub open spec fn answered_bytes(result: CallResult) -> Seq<u8> {
    result.return_data@.subrange(12, 32)
}

/// Whether a factory returned a word.
pub open spec fn answered(result: CallResult) -> bool {
    result.success && result.return_data@.len() >= 32
}

/// The pool address that a factory returned, unless the call reverted or
/// returned less than a word, or there is no such pool: the zero address.
pub fn decode_pool_address(result: &CallResult) -> (r: Option<Address>)
    ensures
        match r {
            Some(a) => answered(*result) && a.bytes() == answered_bytes(*result) && a
                != Address::zero(),
            None => answered(*result) ==> answered_bytes(*result) == Address::zero().bytes(),
        },
        r matches Some(a) ==> a.bytes() == result.return_data@.subrange(12, 32),
{
    if !result.success || result.return_data.len() < 32 {
        return None;
    }
    proof {
        lemma_pow256_values();
    }
    let hi: u64 = read_be(&result.return_data, 12, 4);
    let mid: u64 = read_be(&result.return_data, 16, 8);
    let lo: u64 = read_be(&result.return_data, 24, 8);
    let addr = Address { hi: hi as u32, mid, lo };
    proof {
        let a = hi as nat;
        let b = a * limb_base() + mid as nat;
        lemma_be_bytes_split(a, mid as nat, 4, 8);
        lemma_be_bytes_split(b, lo as nat, 12, 8);
        let data = result.return_data@;
        assert(data.subrange(12, 32) =~= data.subrange(12, 16) + data.subrange(16, 24)
            + data.subrange(24, 32));
        assert(addr.bytes() == answered_bytes(*result));
    }
    if addr == Address::zero() {
        None
    } else {
        Some(addr)
    }
}

/// There are `n * (n - 1) / 2` pairs of `n` assets.
pub proof fn pair_count(assets: Seq<AssetId>)
    ensures
        2 * pairs_up_to(assets, assets.len()).len() == assets.len() * (assets.len() - 1),
{
    lemma_pair_count(assets, assets.len());
    let n = assets.len() as int;
    assert(2 * n * n - n * n - n == n * (n - 1)) by (nonlinear_arith);
}

proof fn lemma_pair_count(assets: Seq<AssetId>, k: nat)
    requires
        k <= assets.len(),
    ensures
        2 * pairs_up_to(assets, k).len() == 2 * assets.len() * k - k * k - k,
    decreases k,
{
    if k > 0 {
        lemma_pair_count(assets, (k - 1) as nat);
        let n = assets.len() as int;
        let j = k - 1;
        assert(2 * n * j - j * j - j + 2 * (n - j - 1) == 2 * n * (j + 1) - (j + 1) * (j + 1) - (j
            + 1)) by (nonlinear_arith);
        assert(pairs_of(assets, j, n).len() == n - j - 1);
    } else {
        assert(2 * assets.len() * k - k * k - k == 0) by (nonlinear_arith)
            requires
                k == 0,
        ;
    }
}

/// Each listed pair is two of the assets, in factory order.
pub proof fn pairs_are_sorted(assets: Seq<AssetId>, p: int) -> (r: (int, int))
    requires
        0 <= p < pairs_up_to(assets, assets.len()).len(),
    ensures
        0 <= r.0 < r.1 < assets.len(),
        pairs_up_to(assets, assets.len())[p] == ordered(assets[r.0], assets[r.1]),
        ({
            let (a, b) = pairs_up_to(assets, assets.len())[p];
            &&& a.token.value() <= b.token.value()
            &&& a == assets[r.0] && b == assets[r.1] || a == assets[r.1] && b == assets[r.0]
        }),
{
    lemma_pair_origin(assets, assets.len(), p)
}

proof fn lemma_pair_origin(assets: Seq<AssetId>, k: nat, p: int) -> (r: (int, int))
    requires
        k <= assets.len(),
        0 <= p < pairs_up_to(assets, k).len(),
    ensures
        0 <= r.0 < r.1 < assets.len(),
        pairs_up_to(assets, k)[p] == ordered(assets[r.0], assets[r.1]),
    decreases k,
{
    let head = pairs_up_to(assets, (k - 1) as nat);
    if p < head.len() {
        lemma_pair_origin(assets, (k - 1) as nat, p)
    } else {
        (k - 1, k + (p - head.len()))
    }
}

/// Any two of the assets are listed as a pair.
pub proof fn every_pair_is_listed(assets: Seq<AssetId>, i: int, j: int)
    requires
        0 <= i < j < assets.len(),
    ensures
        pairs_up_to(assets, assets.len()).contains(ordered(assets[i], assets[j])),
        assets[i].token.value() < assets[j].token.value() ==> pairs_up_to(
            assets,
            assets.len(),
        ).contains((assets[i], assets[j])),
        assets[i].token.value() > assets[j].token.value() ==> pairs_up_to(
            assets,
            assets.len(),
        ).contains((assets[j], assets[i])),
{
    lemma_pair_listed(assets, assets.len(), i, j);
}

proof fn lemma_pair_listed(assets: Seq<AssetId>, k: nat, i: int, j: int)
    requires
        0 <= i < k <= assets.len(),
        i < j < assets.len(),
    ensures
        pairs_up_to(assets, k).contains(ordered(assets[i], assets[j])),
    decreases k,
{
    let head = pairs_up_to(assets, (k - 1) as nat);
    let row = pairs_of(assets, k - 1, assets.len() as int);
    if i == k - 1 {
        assert(row[j - i - 1] == ordered(assets[i], assets[j]));
        assert(pairs_up_to(assets, k)[head.len() + (j - i - 1)] == row[j - i - 1]);
    } else {
        lemma_pair_listed(assets, (k - 1) as nat, i, j);
        let p = choose|p: int| 0 <= p < head.len() && head[p] == ordered(assets[i], assets[j]);
        assert(pairs_up_to(assets, k)[p] == head[p]);
    }
}

/// Pairs are listed in the order of their first assets, and then of their second
/// ones: those of asset `i` come behind all pairs of the assets before it.
pub proof fn pairs_are_listed_in_order(assets: Seq<AssetId>, i: int, j: int) -> (p: int)
    requires
        0 <= i < j < assets.len(),
    ensures
        0 <= p < pairs_up_to(assets, assets.len()).len(),
        2 * p == 2 * assets.len() * i - i * i - i + 2 * (j - i - 1),
        pairs_up_to(assets, assets.len())[p] == (if assets[i].token.value()
            < assets[j].token.value() {
            (assets[i], assets[j])
        } else {
            (assets[j], assets[i])
        }),
{
    let head = pairs_up_to(assets, i as nat);
    let p = head.len() + (j - i - 1);
    lemma_pair_count(assets, i as nat);
    let row = pairs_of(assets, i, assets.len() as int);
    assert(pairs_up_to(assets, (i + 1) as nat) == head + row);
    assert((head + row)[p] == row[j - i - 1]);
    lemma_pair_kept(assets, (i + 1) as nat, assets.len(), p);
    p
}

/// Later assets add their pairs behind those that are listed.
proof fn lemma_pair_kept(assets: Seq<AssetId>, k: nat, n: nat, p: int)
    requires
        k <= n <= assets.len(),
        0 <= p < pairs_up_to(assets, k).len(),
    ensures
        p < pairs_up_to(assets, n).len(),
        pairs_up_to(assets, n)[p] == pairs_up_to(assets, k)[p],
    decreases n,
{
    if k < n {
        lemma_pair_kept(assets, k, (n - 1) as nat, p);
    }
}

/// A factory answered exactly where its call did not revert and returned at least
/// one word.
pub proof fn answers_are_whole_words(result: CallResult)
    ensures
        answered(result) <==> result.success && result.return_data@.len() >= 32,
{
}

/// A factory that returned an address in a padded word is read as that address,
/// unless it is the zero address.
pub proof fn padded_address_reads_back(result: CallResult, a: Address)
    requires
        answered(result),
        result.return_data@.subrange(0, 32) == be_bytes(a.value(), 32),
    ensures
        answered_bytes(result) == a.bytes(),
{
    lemma_pow256_values();
    lemma_be_bytes_split(0, a.value(), 12, 20);
    lemma_be_bytes_len(0, 12);
    lemma_be_bytes_len(a.value(), 20);
    assert(0 * pow256(20) + a.value() == a.value()) by (nonlinear_arith);
    let padded = be_bytes(0, 12) + a.bytes();
    assert(be_bytes(a.value(), 32) == padded);
    assert(answered_bytes(result) =~= result.return_data@.subrange(0, 32).subrange(12, 32));
    assert(padded.subrange(12, 32) =~= a.bytes());
}

} // verus!
