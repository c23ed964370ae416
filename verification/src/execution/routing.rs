//! Multi-pool routes and how they split into spans of one router each.
use crate::asset::{AssetId, PoolKind};
use crate::execution::error::BuildError;
use crate::execution::protocols::common::contains;
use crate::execution::types::TradeType;
use crate::pools::Pool;
use vstd::prelude::*;

verus! {

/// How an exact-out route is carried out.
#[derive(Clone, Copy, Debug, PartialEq, Eq, Structural)]
pub enum ExactOutPolicy {
    /// The output exactly, or not at all.
    Strict,
    /// At least the output, with the input solved for.
    OrBetter,
}

/// The on-chain router that settles a pool.
#[derive(Clone, Copy, Debug, PartialEq, Eq, Structural)]
pub enum RouterKind {
    UniswapUniversal,
    Aerodrome,
    Slipstream,
    Curve,
}

/// The router of a pool family.
pub open spec fn router_of_kind(kind: PoolKind) -> RouterKind {
    match kind {
        PoolKind::UniswapV2 | PoolKind::UniswapV3 | PoolKind::UniswapV4 =>
            RouterKind::UniswapUniversal,
        PoolKind::AerodromeStable | PoolKind::AerodromeVolatile => RouterKind::Aerodrome,
        PoolKind::AerodromeSlipstream => RouterKind::Slipstream,
        PoolKind::Curve => RouterKind::Curve,
    }
}

impl RouterKind {
    /// The router of a pool, where its family is known.
    pub open spec fn router_of(pool: Pool) -> Option<RouterKind> {
        match pool.kind_of() {
            Some(kind) => Some(router_of_kind(kind)),
            None => None,
        }
    }

    /// The router of a pool, where its family is known.
    pub fn of(pool: &Pool) -> (r: Option<RouterKind>)
        ensures
            r == RouterKind::router_of(*pool),
    {
        match pool.kind() {
            None => None,
            Some(kind) => Some(
                match kind {
                    PoolKind::UniswapV2 | PoolKind::UniswapV3 | PoolKind::UniswapV4 =>
                        RouterKind::UniswapUniversal,
                    PoolKind::AerodromeStable | PoolKind::AerodromeVolatile =>
                        RouterKind::Aerodrome,
                    PoolKind::AerodromeSlipstream => RouterKind::Slipstream,
                    PoolKind::Curve => RouterKind::Curve,
                },
            ),
        }
    }
}

/// Pools in the order they are traded through, and the assets between them: one
/// more than pools.
#[derive(Clone, Debug)]
pub struct Route {
    pub pools: Vec<Pool>,
    pub path: Vec<AssetId>,
    pub trade_type: TradeType,
}

impl Route {
    /// Whether pool `i` trades the two assets it stands between.
    pub open spec fn hop_fits(self, i: int) -> bool {
        let assets = self.pools@[i].asset_seq();
        assets.contains(self.path@[i]) && assets.contains(self.path@[i + 1])
    }

    /// Whether pools and path fit together.
    pub open spec fn connected(self) -> bool {
        &&& self.path@.len() == self.pools@.len() + 1
        &&& forall|i: int| 0 <= i < self.pools@.len() ==> #[trigger] self.hop_fits(i)
    }

    /// What [`Route::validate`] returns.
    pub open spec fn validity(self) -> Result<(), BuildError> {
        if self.pools@.len() == 0 {
            Err(BuildError::EmptyRoute)
        } else if !self.connected() {
            Err(BuildError::DisjointRoute)
        } else {
            Ok(())
        }
    }

    /// Refuses a route without pools, and one whose pools do not trade the
    /// assets of its path.
    pub fn validate(&self) -> (r: Result<(), BuildError>)
        ensures
            r == self.validity(),
    {
        let n: usize = self.pools.len();
        if n == 0 {
            return Err(BuildError::EmptyRoute);
        }
        if self.path.len() == 0 || self.path.len() - 1 != n {
            return Err(BuildError::DisjointRoute);
        }
        let mut i: usize = 0;
        while i < n
            invariant
                i <= n == self.pools@.len(),
                self.path@.len() == n + 1,
                forall|j: int| 0 <= j < i ==> #[trigger] self.hop_fits(j),
            decreases n - i,
        {
            let assets = self.pools[i].assets();
            let from = contains(assets, &self.path[i]);
            let to = contains(assets, &self.path[i + 1]);
            assert(self.hop_fits(i as int) == (from && to));
            if !from || !to {
                return Err(BuildError::DisjointRoute);
            }
            i = i + 1;
        }
        Ok(())
    }

    /// The router of pool `i`.
    pub open spec fn router_at(self, i: int) -> Option<RouterKind> {
        RouterKind::router_of(self.pools@[i])
    }
}

/// A run of pools that one router settles: from `start` up to but without
/// `end`.
#[derive(Clone, Copy, Debug, PartialEq, Eq, Structural)]
pub struct RouterSpan {
    pub kind: RouterKind,
    pub start: usize,
    pub end: usize,
}

/// Whether spans cut the first `n` pools of a route into runs of one router:
/// without gaps, in order, none empty.
pub open spec fn covers(spans: Seq<RouterSpan>, route: Route, n: int) -> bool {
    &&& spans.len() == 0 ==> n == 0
    &&& spans.len() > 0 ==> spans[0].start == 0 && spans.last().end == n
    &&& forall|k: int| 0 <= k < spans.len() ==> (#[trigger] spans[k]).start < spans[k].end
    &&& forall|k: int, m: int|
        0 <= k && m == k + 1 && m < spans.len() ==> (#[trigger] spans[k]).end == (
        #[trigger] spans[m]).start
    &&& forall|k: int, i: int|
        0 <= k < spans.len() && spans[k].start <= i < spans[k].end ==> #[trigger] route.router_at(i)
            == Some((#[trigger] spans[k]).kind)
}

/// Whether spans cut a whole route into the longest possible runs: no two
/// neighbours share a router.
pub open spec fn is_partition(spans: Seq<RouterSpan>, route: Route) -> bool {
    &&& covers(spans, route, route.pools@.len() as int)
    &&& forall|k: int, m: int|
        0 <= k && m == k + 1 && m < spans.len() ==> (#[trigger] spans[k]).kind != (
        #[trigger] spans[m]).kind
}

/// Whether every pool of a route has a known router.
pub open spec fn all_classified(route: Route) -> bool {
    forall|i: int| 0 <= i < route.pools@.len() ==> #[trigger] route.router_at(i) is Some
}

/// Cuts a route into the longest runs of one router, refusing a pool whose
/// router is unknown.
pub fn partition(route: &Route) -> (r: Result<Vec<RouterSpan>, BuildError>)
    ensures
        match r {
            Ok(spans) => all_classified(*route) && is_partition(spans@, *route),
            Err(e) => !all_classified(*route) && e == BuildError::UnsupportedProtocol,
        },
{
    let n: usize = route.pools.len();
    let mut spans: Vec<RouterSpan> = Vec::new();
    let mut i: usize = 0;
    while i < n
        invariant
            i <= n == route.pools@.len(),
            covers(spans@, *route, i as int),
            forall|k: int, m: int|
                0 <= k && m == k + 1 && m < spans@.len() ==> (#[trigger] spans@[k]).kind != (
                #[trigger] spans@[m]).kind,
            forall|j: int| 0 <= j < i ==> #[trigger] route.router_at(j) is Some,
        decreases n - i,
    {
        let kind = match RouterKind::of(&route.pools[i]) {
            Some(kind) => kind,
            None => {
                assert(route.router_at(i as int) is None);
                return Err(BuildError::UnsupportedProtocol);
            },
        };
        assert(route.router_at(i as int) == Some(kind));
        let last: usize = spans.len();
        if last > 0 && spans[last - 1].kind == kind {
            let start: usize = spans[last - 1].start;
            let ghost before = spans@;
            spans.pop();
            spans.push(RouterSpan { kind, start, end: i + 1 });
            proof {
                assert(forall|k: int| 0 <= k < last - 1 ==> spans@[k] == before[k]);
                assert(spans@[last - 1].kind == before[last - 1].kind);
                assert(spans@[last - 1].start == before[last - 1].start);
                assert forall|k: int, j: int|
                    0 <= k < spans@.len() && spans@[k].start <= j < spans@[k].end implies
                    #[trigger] route.router_at(j) == Some((#[trigger] spans@[k]).kind) by {
                    if k == last - 1 {
                        assert(before[k].end == i);
                        if j < i {
                            assert(route.router_at(j) == Some(before[k].kind));
                        }
                    } else {
                        assert(route.router_at(j) == Some(before[k].kind));
                    }
                }
            }
        } else {
            let ghost before = spans@;
            spans.push(RouterSpan { kind, start: i, end: i + 1 });
            proof {
                assert(forall|k: int| 0 <= k < last ==> spans@[k] == before[k]);
                assert forall|k: int, j: int|
                    0 <= k < spans@.len() && spans@[k].start <= j < spans@[k].end implies
                    #[trigger] route.router_at(j) == Some((#[trigger] spans@[k]).kind) by {
                    if k < last {
                        assert(route.router_at(j) == Some(before[k].kind));
                    }
                }
            }
        }
        i = i + 1;
    }
    Ok(spans)
}

/// No span of a cut reaches past the pools it cuts.
pub proof fn lemma_span_bounds(spans: Seq<RouterSpan>, route: Route, n: int, k: int)
    requires
        covers(spans, route, n),
        0 <= k < spans.len(),
    ensures
        spans[k].start < spans[k].end <= n,
    decreases spans.len() - k,
{
    if k < spans.len() - 1 {
        lemma_span_bounds(spans, route, n, k + 1);
        assert(spans[k].end == spans[k + 1].start);
    } else {
        assert(spans[k] == spans.last());
    }
}

/// Whether one router settles every pool of a route.
pub open spec fn one_router(route: Route) -> bool {
    forall|i: int, j: int|
        0 <= i < route.pools@.len() && 0 <= j < route.pools@.len() ==> #[trigger] route.router_at(i)
            == #[trigger] route.router_at(j)
}

/// A route is one span exactly when one router settles all its pools.
pub proof fn atomic_means_one_router(spans: Seq<RouterSpan>, route: Route)
    requires
        route.pools@.len() > 0,
        is_partition(spans, route),
    ensures
        spans.len() == 1 <==> one_router(route),
{
    let n = route.pools@.len() as int;
    assert(spans.len() > 0);
    if spans.len() == 1 {
        assert(spans[0] == spans.last());
        assert forall|i: int, j: int| 0 <= i < n && 0 <= j < n implies #[trigger] route.router_at(
            i,
        ) == #[trigger] route.router_at(j) by {
            assert(route.router_at(i) == Some(spans[0].kind));
            assert(route.router_at(j) == Some(spans[0].kind));
        }
    } else {
        lemma_span_bounds(spans, route, n, 0);
        lemma_span_bounds(spans, route, n, 1);
        let i = spans[0].start as int;
        let j = spans[1].start as int;
        assert(route.router_at(i) == Some(spans[0].kind));
        assert(route.router_at(j) == Some(spans[1].kind));
        assert(spans[0].kind != spans[1].kind);
        assert(!one_router(route));
    }
}

/// Every pool of a cut route stands in some span.
pub proof fn every_pool_is_spanned(spans: Seq<RouterSpan>, route: Route, i: int) -> (k: int)
    requires
        is_partition(spans, route),
        0 <= i < route.pools@.len(),
    ensures
        0 <= k < spans.len(),
        spans[k].start <= i < spans[k].end,
        route.router_at(i) == Some(spans[k].kind),
{
    find_span(spans, route, i, 0)
}

proof fn find_span(spans: Seq<RouterSpan>, route: Route, i: int, from: int) -> (k: int)
    requires
        covers(spans, route, route.pools@.len() as int),
        0 <= from < spans.len(),
        spans[from].start <= i < route.pools@.len(),
    ensures
        0 <= k < spans.len(),
        spans[k].start <= i < spans[k].end,
    decreases spans.len() - from,
{
    if i < spans[from].end {
        from
    } else {
        assert(from < spans.len() - 1) by {
            if from == spans.len() - 1 {
                assert(spans[from] == spans.last());
            }
        }
        assert(spans[from].end == spans[from + 1].start);
        find_span(spans, route, i, from + 1)
    }
}

/// A route has one way to be cut into the longest runs.
pub proof fn partition_is_unique(a: Seq<RouterSpan>, b: Seq<RouterSpan>, route: Route)
    requires
        is_partition(a, route),
        is_partition(b, route),
    ensures
        a == b,
{
    let n = route.pools@.len() as int;
    if n == 0 {
        if a.len() > 0 {
            lemma_span_bounds(a, route, n, 0);
        }
        if b.len() > 0 {
            lemma_span_bounds(b, route, n, 0);
        }
        assert(a =~= b);
    } else {
        let k = if a.len() <= b.len() {
            a.len() as int
        } else {
            b.len() as int
        };
        lemma_same_prefix(a, b, route, k);
        assert(a[k - 1] == b[k - 1]);
        if a.len() < b.len() {
            assert(a[k - 1] == a.last());
            lemma_span_bounds(b, route, n, k);
            assert(b[k - 1].end == b[k].start);
        }
        if b.len() < a.len() {
            assert(b[k - 1] == b.last());
            lemma_span_bounds(a, route, n, k);
            assert(a[k - 1].end == a[k].start);
        }
        assert(a =~= b);
    }
}

proof fn lemma_same_prefix(a: Seq<RouterSpan>, b: Seq<RouterSpan>, route: Route, k: int)
    requires
        is_partition(a, route),
        is_partition(b, route),
        0 <= k <= a.len(),
        k <= b.len(),
    ensures
        forall|i: int| 0 <= i < k ==> a[i] == b[i],
    decreases k,
{
    if k > 0 {
        let n = route.pools@.len() as int;
        let i = k - 1;
        lemma_same_prefix(a, b, route, i);
        if i > 0 {
            assert(a[i - 1].end == a[i].start);
            assert(b[i - 1].end == b[i].start);
        }
        assert(a[i].start == b[i].start);
        lemma_span_bounds(a, route, n, i);
        lemma_span_bounds(b, route, n, i);
        assert(route.router_at(a[i].start as int) == Some(a[i].kind));
        assert(route.router_at(b[i].start as int) == Some(b[i].kind));
        lemma_no_shorter(a, b, route, i);
        lemma_no_shorter(b, a, route, i);
    }
}

proof fn lemma_no_shorter(a: Seq<RouterSpan>, b: Seq<RouterSpan>, route: Route, i: int)
    requires
        is_partition(a, route),
        is_partition(b, route),
        0 <= i < a.len(),
        i < b.len(),
        a[i].start == b[i].start,
        a[i].kind == b[i].kind,
    ensures
        a[i].end >= b[i].end,
{
    let n = route.pools@.len() as int;
    lemma_span_bounds(a, route, n, i);
    lemma_span_bounds(b, route, n, i);
    if a[i].end < b[i].end {
        if i == a.len() - 1 {
            assert(a[i] == a.last());
        } else {
            lemma_span_bounds(a, route, n, i + 1);
            assert(a[i].end == a[i + 1].start);
            let j = a[i].end as int;
            assert(route.router_at(j) == Some(a[i + 1].kind));
            assert(route.router_at(j) == Some(b[i].kind));
            assert(a[i].kind != a[i + 1].kind);
        }
    }
}

} // verus!
