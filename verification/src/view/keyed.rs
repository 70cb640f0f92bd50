//! Keyed lists of child views: matching the keys of the previous items against the keys of
//! the new items, to decide which child states are kept, which are built and which are razed.
use vstd::prelude::*;
use vstd::std_specs::cmp::PartialEqSpec;

verus! {

/// One step of updating a keyed list.
#[derive(Clone, Copy, PartialEq, Eq, Structural, Debug)]
pub enum KeyedOp {
    /// Raze the previous item at this position.
    Raze(usize),
    /// Build a new item at this position of the new list.
    Build(usize),
    /// Move the state of the previous item at the first position to the new item at the
    /// second position, and update it there.
    Reuse(usize, usize),
}

/// Two keys are equal, as `==` on keys decides.
pub open spec fn keys_eq<K: PartialEq>(x: K, y: K) -> bool {
    x.eq_spec(&y)
}

/// The length of the run of equal keys that starts at `a[i]` and `b[j]`.
pub open spec fn run_len<K: PartialEq>(a: Seq<K>, b: Seq<K>, i: int, j: int) -> nat
    decreases a.len() - i,
{
    if 0 <= i < a.len() && 0 <= j < b.len() && keys_eq(a[i], b[j]) {
        1 + run_len(a, b, i + 1, j + 1)
    } else {
        0
    }
}

/// `(i, j)` comes before `(x, y)` when positions are read row by row.
pub open spec fn before(x: int, y: int, i: int, j: int) -> bool {
    x < i || (x == i && y < j)
}

/// `r = (i, j, l)` is the longest run of equal keys of `a` and `b`: `l` is the largest run
/// length, and `(i, j)` is where the first such run starts, positions read row by row; when
/// no keys are equal, `r` is `(0, 0, 0)`.
pub open spec fn is_lcs<K: PartialEq>(a: Seq<K>, b: Seq<K>, r: (int, int, int)) -> bool {
    let (i, j, l) = r;
    &&& forall|x: int, y: int|
        0 <= x < a.len() && 0 <= y < b.len() ==> #[trigger] run_len(a, b, x, y) <= l
    &&& if l == 0 {
        i == 0 && j == 0
    } else {
        &&& 0 <= i < a.len()
        &&& 0 <= j < b.len()
        &&& run_len(a, b, i, j) == l
        &&& forall|x: int, y: int|
            0 <= x < a.len() && 0 <= y < b.len() && before(x, y, i, j) ==> #[trigger] run_len(
                a,
                b,
                x,
                y,
            ) < l
    }
}

/// The longest run of equal keys of `a` and `b`, as [`is_lcs`] describes it.
pub open spec fn lcs_of<K: PartialEq>(a: Seq<K>, b: Seq<K>) -> (int, int, int) {
    choose|r: (int, int, int)| is_lcs(a, b, r)
}

/// Reads the positions row by row from `(x, y)` on, keeping the first longest run seen so far
/// in `(bi, bj, bl)`.
pub open spec fn scan_runs<K: PartialEq>(
    a: Seq<K>,
    b: Seq<K>,
    x: int,
    y: int,
    bi: int,
    bj: int,
    bl: int,
) -> (int, int, int)
    decreases a.len() - x, b.len() - y,
{
    if x < 0 || x >= a.len() || y < 0 {
        (bi, bj, bl)
    } else if y >= b.len() {
        scan_runs(a, b, x + 1, 0, bi, bj, bl)
    } else if run_len(a, b, x, y) > bl {
        scan_runs(a, b, x, y + 1, x, y, run_len(a, b, x, y) as int)
    } else {
        scan_runs(a, b, x, y + 1, bi, bj, bl)
    }
}

/// What the row-by-row reading keeps true: `(bi, bj, bl)` is the first longest run among the
/// positions before `(x, y)`.
pub open spec fn scan_inv<K: PartialEq>(
    a: Seq<K>,
    b: Seq<K>,
    x: int,
    y: int,
    bi: int,
    bj: int,
    bl: int,
) -> bool {
    &&& 0 <= bl
    &&& forall|xx: int, yy: int|
        0 <= xx < a.len() && 0 <= yy < b.len() && before(xx, yy, x, y) ==> #[trigger] run_len(
            a,
            b,
            xx,
            yy,
        ) <= bl
    &&& bl == 0 ==> bi == 0 && bj == 0
    &&& bl > 0 ==> {
        &&& before(bi, bj, x, y)
        &&& 0 <= bi < a.len()
        &&& 0 <= bj < b.len()
        &&& run_len(a, b, bi, bj) == bl
        &&& forall|xx: int, yy: int|
            0 <= xx < a.len() && 0 <= yy < b.len() && before(xx, yy, bi, bj)
                ==> #[trigger] run_len(a, b, xx, yy) < bl
    }
}

proof fn lemma_scan_runs<K: PartialEq>(
    a: Seq<K>,
    b: Seq<K>,
    x: int,
    y: int,
    bi: int,
    bj: int,
    bl: int,
)
    requires
        0 <= x <= a.len(),
        0 <= y <= b.len(),
        scan_inv(a, b, x, y, bi, bj, bl),
    ensures
        is_lcs(a, b, scan_runs(a, b, x, y, bi, bj, bl)),
    decreases a.len() - x, b.len() - y,
{
    if x >= a.len() {
        assert forall|xx: int, yy: int|
            0 <= xx < a.len() && 0 <= yy < b.len() implies #[trigger] run_len(a, b, xx, yy)
            <= bl by {
            assert(before(xx, yy, x, y));
        }
    } else if y >= b.len() {
        assert forall|xx: int, yy: int|
            0 <= xx < a.len() && 0 <= yy < b.len() && before(xx, yy, x + 1, 0)
                implies #[trigger] run_len(a, b, xx, yy) <= bl by {
            assert(before(xx, yy, x, y));
        }
        lemma_scan_runs(a, b, x + 1, 0, bi, bj, bl);
    } else {
        let r = run_len(a, b, x, y) as int;
        if r > bl {
            assert(scan_inv(a, b, x, y + 1, x, y, r));
            lemma_scan_runs(a, b, x, y + 1, x, y, r);
        } else {
            assert(scan_inv(a, b, x, y + 1, bi, bj, bl));
            lemma_scan_runs(a, b, x, y + 1, bi, bj, bl);
        }
    }
}

/// Two lists of keys always have a longest run, as [`is_lcs`] describes it.
proof fn lemma_lcs_exists<K: PartialEq>(a: Seq<K>, b: Seq<K>)
    ensures
        is_lcs(a, b, lcs_of(a, b)),
{
    lemma_scan_runs(a, b, 0, 0, 0, 0, 0);
}

/// Razing the previous items `a..b`, in order.
pub open spec fn razes(a: int, b: int) -> Seq<KeyedOp> {
    Seq::new((b - a) as nat, |k: int| KeyedOp::Raze((a + k) as usize))
}

/// Building the new items `a..b`, in order.
pub open spec fn builds(a: int, b: int) -> Seq<KeyedOp> {
    Seq::new((b - a) as nat, |k: int| KeyedOp::Build((a + k) as usize))
}

/// Reusing the previous items `ps..ps + l` for the new items `ns..ns + l`, in order.
pub open spec fn reuses(ps: int, ns: int, l: int) -> Seq<KeyedOp> {
    Seq::new(l as nat, |k: int| KeyedOp::Reuse((ps + k) as usize, (ns + k) as usize))
}

/// The steps that turn the previous items `p0..p1` into the new items `n0..n1`. The longest
/// run of equal keys is kept; what comes before it, and what comes after it, is matched in
/// the same way when both lists have items there, and is razed or built otherwise. When no
/// keys are equal, all previous items are razed, then all new items built.
pub open spec fn keyed_plan<K: PartialEq>(
    prev: Seq<K>,
    next: Seq<K>,
    p0: int,
    p1: int,
    n0: int,
    n1: int,
) -> Seq<KeyedOp>
    decreases (p1 - p0) + (n1 - n0),
{
    let (ri, rj, l) = lcs_of(prev.subrange(p0, p1), next.subrange(n0, n1));
    if l > 0 && 0 <= ri && ri + l <= p1 - p0 && 0 <= rj && rj + l <= n1 - n0 {
        let ps = p0 + ri;
        let ns = n0 + rj;
        let pe = ps + l;
        let ne = ns + l;
        let head = if ps > p0 {
            if ns > n0 {
                keyed_plan(prev, next, p0, ps, n0, ns)
            } else {
                razes(p0, ps)
            }
        } else if ns > n0 {
            builds(n0, ns)
        } else {
            Seq::empty()
        };
        let tail = if pe < p1 {
            if ne < n1 {
                keyed_plan(prev, next, pe, p1, ne, n1)
            } else {
                razes(pe, p1)
            }
        } else if ne < n1 {
            builds(ne, n1)
        } else {
            Seq::empty()
        };
        head + reuses(ps, ns, l) + tail
    } else {
        razes(p0, p1) + builds(n0, n1)
    }
}

/// The positions of the new list that the steps fill, in the order of the steps.
pub open spec fn next_targets(ops: Seq<KeyedOp>) -> Seq<usize>
    decreases ops.len(),
{
    if ops.len() == 0 {
        Seq::empty()
    } else {
        let rest = next_targets(ops.subrange(0, ops.len() - 1));
        match ops[ops.len() - 1] {
            KeyedOp::Raze(_) => rest,
            KeyedOp::Build(j) => rest.push(j),
            KeyedOp::Reuse(_, j) => rest.push(j),
        }
    }
}

/// The positions of the previous list that the steps consume, in the order of the steps.
pub open spec fn prev_sources(ops: Seq<KeyedOp>) -> Seq<usize>
    decreases ops.len(),
{
    if ops.len() == 0 {
        Seq::empty()
    } else {
        let rest = prev_sources(ops.subrange(0, ops.len() - 1));
        match ops[ops.len() - 1] {
            KeyedOp::Raze(i) => rest.push(i),
            KeyedOp::Build(_) => rest,
            KeyedOp::Reuse(i, _) => rest.push(i),
        }
    }
}

/// The positions `a, a + 1, ..., b - 1`.
pub open spec fn range_seq(a: int, b: int) -> Seq<usize> {
    Seq::new((b - a) as nat, |k: int| (a + k) as usize)
}

/// Every step that keeps a state moves it between items with equal keys.
pub open spec fn reuses_match<K: PartialEq>(prev: Seq<K>, next: Seq<K>, ops: Seq<KeyedOp>) -> bool {
    forall|k: int|
        0 <= k < ops.len() ==> match #[trigger] ops[k] {
            KeyedOp::Reuse(i, j) => i < prev.len() && j < next.len() && keys_eq(
                prev[i as int],
                next[j as int],
            ),
            _ => true,
        }
}

proof fn lemma_targets_concat(x: Seq<KeyedOp>, y: Seq<KeyedOp>)
    ensures
        next_targets(x + y) == next_targets(x) + next_targets(y),
        prev_sources(x + y) == prev_sources(x) + prev_sources(y),
    decreases y.len(),
{
    if y.len() == 0 {
        assert(x + y == x);
        assert(next_targets(x) + next_targets(y) == next_targets(x));
        assert(prev_sources(x) + prev_sources(y) == prev_sources(x));
    } else {
        let y0 = y.subrange(0, y.len() - 1);
        lemma_targets_concat(x, y0);
        assert((x + y).subrange(0, (x + y).len() - 1) == x + y0);
        assert((x + y)[(x + y).len() - 1] == y[y.len() - 1]);
        assert(next_targets(x) + next_targets(y0).push(y[y.len() - 1]->Build_0) == (next_targets(
            x,
        ) + next_targets(y0)).push(y[y.len() - 1]->Build_0));
        assert(next_targets(x) + next_targets(y0).push(y[y.len() - 1]->Reuse_1) == (next_targets(
            x,
        ) + next_targets(y0)).push(y[y.len() - 1]->Reuse_1));
        assert(prev_sources(x) + prev_sources(y0).push(y[y.len() - 1]->Raze_0) == (prev_sources(
            x,
        ) + prev_sources(y0)).push(y[y.len() - 1]->Raze_0));
        assert(prev_sources(x) + prev_sources(y0).push(y[y.len() - 1]->Reuse_0) == (prev_sources(
            x,
        ) + prev_sources(y0)).push(y[y.len() - 1]->Reuse_0));
    }
}

proof fn lemma_range_concat(a: int, b: int, c: int)
    requires
        0 <= a <= b <= c <= usize::MAX,
    ensures
        range_seq(a, b) + range_seq(b, c) == range_seq(a, c),
{
    assert(range_seq(a, b) + range_seq(b, c) =~= range_seq(a, c));
}

proof fn lemma_razes_targets(a: int, b: int)
    requires
        0 <= a <= b <= usize::MAX,
    ensures
        next_targets(razes(a, b)) == Seq::<usize>::empty(),
        prev_sources(razes(a, b)) == range_seq(a, b),
    decreases b - a,
{
    if b > a {
        lemma_razes_targets(a, b - 1);
        assert(razes(a, b).subrange(0, b - a - 1) == razes(a, b - 1));
        assert(range_seq(a, b - 1).push((b - 1) as usize) == range_seq(a, b));
    } else {
        assert(razes(a, b) == Seq::<KeyedOp>::empty());
        assert(range_seq(a, b) == Seq::<usize>::empty());
    }
}

proof fn lemma_builds_targets(a: int, b: int)
    requires
        0 <= a <= b <= usize::MAX,
    ensures
        next_targets(builds(a, b)) == range_seq(a, b),
        prev_sources(builds(a, b)) == Seq::<usize>::empty(),
    decreases b - a,
{
    if b > a {
        lemma_builds_targets(a, b - 1);
        assert(builds(a, b).subrange(0, b - a - 1) == builds(a, b - 1));
        assert(range_seq(a, b - 1).push((b - 1) as usize) == range_seq(a, b));
    } else {
        assert(builds(a, b) == Seq::<KeyedOp>::empty());
        assert(range_seq(a, b) == Seq::<usize>::empty());
    }
}

proof fn lemma_reuses_targets(ps: int, ns: int, l: int)
    requires
        0 <= l,
        0 <= ps,
        0 <= ns,
        ps + l <= usize::MAX,
        ns + l <= usize::MAX,
    ensures
        next_targets(reuses(ps, ns, l)) == range_seq(ns, ns + l),
        prev_sources(reuses(ps, ns, l)) == range_seq(ps, ps + l),
    decreases l,
{
    if l > 0 {
        lemma_reuses_targets(ps, ns, l - 1);
        assert(reuses(ps, ns, l).subrange(0, l - 1) == reuses(ps, ns, l - 1));
        assert(range_seq(ns, ns + l - 1).push((ns + l - 1) as usize) == range_seq(ns, ns + l));
        assert(range_seq(ps, ps + l - 1).push((ps + l - 1) as usize) == range_seq(ps, ps + l));
    } else {
        assert(reuses(ps, ns, l) == Seq::<KeyedOp>::empty());
        assert(range_seq(ns, ns) == Seq::<usize>::empty());
        assert(range_seq(ps, ps) == Seq::<usize>::empty());
    }
}

/// The keys of a run are equal, position by position.
proof fn lemma_run_keys<K: PartialEq>(a: Seq<K>, b: Seq<K>, i: int, j: int, k: int)
    requires
        0 <= i,
        0 <= j,
        0 <= k < run_len(a, b, i, j),
    ensures
        i + k < a.len(),
        j + k < b.len(),
        keys_eq(a[i + k], b[j + k]),
    decreases k,
{
    if k > 0 {
        lemma_run_keys(a, b, i + 1, j + 1, k - 1);
    }
}

/// The plan for the previous items `p0..p1` and the new items `n0..n1` fills every new
/// position once, in order, and consumes every previous position once, in order.
#[verifier::spinoff_prover]
proof fn lemma_plan_positions<K: PartialEq>(
    prev: Seq<K>,
    next: Seq<K>,
    p0: int,
    p1: int,
    n0: int,
    n1: int,
)
    requires
        0 <= p0 <= p1 <= prev.len() <= usize::MAX,
        0 <= n0 <= n1 <= next.len() <= usize::MAX,
    ensures
        next_targets(keyed_plan(prev, next, p0, p1, n0, n1)) == range_seq(n0, n1),
        prev_sources(keyed_plan(prev, next, p0, p1, n0, n1)) == range_seq(p0, p1),
    decreases (p1 - p0) + (n1 - n0),
{
    let sa = prev.subrange(p0, p1);
    let sb = next.subrange(n0, n1);
    lemma_lcs_exists(sa, sb);
    let (ri, rj, l) = lcs_of(sa, sb);
    let plan = keyed_plan(prev, next, p0, p1, n0, n1);
    if l > 0 && 0 <= ri && ri + l <= p1 - p0 && 0 <= rj && rj + l <= n1 - n0 {
        let ps = p0 + ri;
        let ns = n0 + rj;
        let pe = ps + l;
        let ne = ns + l;
        let head = if ps > p0 {
            if ns > n0 {
                keyed_plan(prev, next, p0, ps, n0, ns)
            } else {
                razes(p0, ps)
            }
        } else if ns > n0 {
            builds(n0, ns)
        } else {
            Seq::<KeyedOp>::empty()
        };
        let tail = if pe < p1 {
            if ne < n1 {
                keyed_plan(prev, next, pe, p1, ne, n1)
            } else {
                razes(pe, p1)
            }
        } else if ne < n1 {
            builds(ne, n1)
        } else {
            Seq::<KeyedOp>::empty()
        };
        let mid = reuses(ps, ns, l);
        assert(plan == head + mid + tail);
        // The head.
        if ps > p0 {
            if ns > n0 {
                lemma_plan_positions(prev, next, p0, ps, n0, ns);
            } else {
                lemma_razes_targets(p0, ps);
            }
        } else if ns > n0 {
            lemma_builds_targets(n0, ns);
        }
        assert(next_targets(head) == range_seq(n0, ns)) by {
            if !(ns > n0) {
                assert(range_seq(n0, ns) == Seq::<usize>::empty());
            }
        }
        assert(prev_sources(head) == range_seq(p0, ps)) by {
            if !(ps > p0) {
                assert(range_seq(p0, ps) == Seq::<usize>::empty());
            }
        }
        // The tail.
        if pe < p1 {
            if ne < n1 {
                lemma_plan_positions(prev, next, pe, p1, ne, n1);
            } else {
                lemma_razes_targets(pe, p1);
            }
        } else if ne < n1 {
            lemma_builds_targets(ne, n1);
        }
        assert(next_targets(tail) == range_seq(ne, n1)) by {
            if !(ne < n1) {
                assert(range_seq(ne, n1) == Seq::<usize>::empty());
            }
        }
        assert(prev_sources(tail) == range_seq(pe, p1)) by {
            if !(pe < p1) {
                assert(range_seq(pe, p1) == Seq::<usize>::empty());
            }
        }
        lemma_reuses_targets(ps, ns, l);
        lemma_targets_concat(head, mid);
        lemma_targets_concat(head + mid, tail);
        lemma_range_concat(n0, ns, ne);
        lemma_range_concat(n0, ne, n1);
        lemma_range_concat(p0, ps, pe);
        lemma_range_concat(p0, pe, p1);
    } else {
        lemma_razes_targets(p0, p1);
        lemma_builds_targets(n0, n1);
        lemma_targets_concat(razes(p0, p1), builds(n0, n1));
        assert(Seq::<usize>::empty() + range_seq(n0, n1) == range_seq(n0, n1));
        assert(range_seq(p0, p1) + Seq::<usize>::empty() == range_seq(p0, p1));
    }
}

/// Every step of the plan for the previous items `p0..p1` and the new items `n0..n1` that
/// moves a state moves it between items with equal keys.
#[verifier::spinoff_prover]
proof fn lemma_plan_reuses<K: PartialEq>(
    prev: Seq<K>,
    next: Seq<K>,
    p0: int,
    p1: int,
    n0: int,
    n1: int,
)
    requires
        0 <= p0 <= p1 <= prev.len() <= usize::MAX,
        0 <= n0 <= n1 <= next.len() <= usize::MAX,
    ensures
        reuses_match(prev, next, keyed_plan(prev, next, p0, p1, n0, n1)),
    decreases (p1 - p0) + (n1 - n0),
{
    let sa = prev.subrange(p0, p1);
    let sb = next.subrange(n0, n1);
    lemma_lcs_exists(sa, sb);
    let (ri, rj, l) = lcs_of(sa, sb);
    let plan = keyed_plan(prev, next, p0, p1, n0, n1);
    if l > 0 && 0 <= ri && ri + l <= p1 - p0 && 0 <= rj && rj + l <= n1 - n0 {
        let ps = p0 + ri;
        let ns = n0 + rj;
        let pe = ps + l;
        let ne = ns + l;
        let head = if ps > p0 {
            if ns > n0 {
                keyed_plan(prev, next, p0, ps, n0, ns)
            } else {
                razes(p0, ps)
            }
        } else if ns > n0 {
            builds(n0, ns)
        } else {
            Seq::<KeyedOp>::empty()
        };
        let tail = if pe < p1 {
            if ne < n1 {
                keyed_plan(prev, next, pe, p1, ne, n1)
            } else {
                razes(pe, p1)
            }
        } else if ne < n1 {
            builds(ne, n1)
        } else {
            Seq::<KeyedOp>::empty()
        };
        let mid = reuses(ps, ns, l);
        assert(plan == head + mid + tail);
        if ps > p0 && ns > n0 {
            lemma_plan_reuses(prev, next, p0, ps, n0, ns);
        }
        if pe < p1 && ne < n1 {
            lemma_plan_reuses(prev, next, pe, p1, ne, n1);
        }
        // The steps that move states.
        assert forall|k: int| 0 <= k < plan.len() implies match #[trigger] plan[k] {
            KeyedOp::Reuse(i, j) => i < prev.len() && j < next.len() && keys_eq(
                prev[i as int],
                next[j as int],
            ),
            _ => true,
        } by {
            if k < head.len() {
                assert(plan[k] == head[k]);
                if !(ps > p0 && ns > n0) {
                    if ps > p0 {
                        assert(head[k] == KeyedOp::Raze((p0 + k) as usize));
                    } else if ns > n0 {
                        assert(head[k] == KeyedOp::Build((n0 + k) as usize));
                    }
                }
            } else if k < head.len() + mid.len() {
                let kk = k - head.len();
                assert(plan[k] == mid[kk]);
                lemma_run_keys(sa, sb, ri, rj, kk);
                assert(sa[ri + kk] == prev[ps + kk]);
                assert(sb[rj + kk] == next[ns + kk]);
            } else {
                let kk = k - head.len() - mid.len();
                assert(plan[k] == tail[kk]);
                if !(pe < p1 && ne < n1) {
                    if pe < p1 {
                        assert(tail[kk] == KeyedOp::Raze((pe + kk) as usize));
                    } else if ne < n1 {
                        assert(tail[kk] == KeyedOp::Build((ne + kk) as usize));
                    }
                }
            }
        }
    } else {
        assert forall|k: int| 0 <= k < plan.len() implies match #[trigger] plan[k] {
            KeyedOp::Reuse(i, j) => i < prev.len() && j < next.len() && keys_eq(
                prev[i as int],
                next[j as int],
            ),
            _ => true,
        } by {
            if k < p1 - p0 {
                assert(plan[k] == KeyedOp::Raze((p0 + k) as usize));
            } else {
                assert(plan[k] == KeyedOp::Build((n0 + k - (p1 - p0)) as usize));
            }
        }
    }
}

/// The plan for the previous items `p0..p1` and the new items `n0..n1` fills every new
/// position once, in order; consumes every previous position once, in order (each is either
/// razed or has its state moved); and only moves a state between items with equal keys.
pub proof fn lemma_keyed_plan<K: PartialEq>(
    prev: Seq<K>,
    next: Seq<K>,
    p0: int,
    p1: int,
    n0: int,
    n1: int,
)
    requires
        0 <= p0 <= p1 <= prev.len() <= usize::MAX,
        0 <= n0 <= n1 <= next.len() <= usize::MAX,
    ensures
        next_targets(keyed_plan(prev, next, p0, p1, n0, n1)) == range_seq(n0, n1),
        prev_sources(keyed_plan(prev, next, p0, p1, n0, n1)) == range_seq(p0, p1),
        reuses_match(prev, next, keyed_plan(prev, next, p0, p1, n0, n1)),
{
    lemma_plan_positions(prev, next, p0, p1, n0, n1);
    lemma_plan_reuses(prev, next, p0, p1, n0, n1);
}

/// Two copies of the same keys, from `i` on, run to the end.
proof fn lemma_run_len_same<K: PartialEq>(keys: Seq<K>, i: int)
    requires
        0 <= i <= keys.len(),
        forall|k: int| 0 <= k < keys.len() ==> keys_eq(#[trigger] keys[k], keys[k]),
    ensures
        run_len(keys, keys, i, i) == keys.len() - i,
    decreases keys.len() - i,
{
    if i < keys.len() {
        assert(keys_eq(keys[i], keys[i]));
        lemma_run_len_same(keys, i + 1);
    }
}

/// An update whose new keys are the previous keys keeps every state in place: when every key
/// equals itself, the plan moves the state of item `i` to item `i`, for every `i`, and razes
/// and builds nothing.
pub proof fn lemma_same_keys_keep_states<K: PartialEq>(keys: Seq<K>)
    requires
        forall|k: int| 0 <= k < keys.len() ==> keys_eq(#[trigger] keys[k], keys[k]),
    ensures
        keyed_plan(keys, keys, 0, keys.len() as int, 0, keys.len() as int) == reuses(
            0,
            0,
            keys.len() as int,
        ),
{
    let n = keys.len() as int;
    assert(keys.subrange(0, n) =~= keys);
    lemma_lcs_exists(keys, keys);
    if n == 0 {
        assert(razes(0, 0) + builds(0, 0) =~= reuses(0, 0, 0));
    } else {
        lemma_run_len_same(keys, 0);
        assert forall|x: int, y: int| 0 <= x < n && 0 <= y < n implies #[trigger] run_len(
            keys,
            keys,
            x,
            y,
        ) <= n by {
            lemma_run_len_bound(keys, keys, x, y);
        }
        assert(is_lcs(keys, keys, (0, 0, n)));
        lemma_lcs_unique(keys, keys, (0, 0, n), lcs_of(keys, keys));
        assert(Seq::<KeyedOp>::empty() + reuses(0, 0, n) + Seq::<KeyedOp>::empty() =~= reuses(
            0,
            0,
            n,
        ));
    }
}

/// A step that keeps the state of previous item `a` for new item `b` crosses the pair
/// `(i, j)` when the two lie on opposite sides of it: keeping the state of `i` for `j` as
/// well would reorder the items.
pub open spec fn crosses(op: KeyedOp, i: int, j: int) -> bool {
    match op {
        KeyedOp::Reuse(a, b) => (a < i && b > j) || (a > i && b < j),
        _ => false,
    }
}

/// No state is thrown away that could have been kept: whenever the steps raze a previous item
/// and build a new item with an equal key, some step keeps a state across that pair.
pub open spec fn reuse_is_maximal<K: PartialEq>(
    prev: Seq<K>,
    next: Seq<K>,
    ops: Seq<KeyedOp>,
) -> bool {
    forall|i: usize, j: usize|
        #![trigger ops.contains(KeyedOp::Raze(i)), ops.contains(KeyedOp::Build(j))]
        i < prev.len() && j < next.len() && keys_eq(prev[i as int], next[j as int])
            && ops.contains(KeyedOp::Raze(i)) && ops.contains(KeyedOp::Build(j)) ==> exists|k: int|
            0 <= k < ops.len() && #[trigger] crosses(ops[k], i as int, j as int)
}

/// The steps for one side of the longest run: matched again when both lists have items
/// there, razed or built otherwise.
spec fn side_plan<K: PartialEq>(
    prev: Seq<K>,
    next: Seq<K>,
    a0: int,
    a1: int,
    b0: int,
    b1: int,
) -> Seq<KeyedOp> {
    if a1 > a0 {
        if b1 > b0 {
            keyed_plan(prev, next, a0, a1, b0, b1)
        } else {
            razes(a0, a1)
        }
    } else if b1 > b0 {
        builds(b0, b1)
    } else {
        Seq::empty()
    }
}

proof fn lemma_side_positions<K: PartialEq>(
    prev: Seq<K>,
    next: Seq<K>,
    a0: int,
    a1: int,
    b0: int,
    b1: int,
)
    requires
        0 <= a0 <= a1 <= prev.len() <= usize::MAX,
        0 <= b0 <= b1 <= next.len() <= usize::MAX,
    ensures
        next_targets(side_plan(prev, next, a0, a1, b0, b1)) == range_seq(b0, b1),
        prev_sources(side_plan(prev, next, a0, a1, b0, b1)) == range_seq(a0, a1),
{
    if a1 > a0 {
        if b1 > b0 {
            lemma_plan_positions(prev, next, a0, a1, b0, b1);
        } else {
            lemma_razes_targets(a0, a1);
            assert(range_seq(b0, b1) == Seq::<usize>::empty());
        }
    } else if b1 > b0 {
        lemma_builds_targets(b0, b1);
        assert(range_seq(a0, a1) == Seq::<usize>::empty());
    } else {
        assert(next_targets(Seq::<KeyedOp>::empty()) == Seq::<usize>::empty());
        assert(prev_sources(Seq::<KeyedOp>::empty()) == Seq::<usize>::empty());
        assert(range_seq(b0, b1) == Seq::<usize>::empty());
        assert(range_seq(a0, a1) == Seq::<usize>::empty());
    }
}

/// A step that razes `i` puts `i` among the consumed positions; one that builds `j` puts
/// `j` among the filled ones.
proof fn lemma_step_in_positions(ops: Seq<KeyedOp>, k: int)
    requires
        0 <= k < ops.len(),
    ensures
        ops[k] matches KeyedOp::Raze(i) ==> prev_sources(ops).contains(i),
        ops[k] matches KeyedOp::Build(j) ==> next_targets(ops).contains(j),
    decreases ops.len(),
{
    let n = ops.len() - 1;
    let init = ops.subrange(0, n);
    if k < n {
        lemma_step_in_positions(init, k);
        assert(init[k] == ops[k]);
        match ops[k] {
            KeyedOp::Raze(i) => {
                let w = choose|w: int|
                    0 <= w < prev_sources(init).len() && prev_sources(init)[w] == i;
                assert(prev_sources(ops)[w] == i);
            },
            KeyedOp::Build(j) => {
                let w = choose|w: int|
                    0 <= w < next_targets(init).len() && next_targets(init)[w] == j;
                assert(next_targets(ops)[w] == j);
            },
            _ => {},
        }
    } else {
        match ops[k] {
            KeyedOp::Raze(i) => {
                assert(prev_sources(ops)[prev_sources(init).len() as int] == i);
            },
            KeyedOp::Build(j) => {
                assert(next_targets(ops)[next_targets(init).len() as int] == j);
            },
            _ => {},
        }
    }
}

proof fn lemma_range_contains(a: int, b: int, x: usize)
    requires
        0 <= a <= b <= usize::MAX,
        range_seq(a, b).contains(x),
    ensures
        a <= x < b,
{
    let w = choose|w: int| 0 <= w < range_seq(a, b).len() && range_seq(a, b)[w] == x;
    assert(range_seq(a, b)[w] == (a + w) as usize);
}

/// The plan for the previous items `p0..p1` and the new items `n0..n1` razes a previous item
/// and builds a new item with an equal key only when a kept state lies across the two.
#[verifier::spinoff_prover]
#[verifier::rlimit(40)]
proof fn lemma_plan_maximal<K: PartialEq>(
    prev: Seq<K>,
    next: Seq<K>,
    p0: int,
    p1: int,
    n0: int,
    n1: int,
    i: usize,
    j: usize,
)
    requires
        0 <= p0 <= p1 <= prev.len() <= usize::MAX,
        0 <= n0 <= n1 <= next.len() <= usize::MAX,
        i < prev.len(),
        j < next.len(),
        keys_eq(prev[i as int], next[j as int]),
        keyed_plan(prev, next, p0, p1, n0, n1).contains(KeyedOp::Raze(i)),
        keyed_plan(prev, next, p0, p1, n0, n1).contains(KeyedOp::Build(j)),
    ensures
        exists|k: int|
            0 <= k < keyed_plan(prev, next, p0, p1, n0, n1).len() && #[trigger] crosses(
                keyed_plan(prev, next, p0, p1, n0, n1)[k],
                i as int,
                j as int,
            ),
    decreases (p1 - p0) + (n1 - n0),
{
    let sa = prev.subrange(p0, p1);
    let sb = next.subrange(n0, n1);
    lemma_lcs_exists(sa, sb);
    let (ri, rj, l) = lcs_of(sa, sb);
    let plan = keyed_plan(prev, next, p0, p1, n0, n1);
    let kr = choose|k: int| 0 <= k < plan.len() && plan[k] == KeyedOp::Raze(i);
    let kb = choose|k: int| 0 <= k < plan.len() && plan[k] == KeyedOp::Build(j);
    lemma_plan_positions(prev, next, p0, p1, n0, n1);
    lemma_step_in_positions(plan, kr);
    lemma_step_in_positions(plan, kb);
    lemma_range_contains(p0, p1, i);
    lemma_range_contains(n0, n1, j);
    if l > 0 && 0 <= ri && ri + l <= p1 - p0 && 0 <= rj && rj + l <= n1 - n0 {
        let ps = p0 + ri;
        let ns = n0 + rj;
        let pe = ps + l;
        let ne = ns + l;
        let head = side_plan(prev, next, p0, ps, n0, ns);
        let tail = side_plan(prev, next, pe, p1, ne, n1);
        let mid = reuses(ps, ns, l);
        assert(plan == head + mid + tail);
        lemma_side_positions(prev, next, p0, ps, n0, ns);
        lemma_side_positions(prev, next, pe, p1, ne, n1);
        let h = head.len() as int;
        let m = mid.len() as int;
        // Where the razed item lies.
        if kr < h {
            assert(head[kr] == plan[kr]);
            lemma_step_in_positions(head, kr);
            lemma_range_contains(p0, ps, i);
        } else if kr < h + m {
            assert(mid[kr - h] == plan[kr]);
            assert(false);
        } else {
            assert(tail[kr - h - m] == plan[kr]);
            lemma_step_in_positions(tail, kr - h - m);
            lemma_range_contains(pe, p1, i);
        }
        // Where the built item lies.
        if kb < h {
            assert(head[kb] == plan[kb]);
            lemma_step_in_positions(head, kb);
            lemma_range_contains(n0, ns, j);
        } else if kb < h + m {
            assert(mid[kb - h] == plan[kb]);
            assert(false);
        } else {
            assert(tail[kb - h - m] == plan[kb]);
            lemma_step_in_positions(tail, kb - h - m);
            lemma_range_contains(ne, n1, j);
        }
        if kr < h && kb < h {
            assert(head.contains(KeyedOp::Raze(i)));
            assert(head.contains(KeyedOp::Build(j)));
            lemma_plan_maximal(prev, next, p0, ps, n0, ns, i, j);
            let k = choose|k: int|
                0 <= k < head.len() && #[trigger] crosses(head[k], i as int, j as int);
            assert(plan[k] == head[k]);
            assert(crosses(plan[k], i as int, j as int));
        } else if kr >= h + m && kb >= h + m {
            assert(tail.contains(KeyedOp::Raze(i)));
            assert(tail.contains(KeyedOp::Build(j)));
            lemma_plan_maximal(prev, next, pe, p1, ne, n1, i, j);
            let k = choose|k: int|
                0 <= k < tail.len() && #[trigger] crosses(tail[k], i as int, j as int);
            assert(plan[h + m + k] == tail[k]);
            assert(crosses(plan[h + m + k], i as int, j as int));
        } else {
            // The razed item and the built one lie on opposite sides of the longest run, so
            // its first step crosses them.
            assert(plan[h] == mid[0]);
            assert(mid[0] == KeyedOp::Reuse(ps as usize, ns as usize));
            assert(crosses(plan[h], i as int, j as int));
        }
    } else {
        if l > 0 {
            lemma_run_len_bound(sa, sb, ri, rj);
            assert(false);
        }
        assert(sa[i - p0] == prev[i as int]);
        assert(sb[j - n0] == next[j as int]);
        assert(run_len(sa, sb, i - p0, j - n0) > 0);
        assert(false);
    }
}

/// The plan keeps every state it can: when it razes a previous item and builds a new item
/// with an equal key, a kept state lies across the two, so that keeping this one too would
/// reorder the list. In particular, items whose keys appear in both lists in the same order
/// keep their states.
pub proof fn lemma_keyed_plan_maximal<K: PartialEq>(prev: Seq<K>, next: Seq<K>)
    requires
        prev.len() <= usize::MAX,
        next.len() <= usize::MAX,
    ensures
        reuse_is_maximal(prev, next, keyed_plan(prev, next, 0, prev.len() as int, 0, next.len() as int)),
{
    let plan = keyed_plan(prev, next, 0, prev.len() as int, 0, next.len() as int);
    assert forall|i: usize, j: usize|
        i < prev.len() && j < next.len() && keys_eq(prev[i as int], next[j as int])
            && #[trigger] plan.contains(KeyedOp::Raze(i)) && #[trigger] plan.contains(
            KeyedOp::Build(j),
        ) implies exists|k: int|
        0 <= k < plan.len() && #[trigger] crosses(plan[k], i as int, j as int) by {
        lemma_plan_maximal(prev, next, 0, prev.len() as int, 0, next.len() as int, i, j);
    }
}

/// A run of equal keys never goes past the end of either list.
proof fn lemma_run_len_bound<K: PartialEq>(a: Seq<K>, b: Seq<K>, i: int, j: int)
    requires
        0 <= i,
        0 <= j,
    ensures
        run_len(a, b, i, j) > 0 ==> i < a.len() && j < b.len(),
        i + run_len(a, b, i, j) <= a.len() || run_len(a, b, i, j) == 0,
        j + run_len(a, b, i, j) <= b.len() || run_len(a, b, i, j) == 0,
    decreases a.len() - i,
{
    if 0 <= i < a.len() && 0 <= j < b.len() && keys_eq(a[i], b[j]) {
        lemma_run_len_bound(a, b, i + 1, j + 1);
    }
}

/// There is only one longest run, as [`is_lcs`] describes it.
proof fn lemma_lcs_unique<K: PartialEq>(a: Seq<K>, b: Seq<K>, r1: (int, int, int), r2: (
    int,
    int,
    int,
))
    requires
        is_lcs(a, b, r1),
        is_lcs(a, b, r2),
    ensures
        r1 == r2,
{
    let (i1, j1, l1) = r1;
    let (i2, j2, l2) = r2;
    if l1 > 0 {
        assert(run_len(a, b, i1, j1) <= l2);
    }
    if l2 > 0 {
        assert(run_len(a, b, i2, j2) <= l1);
    }
    if l1 > 0 && l2 > 0 {
        assert(l1 == l2);
        if before(i1, j1, i2, j2) {
            assert(run_len(a, b, i1, j1) < l2);
        }
        if before(i2, j2, i1, j1) {
            assert(run_len(a, b, i2, j2) < l1);
        }
    }
}

/// The longest run of equal keys of `a[a0..a1]` and `b[b0..b1]`: where it starts in each,
/// counted from `a0` and `b0`, and its length. The first of the longest runs is taken,
/// positions read row by row.
pub fn lcs<K: PartialEq>(
    a: &Vec<K>,
    a0: usize,
    a1: usize,
    b: &Vec<K>,
    b0: usize,
    b1: usize,
) -> (r: (usize, usize, usize))
    requires
        a0 <= a1 <= a.len(),
        b0 <= b1 <= b.len(),
        K::obeys_eq_spec(),
    ensures
        is_lcs(
            a@.subrange(a0 as int, a1 as int),
            b@.subrange(b0 as int, b1 as int),
            (r.0 as int, r.1 as int, r.2 as int),
        ),
{
    let ghost sa = a@.subrange(a0 as int, a1 as int);
    let ghost sb = b@.subrange(b0 as int, b1 as int);
    let n = a1 - a0;
    let m = b1 - b0;
    let mut bi: usize = 0;
    let mut bj: usize = 0;
    let mut bl: usize = 0;
    let mut x: usize = 0;
    while x < n
        invariant
            sa == a@.subrange(a0 as int, a1 as int),
            sb == b@.subrange(b0 as int, b1 as int),
            n == sa.len(),
            m == sb.len(),
            a0 <= a1 <= a.len(),
            b0 <= b1 <= b.len(),
            K::obeys_eq_spec(),
            x <= n,
            forall|xx: int, yy: int|
                0 <= xx < x && 0 <= yy < m ==> #[trigger] run_len(sa, sb, xx, yy) <= bl,
            bl == 0 ==> bi == 0 && bj == 0,
            bl > 0 ==> {
                &&& bi < x
                &&& bj < m
                &&& run_len(sa, sb, bi as int, bj as int) == bl
                &&& forall|xx: int, yy: int|
                    0 <= xx < n && 0 <= yy < m && before(xx, yy, bi as int, bj as int)
                        ==> #[trigger] run_len(sa, sb, xx, yy) < bl
            },
        decreases n - x,
    {
        let mut y: usize = 0;
        while y < m
            invariant
                sa == a@.subrange(a0 as int, a1 as int),
                sb == b@.subrange(b0 as int, b1 as int),
                n == sa.len(),
                m == sb.len(),
                a0 <= a1 <= a.len(),
                b0 <= b1 <= b.len(),
                K::obeys_eq_spec(),
                x < n,
                y <= m,
                forall|xx: int, yy: int|
                    0 <= xx < n && 0 <= yy < m && before(xx, yy, x as int, y as int)
                        ==> #[trigger] run_len(sa, sb, xx, yy) <= bl,
                bl == 0 ==> bi == 0 && bj == 0,
                bl > 0 ==> {
                    &&& before(bi as int, bj as int, x as int, y as int)
                    &&& bi < n
                    &&& bj < m
                    &&& run_len(sa, sb, bi as int, bj as int) == bl
                    &&& forall|xx: int, yy: int|
                        0 <= xx < n && 0 <= yy < m && before(xx, yy, bi as int, bj as int)
                            ==> #[trigger] run_len(sa, sb, xx, yy) < bl
                },
            decreases m - y,
        {
            let mut len: usize = 0;
            while x + len < n && y + len < m && a[a0 + x + len] == b[b0 + y + len]
                invariant
                    sa == a@.subrange(a0 as int, a1 as int),
                    sb == b@.subrange(b0 as int, b1 as int),
                    n == sa.len(),
                    m == sb.len(),
                    a0 <= a1 <= a.len(),
                    b0 <= b1 <= b.len(),
                    K::obeys_eq_spec(),
                    x < n,
                    y < m,
                    x + len <= n,
                    y + len <= m,
                    run_len(sa, sb, x as int, y as int) == len + run_len(
                        sa,
                        sb,
                        x + len,
                        y + len,
                    ),
                decreases n - x - len,
            {
                assert(sa[x + len] == a@[a0 + x + len]);
                assert(sb[y + len] == b@[b0 + y + len]);
                len = len + 1;
            }
            proof {
                if x + len < n && y + len < m {
                    assert(sa[x + len] == a@[a0 + x + len]);
                    assert(sb[y + len] == b@[b0 + y + len]);
                }
                assert(run_len(sa, sb, x + len, y + len) == 0);
            }
            if len > bl {
                bi = x;
                bj = y;
                bl = len;
            }
            y = y + 1;
        }
        x = x + 1;
    }
    (bi, bj, bl)
}

/// Appends to `out` the steps that turn the previous items `p0..p1` into the new items
/// `n0..n1`, as [`keyed_plan`] gives them.
pub fn build_recursive<K: PartialEq>(
    prev: &Vec<K>,
    next: &Vec<K>,
    p0: usize,
    p1: usize,
    n0: usize,
    n1: usize,
    out: &mut Vec<KeyedOp>,
)
    requires
        p0 <= p1 <= prev.len(),
        n0 <= n1 <= next.len(),
        K::obeys_eq_spec(),
    ensures
        final(out)@ == old(out)@ + keyed_plan(
            prev@,
            next@,
            p0 as int,
            p1 as int,
            n0 as int,
            n1 as int,
        ),
    decreases (p1 - p0) + (n1 - n0),
{
    let ghost start = out@;
    let (ri, rj, l) = lcs(prev, p0, p1, next, n0, n1);
    let ghost sa = prev@.subrange(p0 as int, p1 as int);
    let ghost sb = next@.subrange(n0 as int, n1 as int);
    proof {
        lemma_lcs_unique(sa, sb, (ri as int, rj as int, l as int), lcs_of(sa, sb));
        if l > 0 {
            lemma_run_len_bound(sa, sb, ri as int, rj as int);
        }
    }
    if l == 0 {
        push_razes(out, p0, p1);
        push_builds(out, n0, n1);
        proof {
            assert(out@ == start + (razes(p0 as int, p1 as int) + builds(n0 as int, n1 as int)));
        }
        return ;
    }
    let ps = p0 + ri;
    let ns = n0 + rj;
    let pe = ps + l;
    let ne = ns + l;
    let ghost head = if ps > p0 {
        if ns > n0 {
            keyed_plan(prev@, next@, p0 as int, ps as int, n0 as int, ns as int)
        } else {
            razes(p0 as int, ps as int)
        }
    } else if ns > n0 {
        builds(n0 as int, ns as int)
    } else {
        Seq::<KeyedOp>::empty()
    };
    let ghost tail = if pe < p1 {
        if ne < n1 {
            keyed_plan(prev@, next@, pe as int, p1 as int, ne as int, n1 as int)
        } else {
            razes(pe as int, p1 as int)
        }
    } else if ne < n1 {
        builds(ne as int, n1 as int)
    } else {
        Seq::<KeyedOp>::empty()
    };
    if ps > p0 {
        if ns > n0 {
            build_recursive(prev, next, p0, ps, n0, ns, out);
        } else {
            push_razes(out, p0, ps);
        }
    } else if ns > n0 {
        push_builds(out, n0, ns);
    }
    assert(out@ =~= start + head);
    push_reuses(out, ps, ns, l);
    assert(out@ == start + head + reuses(ps as int, ns as int, l as int));
    let ghost mid = out@;
    if pe < p1 {
        if ne < n1 {
            build_recursive(prev, next, pe, p1, ne, n1, out);
        } else {
            push_razes(out, pe, p1);
        }
    } else if ne < n1 {
        push_builds(out, ne, n1);
    }
    assert(out@ =~= mid + tail);
    assert(out@ =~= start + (head + reuses(ps as int, ns as int, l as int) + tail));
}

/// Appends `razes(a, b)` to `out`.
fn push_razes(out: &mut Vec<KeyedOp>, a: usize, b: usize)
    requires
        a <= b,
    ensures
        final(out)@ == old(out)@ + razes(a as int, b as int),
{
    let mut i = a;
    while i < b
        invariant
            a <= i <= b,
            out@ == old(out)@ + razes(a as int, i as int),
        decreases b - i,
    {
        out.push(KeyedOp::Raze(i));
        i = i + 1;
        assert(out@ =~= old(out)@ + razes(a as int, i as int));
    }
}

/// Appends `builds(a, b)` to `out`.
fn push_builds(out: &mut Vec<KeyedOp>, a: usize, b: usize)
    requires
        a <= b,
    ensures
        final(out)@ == old(out)@ + builds(a as int, b as int),
{
    let mut i = a;
    while i < b
        invariant
            a <= i <= b,
            out@ == old(out)@ + builds(a as int, i as int),
        decreases b - i,
    {
        out.push(KeyedOp::Build(i));
        i = i + 1;
        assert(out@ =~= old(out)@ + builds(a as int, i as int));
    }
}

/// Appends `reuses(ps, ns, l)` to `out`.
fn push_reuses(out: &mut Vec<KeyedOp>, ps: usize, ns: usize, l: usize)
    requires
        ps + l <= usize::MAX,
        ns + l <= usize::MAX,
    ensures
        final(out)@ == old(out)@ + reuses(ps as int, ns as int, l as int),
{
    let mut k: usize = 0;
    while k < l
        invariant
            k <= l,
            ps + l <= usize::MAX,
            ns + l <= usize::MAX,
            out@ == old(out)@ + reuses(ps as int, ns as int, k as int),
        decreases l - k,
    {
        out.push(KeyedOp::Reuse(ps + k, ns + k));
        k = k + 1;
        assert(out@ =~= old(out)@ + reuses(ps as int, ns as int, k as int));
    }
}

/// The steps that turn a list whose items had the keys `prev` into one whose items have the
/// keys `next`.
pub fn plan_keyed_update<K: PartialEq>(prev: &Vec<K>, next: &Vec<K>) -> (ops: Vec<KeyedOp>)
    requires
        K::obeys_eq_spec(),
    ensures
        ops@ == keyed_plan(prev@, next@, 0, prev@.len() as int, 0, next@.len() as int),
        next_targets(ops@) == range_seq(0, next@.len() as int),
        prev_sources(ops@) == range_seq(0, prev@.len() as int),
        reuses_match(prev@, next@, ops@),
        reuse_is_maximal(prev@, next@, ops@),
{
    let mut ops: Vec<KeyedOp> = Vec::new();
    build_recursive(prev, next, 0, prev.len(), 0, next.len(), &mut ops);
    assert(ops@ =~= keyed_plan(prev@, next@, 0, prev@.len() as int, 0, next@.len() as int));
    proof {
        lemma_keyed_plan(prev@, next@, 0, prev@.len() as int, 0, next@.len() as int);
        lemma_keyed_plan_maximal(prev@, next@);
    }
    ops
}

} // verus!
