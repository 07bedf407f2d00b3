//! Dependency ordering by Kahn's algorithm over an index graph: node `k`
//! depends on every node listed in `deps[k]` (a node may be listed more than
//! once), and a node may only come after all of its dependencies.
use vstd::prelude::*;
use vstd::set_lib::{lemma_int_range, lemma_len_subset, set_int_range};

verus! {

/// Number of entries of `s` equal to `x`.
pub open spec fn count(s: Seq<usize>, x: usize) -> nat
    decreases s.len(),
{
    if s.len() == 0 {
        0
    } else {
        count(s.drop_last(), x) + if s.last() == x { 1nat } else { 0nat }
    }
}

/// Number of entries of `s` not yet emitted.
pub open spec fn pending(s: Seq<usize>, em: Seq<bool>) -> nat
    decreases s.len(),
{
    if s.len() == 0 {
        0
    } else {
        pending(s.drop_last(), em) + if em[s.last() as int] { 0nat } else { 1nat }
    }
}

/// Every dependency list names nodes of the graph.
pub open spec fn graph_ok(deps: Seq<Seq<usize>>) -> bool {
    forall|k: int, p: int|
        0 <= k < deps.len() && 0 <= p < deps[k].len() ==> (#[trigger] deps[k][p]) < deps.len()
}

/// `d` occurs in `order` before position `i`.
pub open spec fn before(order: Seq<usize>, i: int, d: usize) -> bool {
    exists|j: int| 0 <= j < i && order[j] == d
}

/// `x` occurs in `s`.
pub open spec fn occurs(s: Seq<usize>, x: usize) -> bool {
    exists|i: int| 0 <= i < s.len() && s[i] == x
}

/// `order` lists every node exactly once, each after all its dependencies.
pub open spec fn valid_order(deps: Seq<Seq<usize>>, order: Seq<usize>) -> bool {
    &&& order.len() == deps.len()
    &&& forall|i: int| 0 <= i < order.len() ==> (#[trigger] order[i]) < deps.len()
    &&& forall|i: int, j: int| 0 <= i < j < order.len() ==> order[i] != order[j]
    &&& forall|x: usize| x < deps.len() ==> #[trigger] occurs(order, x)
    &&& forall|i: int, p: int|
        0 <= i < order.len() && 0 <= p < deps[order[i] as int].len() ==> #[trigger] before(
            order,
            i,
            deps[order[i] as int][p],
        )
}

/// Some order of the nodes respects every dependency.
pub open spec fn orderable(deps: Seq<Seq<usize>>) -> bool {
    exists|order: Seq<usize>| valid_order(deps, order)
}

proof fn lemma_count_push(s: Seq<usize>, x: usize, y: usize)
    ensures
        count(s.push(x), y) == count(s, y) + if x == y { 1nat } else { 0nat },
{
    assert(s.push(x).drop_last() == s);
}

proof fn lemma_pending_bound(s: Seq<usize>, em: Seq<bool>)
    ensures
        pending(s, em) <= s.len(),
    decreases s.len(),
{
    if s.len() > 0 {
        lemma_pending_bound(s.drop_last(), em);
    }
}

/// Marking `d` emitted lowers the pending count by the entries naming `d`.
proof fn lemma_pending_emit(s: Seq<usize>, em: Seq<bool>, d: usize)
    requires
        0 <= d < em.len(),
        !em[d as int],
        forall|p: int| 0 <= p < s.len() ==> (#[trigger] s[p]) < em.len(),
    ensures
        pending(s, em) == pending(s, em.update(d as int, true)) + count(s, d),
    decreases s.len(),
{
    if s.len() > 0 {
        let t = s.drop_last();
        assert forall|p: int| 0 <= p < t.len() implies (#[trigger] t[p]) < em.len() by {
            assert(t[p] == s[p]);
        }
        lemma_pending_emit(t, em, d);
    }
}

/// A zero pending count means every entry is emitted.
proof fn lemma_pending_zero(s: Seq<usize>, em: Seq<bool>, p: int)
    requires
        pending(s, em) == 0,
        0 <= p < s.len(),
    ensures
        em[s[p] as int],
    decreases s.len(),
{
    if p < s.len() - 1 {
        lemma_pending_zero(s.drop_last(), em, p);
        assert(s.drop_last()[p] == s[p]);
    }
}

/// A positive pending count means some entry is not emitted.
proof fn lemma_pending_pos(s: Seq<usize>, em: Seq<bool>) -> (p: int)
    requires
        pending(s, em) > 0,
    ensures
        0 <= p < s.len(),
        !em[s[p] as int],
    decreases s.len(),
{
    if em[s.last() as int] {
        let q = lemma_pending_pos(s.drop_last(), em);
        assert(s.drop_last()[q] == s[q]);
        q
    } else {
        s.len() - 1
    }
}

proof fn lemma_count_pos(s: Seq<usize>, x: usize, q: int)
    requires
        0 <= q < s.len(),
        s[q] == x,
    ensures
        count(s, x) >= 1,
        count(s, x) >= count(s.take(q), x) + 1,
    decreases s.len(),
{
    if q < s.len() - 1 {
        lemma_count_pos(s.drop_last(), x, q);
        assert(s.drop_last()[q] == s[q]);
        assert(s.drop_last().take(q) == s.take(q));
    } else {
        assert(s.drop_last() == s.take(q));
    }
}

proof fn lemma_count_take_step(s: Seq<usize>, q: int, x: usize)
    requires
        0 <= q < s.len(),
    ensures
        count(s.take(q + 1), x) == count(s.take(q), x) + if s[q] == x { 1nat } else { 0nat },
{
    assert(s.take(q + 1).drop_last() == s.take(q));
}

proof fn lemma_count_take_all(s: Seq<usize>, x: usize)
    ensures
        count(s.take(s.len() as int), x) == count(s, x),
{
    assert(s.take(s.len() as int) == s);
}

/// No order exists when a non-empty set of nodes each depends on a member.
proof fn lemma_stuck_unorderable(deps: Seq<Seq<usize>>, em: Seq<bool>, r: usize)
    requires
        em.len() == deps.len(),
        r < deps.len(),
        !em[r as int],
        forall|k: int|
            0 <= k < deps.len() && !em[k] ==> exists|p: int|
                0 <= p < deps[k].len() && !em[#[trigger] deps[k][p] as int],
    ensures
        !orderable(deps),
{
    if orderable(deps) {
        let order = choose|order: Seq<usize>| valid_order(deps, order);
        assert(occurs(order, r));
        let ir = choose|i: int| 0 <= i < order.len() && order[i] == r;
        let i0 = lemma_first_stuck(em, order, ir);
        let k = order[i0] as int;
        let p = choose|p: int| 0 <= p < deps[k].len() && !em[#[trigger] deps[k][p] as int];
        assert(before(order, i0, deps[order[i0] as int][p]));
        let j = choose|j: int| 0 <= j < i0 && order[j] == deps[order[i0] as int][p];
        assert(!em[order[j] as int]);
    }
}

/// The first position of `order` holding a node that is not emitted.
proof fn lemma_first_stuck(em: Seq<bool>, order: Seq<usize>, i: int) -> (f: int)
    requires
        0 <= i < order.len(),
        forall|k: int| 0 <= k < order.len() ==> (#[trigger] order[k]) < em.len(),
        !em[order[i] as int],
    ensures
        0 <= f <= i,
        !em[order[f] as int],
        forall|j: int| 0 <= j < f ==> em[#[trigger] order[j] as int],
    decreases i,
{
    if exists|j: int| 0 <= j < i && !em[#[trigger] order[j] as int] {
        let j = choose|j: int| 0 <= j < i && !em[#[trigger] order[j] as int];
        lemma_first_stuck(em, order, j)
    } else {
        i
    }
}

/// Number of nodes marked.
pub open spec fn num_true(em: Seq<bool>) -> nat
    decreases em.len(),
{
    if em.len() == 0 {
        0
    } else {
        num_true(em.drop_last()) + if em.last() { 1nat } else { 0nat }
    }
}

proof fn lemma_num_true_update(em: Seq<bool>, d: int)
    requires
        0 <= d < em.len(),
        !em[d],
    ensures
        num_true(em.update(d, true)) == num_true(em) + 1,
    decreases em.len(),
{
    let e2 = em.update(d, true);
    if d < em.len() - 1 {
        assert(e2.drop_last() == em.drop_last().update(d, true));
        lemma_num_true_update(em.drop_last(), d);
    } else {
        assert(e2.drop_last() == em.drop_last());
    }
}

proof fn lemma_num_true_bound(em: Seq<bool>)
    ensures
        num_true(em) <= em.len(),
    decreases em.len(),
{
    if em.len() > 0 {
        lemma_num_true_bound(em.drop_last());
    }
}

proof fn lemma_num_true_full(em: Seq<bool>, k: int)
    requires
        num_true(em) == em.len(),
        0 <= k < em.len(),
    ensures
        em[k],
    decreases em.len(),
{
    lemma_num_true_bound(em.drop_last());
    if k < em.len() - 1 {
        lemma_num_true_full(em.drop_last(), k);
        assert(em.drop_last()[k] == em[k]);
    }
}

proof fn lemma_num_true_gap(em: Seq<bool>) -> (k: int)
    requires
        num_true(em) < em.len(),
    ensures
        0 <= k < em.len(),
        !em[k],
    decreases em.len(),
{
    if em.last() {
        let k = lemma_num_true_gap(em.drop_last());
        assert(em.drop_last()[k] == em[k]);
        k
    } else {
        em.len() - 1
    }
}

/// `order` lists distinct nodes, each after all of its dependencies.
pub open spec fn valid_prefix(deps: Seq<Seq<usize>>, order: Seq<usize>) -> bool {
    &&& forall|i: int| 0 <= i < order.len() ==> (#[trigger] order[i]) < deps.len()
    &&& forall|i: int, j: int| 0 <= i < j < order.len() ==> order[i] != order[j]
    &&& forall|i: int, p: int|
        0 <= i < order.len() && 0 <= p < deps[order[i] as int].len() ==> #[trigger] before(
            order,
            i,
            deps[order[i] as int][p],
        )
}

/// Every node that `order` leaves out depends on a node it leaves out.
pub open spec fn rest_blocked(deps: Seq<Seq<usize>>, order: Seq<usize>) -> bool {
    forall|k: usize|
        k < deps.len() && !occurs(order, k) ==> exists|p: int|
            0 <= p < deps[k as int].len() && !occurs(order, #[trigger] deps[k as int][p])
}

/// A list of fewer than `n` nodes leaves out some node below `n`.
pub proof fn lemma_missing_node(order: Seq<usize>, n: usize) -> (x: usize)
    requires
        order.len() < n,
    ensures
        x < n,
        !occurs(order, x),
{
    let s = order.map_values(|v: usize| v as int);
    if forall|x: usize| x < n ==> occurs(order, x) {
        assert forall|i: int| #[trigger] set_int_range(0, n as int).contains(i) implies s.to_set().contains(i) by {
            assert(occurs(order, i as usize));
            let q = choose|q: int| 0 <= q < order.len() && order[q] == i as usize;
            assert(s[q] == i);
        }
        lemma_int_range(0, n as int);
        s.lemma_cardinality_of_set();
        lemma_len_subset(set_int_range(0, n as int), s.to_set());
        assert(false);
    }
    choose|x: usize| x < n && !occurs(order, x)
}

pub open spec fn views(deps: Seq<Vec<usize>>) -> Seq<Seq<usize>> {
    deps.map_values(|v: Vec<usize>| v@)
}

/// Orders the nodes by Kahn's algorithm: nodes without pending dependencies
/// are taken first-in first-out. The result lists the nodes that could be
/// ordered; it lists all nodes exactly when some order of all of them exists,
/// and every node it leaves out depends on another node it leaves out.
pub fn topo_order(deps: &Vec<Vec<usize>>) -> (order: Vec<usize>)
    requires
        graph_ok(views(deps@)),
    ensures
        valid_prefix(views(deps@), order@),
        order@.len() <= deps@.len(),
        (order@.len() == deps@.len()) == orderable(views(deps@)),
        order@.len() == deps@.len() ==> valid_order(views(deps@), order@),
        rest_blocked(views(deps@), order@),
{
    let ghost g = views(deps@);
    let n = deps.len();
    assert(g.len() == n);
    assert forall|k: int| 0 <= k < n implies #[trigger] g[k] == deps@[k]@ by {}
    // reverse edges: rev[d] names k once for each time deps[k] names d
    let mut rev: Vec<Vec<usize>> = Vec::new();
    let mut i: usize = 0;
    while i < n
        invariant
            i <= n,
            rev@.len() == i,
            forall|d: int| 0 <= d < i ==> (#[trigger] rev@[d])@ == Seq::<usize>::empty(),
        decreases n - i,
    {
        rev.push(Vec::new());
        i = i + 1;
    }
    let mut k: usize = 0;
    while k < n
        invariant
            k <= n,
            n == deps@.len(),
            g == views(deps@),
            graph_ok(g),
            forall|kk: int| 0 <= kk < n ==> #[trigger] g[kk] == deps@[kk]@,
            rev@.len() == n,
            forall|d: int, q: int| 0 <= d < n && 0 <= q < rev@[d]@.len() ==> (#[trigger] rev@[d]@[q]) < k,
            forall|d: usize, x: usize|
                d < n && x < n ==> #[trigger] count(rev@[d as int]@, x) == if x < k {
                    count(g[x as int], d)
                } else {
                    0
                },
        decreases n - k,
    {
        let mut p: usize = 0;
        let dk = &deps[k];
        while p < dk.len()
            invariant
                k < n,
                n == deps@.len(),
                g == views(deps@),
                graph_ok(g),
                forall|kk: int| 0 <= kk < n ==> #[trigger] g[kk] == deps@[kk]@,
                *dk == deps@[k as int],
                p <= dk@.len(),
                rev@.len() == n,
                forall|d: int, q: int| 0 <= d < n && 0 <= q < rev@[d]@.len() ==> (#[trigger] rev@[d]@[q]) <= k,
                forall|d: usize, x: usize|
                    d < n && x < n ==> #[trigger] count(rev@[d as int]@, x) == if x < k {
                        count(g[x as int], d)
                    } else if x == k {
                        count(dk@.take(p as int), d)
                    } else {
                        0
                    },
            decreases dk@.len() - p,
        {
            let d = dk[p];
            assert(d < n) by {
                assert(g[k as int][p as int] == d);
            }
            let ghost old_rev = rev@;
            let mut entry = Vec::new();
            std::mem::swap(&mut entry, &mut rev[d]);
            entry.push(k);
            rev.set(d, entry);
            proof {
                assert forall|dd: usize, x: usize| dd < n && x < n implies #[trigger] count(rev@[dd as int]@, x) == if x < k {
                        count(g[x as int], dd)
                    } else if x == k {
                        count(dk@.take(p + 1), dd)
                    } else {
                        0
                    } by {
                    lemma_count_take_step(dk@, p as int, dd);
                    if dd == d {
                        lemma_count_push(old_rev[d as int]@, k, x);
                    } else {
                        assert(rev@[dd as int] == old_rev[dd as int]);
                    }
                }
                assert forall|dd: int, q: int| 0 <= dd < n && 0 <= q < rev@[dd]@.len() implies (#[trigger] rev@[dd]@[q]) <= k by {
                    if dd == d as int && q == old_rev[dd]@.len() {
                    } else if dd == d as int {
                        assert(rev@[dd]@[q] == old_rev[dd]@[q]);
                    }
                }
            }
            p = p + 1;
        }
        proof {
            assert(dk@.take(dk@.len() as int) == dk@);
        }
        k = k + 1;
    }
    // pending dependency counts
    let mut indeg: Vec<usize> = Vec::new();
    let mut queue: Vec<usize> = Vec::new();
    let ghost mut em: Seq<bool> = Seq::new(n as nat, |i: int| false);
    proof {
        assert forall|x: int| 0 <= x < n implies pending(#[trigger] g[x], em) == g[x].len() by {
            lemma_pending_none(g[x], em);
        }
    }
    let mut i: usize = 0;
    while i < n
        invariant
            i <= n,
            n == deps@.len(),
            g == views(deps@),
            forall|kk: int| 0 <= kk < n ==> #[trigger] g[kk] == deps@[kk]@,
            em == Seq::new(n as nat, |i: int| false),
            indeg@.len() == i,
            forall|x: int| 0 <= x < i ==> #[trigger] indeg@[x] == pending(g[x], em),
            forall|q: int| 0 <= q < queue@.len() ==> (#[trigger] queue@[q]) < i,
            forall|a: int, b: int| 0 <= a < b < queue@.len() ==> queue@[a] != queue@[b],
            forall|x: usize| x < i ==> (#[trigger] occurs(queue@, x) <==> indeg@[x as int] == 0),
            forall|x: int| 0 <= x < n ==> pending(#[trigger] g[x], em) == g[x].len(),
            forall|q: int| 0 <= q < queue@.len() ==> g[(#[trigger] queue@[q]) as int].len() == 0,
        decreases n - i,
    {
        let c = deps[i].len();
        indeg.push(c);
        if c == 0 {
            let ghost oq = queue@;
            queue.push(i);
            proof {
                assert forall|x: usize| x < i + 1 implies (#[trigger] occurs(queue@, x) <==> indeg@[x as int] == 0) by {
                    if x < i {
                        if occurs(oq, x) {
                            let w = choose|w: int| 0 <= w < oq.len() && oq[w] == x;
                            assert(queue@[w] == x);
                        }
                        if occurs(queue@, x) {
                            let w = choose|w: int| 0 <= w < queue@.len() && queue@[w] == x;
                            assert(w < oq.len());
                            assert(oq[w] == x);
                        }
                    } else {
                        assert(queue@[oq.len() as int] == i);
                    }
                }
            }
        } else {
            proof {
                assert forall|x: usize| x < i + 1 implies (#[trigger] occurs(queue@, x) <==> indeg@[x as int] == 0) by {
                    if x == i {
                        if occurs(queue@, x) {
                            let w = choose|w: int| 0 <= w < queue@.len() && queue@[w] == x;
                        }
                    }
                }
            }
        }
        i = i + 1;
    }
    proof {
        lemma_num_true_none(em);
    }
    let mut h: usize = 0;
    while h < queue.len()
        invariant
            h <= n,
            n == deps@.len(),
            g == views(deps@),
            graph_ok(g),
            forall|kk: int| 0 <= kk < n ==> #[trigger] g[kk] == deps@[kk]@,
            rev@.len() == n,
            forall|d: int, q: int| 0 <= d < n && 0 <= q < rev@[d]@.len() ==> (#[trigger] rev@[d]@[q]) < n,
            forall|d: usize, x: usize|
                d < n && x < n ==> #[trigger] count(rev@[d as int]@, x) == count(g[x as int], d),
            indeg@.len() == n,
            em.len() == n,
            h <= queue@.len(),
            forall|q: int| 0 <= q < queue@.len() ==> (#[trigger] queue@[q]) < n,
            forall|a: int, b: int| 0 <= a < b < queue@.len() ==> queue@[a] != queue@[b],
            forall|x: usize| x < n ==> (#[trigger] em[x as int] <==> occurs(queue@.take(h as int), x)),
            forall|x: usize| x < n ==> (#[trigger] occurs(queue@, x) <==> indeg@[x as int] == 0),
            forall|x: int| 0 <= x < n ==> #[trigger] indeg@[x] == pending(g[x], em),
            num_true(em) == h,
            valid_prefix(g, queue@),
        decreases n - h,
    {
        let d = queue[h];
        proof {
            assert(!em[d as int]) by {
                let t0 = queue@.take(h as int);
                if occurs(t0, d) {
                    let w = choose|w: int| 0 <= w < t0.len() && t0[w] == d;
                    assert(queue@[w] == queue@[h as int]);
                }
            }
            lemma_num_true_update(em, d as int);
            assert forall|x: int| 0 <= x < n implies pending(#[trigger] g[x], em) == pending(g[x], em.update(d as int, true)) + count(g[x], d) by {
                assert forall|p: int| 0 <= p < g[x].len() implies (#[trigger] g[x][p]) < em.len() by {}
                lemma_pending_emit(g[x], em, d);
            }
            em = em.update(d as int, true);
            assert forall|x: usize| x < n implies (#[trigger] em[x as int] <==> occurs(queue@.take(h + 1), x)) by {
                let t0 = queue@.take(h as int);
                let t1 = queue@.take(h + 1);
                assert(t1 == t0.push(d));
                if occurs(t0, x) {
                    let w = choose|w: int| 0 <= w < t0.len() && t0[w] == x;
                    assert(t1[w] == x);
                }
                if occurs(t1, x) {
                    let w = choose|w: int| 0 <= w < t1.len() && t1[w] == x;
                    if w < h {
                        assert(t0[w] == x);
                    }
                }
                if x == d {
                    assert(t1[h as int] == d);
                }
            }
        }
        proof {
            lemma_num_true_bound(em);
        }
        h = h + 1;
        let rd = &rev[d];
        let mut q: usize = 0;
        while q < rd.len()
            invariant
                n == deps@.len(),
                g == views(deps@),
                graph_ok(g),
                d < n,
                *rd == rev@[d as int],
                forall|qq: int| 0 <= qq < rd@.len() ==> (#[trigger] rd@[qq]) < n,
                forall|x: usize| x < n ==> #[trigger] count(rd@, x) == count(g[x as int], d),
                indeg@.len() == n,
                em.len() == n,
                em[d as int],
                1 <= h <= queue@.len(),
                forall|qq: int| 0 <= qq < queue@.len() ==> (#[trigger] queue@[qq]) < n,
                forall|a: int, b: int| 0 <= a < b < queue@.len() ==> queue@[a] != queue@[b],
                forall|x: usize| x < n ==> (#[trigger] em[x as int] <==> occurs(queue@.take(h as int), x)),
                forall|x: usize| x < n ==> (#[trigger] occurs(queue@, x) <==> indeg@[x as int] == 0),
                forall|x: int| 0 <= x < n ==> #[trigger] indeg@[x] + count(rd@.take(q as int), x as usize) == pending(g[x], em) + count(rd@, x as usize),
                q <= rd@.len(),
                valid_prefix(g, queue@),
            decreases rd@.len() - q,
        {
            let x = rd[q];
            proof {
                lemma_count_pos(rd@, x, q as int);
                lemma_count_take_step(rd@, q as int, x);
                assert forall|y: int| 0 <= y < n && y != x implies #[trigger] count(rd@.take(q + 1), y as usize) == count(rd@.take(q as int), y as usize) by {
                    lemma_count_take_step(rd@, q as int, y as usize);
                }
                lemma_count_pos_le(rd@, x, q as int);
            }
            let cur = indeg[x];
            indeg.set(x, cur - 1);
            if cur - 1 == 0 {
                let ghost oq = queue@;
                assert(valid_prefix(g, oq));
                queue.push(x);
                proof {
                    // x was not queued: its pending count was positive
                    assert(!occurs(oq, x));
                    assert forall|a: int, b: int| 0 <= a < b < queue@.len() implies queue@[a] != queue@[b] by {
                        if b == oq.len() {
                            if queue@[a] == x {
                                assert(oq[a] == x);
                            }
                        } else {
                            assert(queue@[a] == oq[a] && queue@[b] == oq[b]);
                        }
                    }
                    assert(queue@.take(h as int) == oq.take(h as int));
                    assert forall|y: usize| y < n implies (#[trigger] occurs(queue@, y) <==> indeg@[y as int] == 0) by {
                        if occurs(oq, y) {
                            let w = choose|w: int| 0 <= w < oq.len() && oq[w] == y;
                            assert(queue@[w] == y);
                        }
                        if occurs(queue@, y) && y != x {
                            let w = choose|w: int| 0 <= w < queue@.len() && queue@[w] == y;
                            assert(oq[w] == y);
                        }
                        if y == x {
                            assert(queue@[oq.len() as int] == x);
                        }
                    }
                    // every dependency of x is emitted, so it sits before x
                    assert(pending(g[x as int], em) == 0);
                    assert forall|p: int| 0 <= p < g[x as int].len() implies #[trigger] occurs(oq, g[x as int][p]) by {
                        lemma_pending_zero(g[x as int], em, p);
                        let e = g[x as int][p];
                        assert(e < n);
                        let t0 = oq.take(h as int);
                        assert(occurs(t0, e));
                        let j = choose|j: int| 0 <= j < t0.len() && t0[j] == e;
                        assert(oq[j] == e);
                    }
                    lemma_valid_prefix_push(g, oq, x);
                    assert(queue@ == oq.push(x));
                    assert(valid_prefix(g, queue@));
                }
            } else {
                proof {
                    assert forall|y: usize| y < n implies (#[trigger] occurs(queue@, y) <==> indeg@[y as int] == 0) by {
                        if y == x && occurs(queue@, y) {
                            assert(indeg@[y as int] == 0);
                        }
                    }
                }
            }
            q = q + 1;
        }
        proof {
            lemma_count_take_all(rd@, 0);
            assert(rd@.take(rd@.len() as int) == rd@);
        }
    }
    proof {
        lemma_num_true_bound(em);
        if h == n {
            assert forall|x: usize| x < n implies #[trigger] occurs(queue@, x) by {
                lemma_num_true_full(em, x as int);
                let t0 = queue@.take(h as int);
                let w = choose|w: int| 0 <= w < t0.len() && t0[w] == x;
                assert(queue@[w] == x);
            }
            assert(valid_order(g, queue@));
        } else {
            let r = lemma_num_true_gap(em);
            assert forall|k: int| 0 <= k < g.len() && !em[k] implies exists|p: int|
                0 <= p < g[k].len() && !em[#[trigger] g[k][p] as int] by {
                assert(!occurs(queue@, k as usize)) by {
                    if occurs(queue@, k as usize) {
                        let w = choose|w: int| 0 <= w < queue@.len() && queue@[w] == k as usize;
                        let t0 = queue@.take(h as int);
                        assert(t0[w] == k as usize);
                    }
                }
                assert(pending(g[k], em) > 0);
                let p = lemma_pending_pos(g[k], em);
            }
            lemma_stuck_unorderable(g, em, r as usize);
        }
        assert forall|k: usize| k < n && !occurs(queue@, k) implies exists|p: int|
            0 <= p < g[k as int].len() && !occurs(queue@, #[trigger] g[k as int][p]) by {
            assert(!em[k as int]) by {
                assert(queue@.take(h as int) == queue@);
            }
            assert(pending(g[k as int], em) > 0);
            let p = lemma_pending_pos(g[k as int], em);
            let e = g[k as int][p];
            assert(queue@.take(h as int) == queue@);
            assert(!occurs(queue@, e));
        }
    }
    queue
}

proof fn lemma_prefix_dep(g: Seq<Seq<usize>>, order: Seq<usize>, i: int, p: int) -> (j: int)
    requires
        valid_prefix(g, order),
        0 <= i < order.len(),
        0 <= p < g[order[i] as int].len(),
    ensures
        0 <= j < i,
        order[j] == g[order[i] as int][p],
{
    assert(before(order, i, g[order[i] as int][p]));
    choose|j: int| 0 <= j < i && order[j] == g[order[i] as int][p]
}

proof fn lemma_valid_prefix_push(g: Seq<Seq<usize>>, order: Seq<usize>, x: usize)
    requires
        valid_prefix(g, order),
        x < g.len(),
        !occurs(order, x),
        forall|p: int| 0 <= p < g[x as int].len() ==> #[trigger] occurs(order, g[x as int][p]),
    ensures
        valid_prefix(g, order.push(x)),
{
    let o2 = order.push(x);
    assert forall|i: int, j: int| 0 <= i < j < o2.len() implies o2[i] != o2[j] by {
        if j == order.len() {
            if o2[i] == x {
                assert(order[i] == x);
            }
        } else {
            assert(o2[i] == order[i] && o2[j] == order[j]);
        }
    }
    assert forall|i: int, p: int|
        0 <= i < o2.len() && 0 <= p < g[o2[i] as int].len() implies #[trigger] before(
            o2,
            i,
            g[o2[i] as int][p],
        ) by {
        if i < order.len() {
            assert(o2[i] == order[i]);
            let j = lemma_prefix_dep(g, order, i, p);
            assert(o2[j] == order[j]);
        } else {
            assert(o2[i] == x);
            assert(occurs(order, g[x as int][p]));
            let j = choose|j: int| 0 <= j < order.len() && order[j] == g[x as int][p];
            assert(o2[j] == order[j]);
        }
    }
    assert forall|i: int| 0 <= i < o2.len() implies (#[trigger] o2[i]) < g.len() by {
        if i < order.len() {
            assert(o2[i] == order[i]);
        }
    }
}

proof fn lemma_num_true_none(em: Seq<bool>)
    requires
        forall|i: int| 0 <= i < em.len() ==> !em[i],
    ensures
        num_true(em) == 0,
    decreases em.len(),
{
    if em.len() > 0 {
        lemma_num_true_none(em.drop_last());
    }
}

proof fn lemma_pending_none(s: Seq<usize>, em: Seq<bool>)
    requires
        forall|i: int| 0 <= i < em.len() ==> !em[i],
        forall|p: int| 0 <= p < s.len() ==> (#[trigger] s[p]) < em.len(),
    ensures
        pending(s, em) == s.len(),
    decreases s.len(),
{
    if s.len() > 0 {
        let t = s.drop_last();
        assert forall|p: int| 0 <= p < t.len() implies (#[trigger] t[p]) < em.len() by {
            assert(t[p] == s[p]);
        }
        lemma_pending_none(t, em);
    }
}

proof fn lemma_count_pos_le(s: Seq<usize>, x: usize, q: int)
    requires
        0 <= q < s.len(),
        s[q] == x,
    ensures
        count(s.take(q), x) + 1 <= count(s, x),
{
    lemma_count_pos(s, x, q);
}

} // verus!
