use crate::object::ObjectKind;
use crate::object_pool::ObjectPool;
use vstd::prelude::*;

verus! {

/// How many entries of `s` are `false`.
pub open spec fn count_false(s: Seq<bool>) -> nat
    decreases s.len(),
{
    if s.len() == 0 {
        0
    } else {
        count_false(s.drop_last()) + if s.last() {
            0nat
        } else {
            1nat
        }
    }
}

/// Setting one `false` entry to `true` leaves one `false` entry fewer.
proof fn lemma_count_false_update(s: Seq<bool>, i: int)
    requires
        0 <= i < s.len(),
        !s[i],
    ensures
        count_false(s.update(i, true)) + 1 == count_false(s),
    decreases s.len(),
{
    let t = s.update(i, true);
    if i == s.len() - 1 {
        assert(t.drop_last() =~= s.drop_last());
    } else {
        assert(t.drop_last() =~= s.drop_last().update(i, true));
        lemma_count_false_update(s.drop_last(), i);
    }
}

/// Every object on a trace after its first is marked, provided that the children
/// of every anchor and of every marked object are marked.
proof fn lemma_trace_marked(pool: ObjectPool, marked: Seq<bool>, p: Seq<usize>, i: int)
    requires
        marked.len() == pool@.len(),
        pool.is_trace(p),
        1 <= i < p.len(),
        p[i] < marked.len(),
        forall|j: usize, c: usize|
            pool.is_anchor(j) && #[trigger] pool.child_of(j, c) && c < marked.len() ==> marked[c as int],
        forall|m: usize, c: usize|
            m < marked.len() && marked[m as int] && #[trigger] pool.child_of(m, c) && c < marked.len()
                ==> marked[c as int],
    ensures
        marked[p[i] as int],
    decreases i,
{
    let k = i - 1;
    assert(pool.child_of(p[k], p[k + 1]));
    if i > 1 {
        let h = i - 2;
        assert(pool.child_of(p[h], p[h + 1]));
        lemma_trace_marked(pool, marked, p, i - 1);
    }
}

impl ObjectPool {
    /// For each identity, whether a trace from some static root or pinned object
    /// reaches it.
    pub fn reachable_marks(&self) -> (r: Vec<bool>)
        ensures
            r@.len() == self@.len(),
            forall|i: usize| i < self@.len() ==> (r@[i as int] <==> self.reachable(i)),
    {
        let n = self.len();
        let mut marked: Vec<bool> = Vec::new();
        let mut i: usize = 0;
        while i < n
            invariant
                i <= n,
                n == self@.len(),
                marked@ == Seq::new(i as nat, |j: int| false),
            decreases n - i,
        {
            marked.push(false);
            i = i + 1;
            proof {
                assert(marked@ =~= Seq::new(i as nat, |j: int| false));
            }
        }
        let mut order: Vec<usize> = Vec::new();
        let ghost mut paths: Map<usize, Seq<usize>> = Map::empty();
        // Mark the children of every static root and every pinned object.
        let mut j: usize = 0;
        while j < n
            invariant
                j <= n,
                n == self@.len(),
                marked@.len() == n,
                forall|m: int| 0 <= m < order@.len() ==> #[trigger] order@[m] < n && marked@[order@[m] as int],
                forall|c: usize| c < n && marked@[c as int] ==> order@.contains(c),
                order@.no_duplicates(),
                forall|c: usize|
                    c < n && #[trigger] marked@[c as int] ==> paths.contains_key(c) && self.is_trace(
                        paths[c],
                    ) && paths[c].last() == c,
                forall|r: usize, c: usize|
                    r < j && self.is_anchor(r) && #[trigger] self.child_of(r, c) && c < n
                        ==> marked@[c as int],
            decreases n - j,
        {
            if self.is_live_id(j) && (self.get(j).kind() == ObjectKind::Root
                || self.info(j).has_native_refs()) {
                let children = self.get(j).get_children();
                let mut ci: usize = 0;
                while ci < children.len()
                    invariant
                        j < n,
                        n == self@.len(),
                        self.is_anchor(j),
                        children@ == self.object_at(j).children(),
                        ci <= children@.len(),
                        marked@.len() == n,
                        forall|m: int|
                            0 <= m < order@.len() ==> #[trigger] order@[m] < n && marked@[order@[m] as int],
                        forall|c: usize| c < n && marked@[c as int] ==> order@.contains(c),
                        order@.no_duplicates(),
                        forall|c: usize|
                            c < n && #[trigger] marked@[c as int] ==> paths.contains_key(c)
                                && self.is_trace(paths[c]) && paths[c].last() == c,
                        forall|r: usize, c: usize|
                            r < j && self.is_anchor(r) && #[trigger] self.child_of(r, c) && c < n
                                ==> marked@[c as int],
                        forall|k: int| 0 <= k < ci && children@[k] < n ==> marked@[children@[k] as int],
                    decreases children@.len() - ci,
                {
                    let c = children[ci];
                    if c < n && !marked[c] {
                        proof {
                            let p = seq![j, c];
                            assert(self.child_of(j, c)) by {
                                assert(children@[ci as int] == c);
                            }
                            assert(self.is_trace(p));
                            paths = paths.insert(c, p);
                        }
                        let ghost old_order = order@;
                        marked.set(c, true);
                        order.push(c);
                        proof {
                            assert(order@[old_order.len() as int] == c);
                            assert forall|x: usize| x < n && marked@[x as int] implies order@.contains(x) by {
                                if x != c {
                                    let k = choose|k: int| 0 <= k < old_order.len() && old_order[k] == x;
                                    assert(order@[k] == x);
                                }
                            }
                        }
                    }
                    ci = ci + 1;
                }
                proof {
                    assert forall|r: usize, c: usize|
                        r < j + 1 && self.is_anchor(r) && #[trigger] self.child_of(r, c) && c < n
                            implies marked@[c as int] by {
                        if r == j {
                            let k = choose|k: int| 0 <= k < children@.len() && children@[k] == c;
                        }
                    }
                }
            }
            j = j + 1;
        }
        // Mark the children of every marked object, each object once.
        let mut k: usize = 0;
        while k < order.len()
            invariant
                n == self@.len(),
                marked@.len() == n,
                k <= order@.len(),
                forall|m: int| 0 <= m < order@.len() ==> #[trigger] order@[m] < n && marked@[order@[m] as int],
                forall|c: usize| c < n && marked@[c as int] ==> order@.contains(c),
                order@.no_duplicates(),
                forall|c: usize|
                    c < n && #[trigger] marked@[c as int] ==> paths.contains_key(c) && self.is_trace(
                        paths[c],
                    ) && paths[c].last() == c,
                forall|r: usize, c: usize|
                    self.is_anchor(r) && #[trigger] self.child_of(r, c) && c < n ==> marked@[c as int],
                forall|m: int, c: usize|
                    0 <= m < k && #[trigger] self.child_of(order@[m], c) && c < n ==> marked@[c as int],
            decreases 2 * count_false(marked@) + order@.len() - k,
        {
            let a = order[k];
            let ghost start = 2 * count_false(marked@) + order@.len();
            if self.is_live_id(a) {
                let children = self.get(a).get_children();
                let mut ci: usize = 0;
                while ci < children.len()
                    invariant
                        n == self@.len(),
                        marked@.len() == n,
                        k < order@.len(),
                        a == order@[k as int],
                        self.is_live(a),
                        children@ == self.object_at(a).children(),
                        ci <= children@.len(),
                        2 * count_false(marked@) + order@.len() <= start,
                        forall|m: int|
                            0 <= m < order@.len() ==> #[trigger] order@[m] < n && marked@[order@[m] as int],
                        forall|c: usize| c < n && marked@[c as int] ==> order@.contains(c),
                        order@.no_duplicates(),
                        forall|c: usize|
                            c < n && #[trigger] marked@[c as int] ==> paths.contains_key(c)
                                && self.is_trace(paths[c]) && paths[c].last() == c,
                        forall|r: usize, c: usize|
                            self.is_anchor(r) && #[trigger] self.child_of(r, c) && c < n ==> marked@[c as int],
                        forall|m: int, c: usize|
                            0 <= m < k && #[trigger] self.child_of(order@[m], c) && c < n ==> marked@[c as int],
                        forall|x: int| 0 <= x < ci && children@[x] < n ==> marked@[children@[x] as int],
                    decreases children@.len() - ci,
                {
                    let c = children[ci];
                    if c < n && !marked[c] {
                        proof {
                            assert(self.child_of(a, c)) by {
                                assert(children@[ci as int] == c);
                            }
                            let pa = paths[a];
                            let p = pa.push(c);
                            assert(self.is_trace(p)) by {
                                assert forall|i: int| 0 <= i < p.len() - 1 implies #[trigger] self.child_of(
                                    p[i],
                                    p[i + 1],
                                ) by {
                                    if i < pa.len() - 1 {
                                        assert(self.child_of(pa[i], pa[i + 1]));
                                    }
                                }
                            }
                            paths = paths.insert(c, p);
                            lemma_count_false_update(marked@, c as int);
                        }
                        let ghost old_order = order@;
                        marked.set(c, true);
                        order.push(c);
                        proof {
                            assert(order@[old_order.len() as int] == c);
                            assert forall|x: usize| x < n && marked@[x as int] implies order@.contains(x) by {
                                if x != c {
                                    let q = choose|q: int| 0 <= q < old_order.len() && old_order[q] == x;
                                    assert(order@[q] == x);
                                }
                            }
                        }
                    }
                    ci = ci + 1;
                }
                proof {
                    assert forall|m: int, c: usize|
                        0 <= m < k + 1 && #[trigger] self.child_of(order@[m], c) && c < n
                            implies marked@[c as int] by {
                        if m == k {
                            let x = choose|x: int| 0 <= x < children@.len() && children@[x] == c;
                        }
                    }
                }
            }
            k = k + 1;
        }
        proof {
            assert forall|m: usize, c: usize|
                m < marked@.len() && marked@[m as int] && #[trigger] self.child_of(m, c) && c < marked@.len()
                    implies marked@[c as int] by {
                let q = choose|q: int| 0 <= q < order@.len() && order@[q] == m;
                assert(self.child_of(order@[q], c));
            }
            assert forall|i: usize| i < self@.len() implies (marked@[i as int] <==> self.reachable(i)) by {
                if marked@[i as int] {
                    assert(self.is_trace(paths[i]) && paths[i].last() == i);
                }
                if self.reachable(i) {
                    let p = choose|p: Seq<usize>| self.is_trace(p) && p.last() == i;
                    lemma_trace_marked(*self, marked@, p, p.len() - 1);
                }
            }
        }
        marked
    }
}

} // verus!
