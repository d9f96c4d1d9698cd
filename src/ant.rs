use vstd::prelude::*;

verus! {

/// The nodes below `n` that `not_visited` marks, in increasing order.
pub open spec fn unvisited_prefix(not_visited: Seq<bool>, n: int) -> Seq<u32>
    decreases n,
{
    if n <= 0 {
        seq![]
    } else if not_visited[n - 1] {
        unvisited_prefix(not_visited, n - 1).push((n - 1) as u32)
    } else {
        unvisited_prefix(not_visited, n - 1)
    }
}

proof fn lemma_unvisited_members(nv: Seq<bool>, n: int)
    requires
        0 <= n <= nv.len(),
        n <= u32::MAX + 1,
    ensures
        forall|p: int|
            0 <= p < unvisited_prefix(nv, n).len() ==> {
                let x = #[trigger] unvisited_prefix(nv, n)[p];
                x < n && nv[x as int]
            },
        forall|p: int, q: int|
            0 <= p < q < unvisited_prefix(nv, n).len() ==> #[trigger] unvisited_prefix(nv, n)[p]
                < #[trigger] unvisited_prefix(nv, n)[q],
        forall|k: int| 0 <= k < n && nv[k] ==> #[trigger] unvisited_prefix(nv, n).contains(k as u32),
    decreases n,
{
    if n > 0 {
        lemma_unvisited_members(nv, n - 1);
        let prev = unvisited_prefix(nv, n - 1);
        if nv[n - 1] {
            let cur = prev.push((n - 1) as u32);
            assert forall|k: int| 0 <= k < n && nv[k] implies #[trigger] cur.contains(k as u32) by {
                if k < n - 1 {
                    assert(prev.contains(k as u32));
                    let p = choose|p: int| 0 <= p < prev.len() && prev[p] == k as u32;
                    assert(cur[p] == k as u32);
                } else {
                    assert(cur[prev.len() as int] == k as u32);
                }
            }
        } else {
            assert forall|k: int| 0 <= k < n && nv[k] implies #[trigger] prev.contains(k as u32) by {
                assert(k < n - 1);
                assert(unvisited_prefix(nv, n - 1).contains(k as u32));
            }
        }
    }
}

proof fn lemma_unvisited_clear(nv: Seq<bool>, c: int, n: int)
    requires
        0 <= c < nv.len(),
        nv[c],
        0 <= n <= nv.len(),
    ensures
        n <= c ==> unvisited_prefix(nv.update(c, false), n) == unvisited_prefix(nv, n),
        n > c ==> unvisited_prefix(nv.update(c, false), n).len() + 1 == unvisited_prefix(nv, n).len(),
    decreases n,
{
    if n > 0 {
        lemma_unvisited_clear(nv, c, n - 1);
    }
}

/// One ant's walk through the nodes: the tour so far, which starts at `source` and
/// ends at `current`, and the nodes that it has not reached yet.
#[derive(Clone, Debug)]
pub struct AntTour {
    size: u32,
    source: u32,
    current: u32,
    not_visited: Vec<bool>,
    left: u32,
    cycle: Vec<u32>,
}

impl AntTour {
    /// The tour holds distinct nodes below the size, starting at the source and ending
    /// at the current node; exactly the nodes off the tour are marked unvisited.
    pub closed spec fn wf(&self) -> bool {
        &&& self.not_visited@.len() == self.size
        &&& self.cycle@.len() >= 1
        &&& self.cycle@[0] == self.source
        &&& self.cycle@.last() == self.current
        &&& forall|p: int| 0 <= p < self.cycle@.len() ==> #[trigger] self.cycle@[p] < self.size
        &&& forall|p: int, q: int|
            0 <= p < q < self.cycle@.len() ==> #[trigger] self.cycle@[p] != #[trigger] self.cycle@[q]
        &&& forall|k: int|
            0 <= k < self.size ==> (#[trigger] self.not_visited@[k] <==> !self.cycle@.contains(
                k as u32,
            ))
        &&& self.left == self.unvisited().len()
        &&& self.cycle@.len() + self.left == self.size
    }

    pub closed spec fn spec_size(&self) -> nat {
        self.size as nat
    }

    /// The tour so far.
    pub closed spec fn tour(&self) -> Seq<u32> {
        self.cycle@
    }

    /// The nodes not reached yet, in increasing order.
    pub closed spec fn unvisited(&self) -> Seq<u32> {
        unvisited_prefix(self.not_visited@, self.size as int)
    }

    /// A walk over `size` nodes that stands at `source`.
    pub fn start(size: u32, source: u32) -> (r: Self)
        requires
            source < size,
        ensures
            r.wf(),
            r.spec_size() == size,
            r.tour() == seq![source],
            r.unvisited().len() + 1 == size,
    {
        let mut not_visited: Vec<bool> = Vec::new();
        let mut k: u32 = 0;
        while k < size
            invariant
                k <= size,
                not_visited@.len() == k,
                forall|p: int| 0 <= p < k ==> #[trigger] not_visited@[p] == (p != source),
            decreases size - k,
        {
            not_visited.push(k != source);
            k += 1;
        }
        let ghost full = Seq::new(size as nat, |p: int| true);
        proof {
            assert(not_visited@ =~= full.update(source as int, false));
            lemma_unvisited_clear(full, source as int, size as int);
            lemma_unvisited_all(full, size as int);
        }
        let mut cycle: Vec<u32> = Vec::new();
        cycle.push(source);
        let r = AntTour { size, source, current: source, not_visited, left: size - 1, cycle };
        proof {
            assert forall|k: int| 0 <= k < size implies (#[trigger] r.not_visited@[k]
                <==> !r.cycle@.contains(k as u32)) by {
                if k == source {
                    assert(r.cycle@[0] == source);
                } else {
                    assert(!r.cycle@.contains(k as u32)) by {
                        if r.cycle@.contains(k as u32) {
                            let p = choose|p: int| 0 <= p < r.cycle@.len() && r.cycle@[p] == k as u32;
                            assert(r.cycle@[p] == source);
                        }
                    }
                }
            }
        }
        r
    }

    /// Starts the walk over again from `source`, keeping the buffers.
    pub fn restart(&mut self, source: u32)
        requires
            old(self).wf(),
            source < old(self).spec_size(),
        ensures
            final(self).wf(),
            final(self).spec_size() == old(self).spec_size(),
            final(self).tour() == seq![source],
            final(self).unvisited().len() + 1 == final(self).spec_size(),
    {
        let size = self.size;
        let mut k: u32 = 0;
        while k < size
            invariant
                size == self.size,
                k <= size,
                self.not_visited@.len() == size,
                forall|p: int| 0 <= p < k ==> #[trigger] self.not_visited@[p] == (p != source),
            decreases size - k,
        {
            self.not_visited.set(k as usize, k != source);
            k += 1;
        }
        let ghost full = Seq::new(size as nat, |p: int| true);
        proof {
            assert(self.not_visited@ =~= full.update(source as int, false));
            lemma_unvisited_clear(full, source as int, size as int);
            lemma_unvisited_all(full, size as int);
        }
        self.cycle.clear();
        self.cycle.push(source);
        self.source = source;
        self.current = source;
        self.left = size - 1;
        proof {
            assert forall|k: int| 0 <= k < size implies (#[trigger] self.not_visited@[k]
                <==> !self.cycle@.contains(k as u32)) by {
                if k == source {
                    assert(self.cycle@[0] == source);
                } else {
                    assert(!self.cycle@.contains(k as u32)) by {
                        if self.cycle@.contains(k as u32) {
                            let p = choose|p: int|
                                0 <= p < self.cycle@.len() && self.cycle@[p] == k as u32;
                            assert(self.cycle@[p] == source);
                        }
                    }
                }
            }
        }
    }

    /// The number of nodes.
    pub fn size(&self) -> (r: u32)
        ensures
            r == self.spec_size(),
    {
        self.size
    }

    /// The node where the tour started.
    pub fn source(&self) -> (r: u32)
        requires
            self.wf(),
        ensures
            r == self.tour()[0],
    {
        self.source
    }

    /// The node where the tour stands.
    pub fn current(&self) -> (r: u32)
        requires
            self.wf(),
        ensures
            r == self.tour().last(),
    {
        self.current
    }

    /// The number of nodes not reached yet.
    pub fn left(&self) -> (r: u32)
        requires
            self.wf(),
        ensures
            r == self.unvisited().len(),
    {
        self.left
    }

    /// True when every node is on the tour.
    pub fn is_complete(&self) -> (r: bool)
        requires
            self.wf(),
        ensures
            r == (self.unvisited().len() == 0),
    {
        self.left == 0
    }

    /// The tour so far.
    pub fn cycle(&self) -> (r: &[u32])
        requires
            self.wf(),
        ensures
            r@ == self.tour(),
    {
        self.cycle.as_slice()
    }

    /// The nodes not reached yet, in increasing order: the candidates for the next
    /// step.
    pub fn remaining(&self) -> (r: Vec<u32>)
        requires
            self.wf(),
        ensures
            r@ == self.unvisited(),
    {
        let mut r: Vec<u32> = Vec::new();
        let mut k: u32 = 0;
        while k < self.size
            invariant
                self.wf(),
                k <= self.size,
                r@ == unvisited_prefix(self.not_visited@, k as int),
            decreases self.size - k,
        {
            if self.not_visited[k as usize] {
                r.push(k);
            }
            k += 1;
        }
        r
    }

    /// Moves on to the `chosen`-th node not reached yet (counted in increasing
    /// order) and returns it.
    pub fn advance(&mut self, chosen: usize) -> (r: u32)
        requires
            old(self).wf(),
            chosen < old(self).unvisited().len(),
        ensures
            final(self).wf(),
            final(self).spec_size() == old(self).spec_size(),
            r == old(self).unvisited()[chosen as int],
            final(self).tour() == old(self).tour().push(r),
            final(self).unvisited().len() + 1 == old(self).unvisited().len(),
    {
        let remaining = self.remaining();
        let node = remaining[chosen];
        proof {
            lemma_unvisited_members(self.not_visited@, self.size as int);
            lemma_unvisited_clear(self.not_visited@, node as int, self.size as int);
        }
        let ghost old_cycle = self.cycle@;
        self.not_visited.set(node as usize, false);
        self.cycle.push(node);
        self.current = node;
        self.left = self.left - 1;
        proof {
            assert forall|k: int| 0 <= k < self.size implies (#[trigger] self.not_visited@[k]
                <==> !self.cycle@.contains(k as u32)) by {
                if k == node {
                    assert(self.cycle@[old_cycle.len() as int] == node);
                } else {
                    if self.cycle@.contains(k as u32) {
                        let p = choose|p: int| 0 <= p < self.cycle@.len() && self.cycle@[p] == k as u32;
                        assert(old_cycle[p] == k as u32);
                    }
                    if old_cycle.contains(k as u32) {
                        let p = choose|p: int| 0 <= p < old_cycle.len() && old_cycle[p] == k as u32;
                        assert(self.cycle@[p] == k as u32);
                    }
                }
            }
            assert forall|p: int, q: int| 0 <= p < q < self.cycle@.len() implies #[trigger] self.cycle@[p]
                != #[trigger] self.cycle@[q] by {
                if q == old_cycle.len() {
                    assert(old_cycle.contains(self.cycle@[p]));
                }
            }
        }
        node
    }
}

proof fn lemma_unvisited_all(nv: Seq<bool>, n: int)
    requires
        0 <= n <= nv.len(),
        forall|k: int| 0 <= k < nv.len() ==> nv[k],
    ensures
        unvisited_prefix(nv, n).len() == n,
    decreases n,
{
    if n > 0 {
        lemma_unvisited_all(nv, n - 1);
    }
}

/// The nodes not reached yet are, in increasing order, exactly the nodes below the
/// size that are not on the tour; with the tour they count the size.
pub proof fn lemma_unvisited_is_complement(t: &AntTour)
    requires
        t.wf(),
    ensures
        t.unvisited().len() + t.tour().len() == t.spec_size(),
        forall|k: u32| #[trigger] t.unvisited().contains(k) <==> (k < t.spec_size() && !t.tour().contains(k)),
        forall|p: int, q: int|
            0 <= p < q < t.unvisited().len() ==> #[trigger] t.unvisited()[p] < #[trigger] t.unvisited()[q],
{
    lemma_unvisited_members(t.not_visited@, t.size as int);
    assert forall|k: u32| #[trigger] t.unvisited().contains(k) <==> (k < t.spec_size() && !t.tour().contains(k)) by {
        if t.unvisited().contains(k) {
            let p = choose|p: int| 0 <= p < t.unvisited().len() && t.unvisited()[p] == k;
            assert(t.unvisited()[p] == k);
        }
        if k < t.spec_size() && !t.tour().contains(k) {
            assert(t.not_visited@[k as int]);
            assert(t.unvisited().contains((k as int) as u32));
        }
    }
}

/// A complete tour visits every node exactly once: it holds each node below the
/// size, and no node twice.
pub proof fn lemma_complete_tour_visits_each_once(t: &AntTour)
    requires
        t.wf(),
        t.unvisited().len() == 0,
    ensures
        t.tour().len() == t.spec_size(),
        forall|k: int| 0 <= k < t.spec_size() ==> #[trigger] t.tour().contains(k as u32),
        forall|p: int| 0 <= p < t.tour().len() ==> #[trigger] t.tour()[p] < t.spec_size(),
        forall|p: int, q: int|
            0 <= p < q < t.tour().len() ==> #[trigger] t.tour()[p] != #[trigger] t.tour()[q],
{
    lemma_unvisited_members(t.not_visited@, t.size as int);
    assert forall|k: int| 0 <= k < t.spec_size() implies #[trigger] t.tour().contains(k as u32) by {
        if !t.tour().contains(k as u32) {
            assert(t.not_visited@[k]);
            assert(t.unvisited().contains(k as u32));
        }
    }
}

} // verus!
