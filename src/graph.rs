use vstd::prelude::*;

verus! {

/// The number of unordered pairs of `n` distinct nodes.
pub open spec fn pair_count(n: int) -> int {
    n * (n - 1) / 2
}

/// Where the pair `{i, j}` (i ≠ j) lies in the flattened lower triangle.
pub open spec fn pos_spec(i: int, j: int) -> int {
    let (hi, lo) = if i > j {
        (i, j)
    } else {
        (j, i)
    };
    hi * (hi - 1) / 2 + lo
}

proof fn lemma_pos_bounds(hi: int, lo: int, n: int)
    requires
        0 <= lo < hi < n,
    ensures
        0 <= hi * (hi - 1) / 2,
        hi * (hi - 1) / 2 + lo < pair_count(n),
{
    assert(hi * (hi - 1) >= 0) by (nonlinear_arith)
        requires
            hi >= 1,
    ;
    assert(hi * (hi - 1) / 2 + hi == (hi + 1) * hi / 2) by (nonlinear_arith)
        requires
            hi >= 1,
    ;
    assert((hi + 1) * hi <= n * (n - 1)) by (nonlinear_arith)
        requires
            0 <= hi,
            hi + 1 <= n,
    ;
    assert((hi + 1) * hi / 2 <= n * (n - 1) / 2) by (nonlinear_arith)
        requires
            (hi + 1) * hi <= n * (n - 1),
    ;
}

proof fn lemma_pos_injective(i1: int, j1: int, i2: int, j2: int)
    requires
        0 <= j1 < i1,
        0 <= j2 < i2,
        i1 * (i1 - 1) / 2 + j1 == i2 * (i2 - 1) / 2 + j2,
    ensures
        i1 == i2 && j1 == j2,
{
    if i1 < i2 {
        assert(i1 * (i1 - 1) / 2 + i1 == (i1 + 1) * i1 / 2) by (nonlinear_arith)
            requires
                i1 >= 1,
        ;
        assert((i1 + 1) * i1 / 2 <= i2 * (i2 - 1) / 2) by (nonlinear_arith)
            requires
                i1 + 1 <= i2,
                i1 >= 1,
        ;
    } else if i2 < i1 {
        assert(i2 * (i2 - 1) / 2 + i2 == (i2 + 1) * i2 / 2) by (nonlinear_arith)
            requires
                i2 >= 1,
        ;
        assert((i2 + 1) * i2 / 2 <= i1 * (i1 - 1) / 2) by (nonlinear_arith)
            requires
                i2 + 1 <= i1,
                i2 >= 1,
        ;
    }
}

/// A symmetric relation over `size` nodes, one value per unordered pair of
/// distinct nodes, stored as a flattened lower triangle.
#[derive(Clone, Debug, PartialEq, PartialOrd)]
pub struct GraphIdx<T: Copy> {
    size: u32,
    edges: Vec<T>,
}

impl<T: Copy> GraphIdx<T> {
    /// The storage holds one value per pair, and its positions fit a `usize`.
    pub closed spec fn wf(&self) -> bool {
        &&& self.edges@.len() == pair_count(self.size as int)
        &&& pair_count(self.size as int) <= usize::MAX
    }

    pub closed spec fn spec_size(&self) -> nat {
        self.size as nat
    }

    /// The value of the pair `{i, j}` of distinct nodes.
    pub closed spec fn edge(&self, i: int, j: int) -> T {
        self.edges@[pos_spec(i, j)]
    }

    /// What `between` returns.
    pub open spec fn between_spec(&self, default: T, i: int, j: int) -> Option<T> {
        if i < 0 || j < 0 || i >= self.spec_size() || j >= self.spec_size() {
            None
        } else if i == j {
            Some(default)
        } else {
            Some(self.edge(i, j))
        }
    }

    /// The number of nodes.
    pub fn size(&self) -> (r: u32)
        ensures
            r == self.spec_size(),
    {
        self.size
    }

    /// The value of every pair, in storage order.
    pub fn edges(&self) -> (r: &[T])
        requires
            self.wf(),
        ensures
            r@.len() == pair_count(self.spec_size() as int),
            forall|i: int, j: int|
                0 <= j < i < self.spec_size() ==> r@[pos_spec(i, j)] == self.edge(i, j),
    {
        self.edges.as_slice()
    }

    fn pos(apt1: u32, apt2: u32, size: u32) -> (r: usize)
        requires
            apt1 != apt2,
            apt1 < size,
            apt2 < size,
            pair_count(size as int) <= usize::MAX,
        ensures
            r == pos_spec(apt1 as int, apt2 as int),
            r < pair_count(size as int),
    {
        let (hi, lo) = if apt1 > apt2 {
            (apt1 as u64, apt2 as u64)
        } else {
            (apt2 as u64, apt1 as u64)
        };
        proof {
            lemma_pos_bounds(hi as int, lo as int, size as int);
            assert(hi * (hi - 1) < 0x1_0000_0000_0000_0000) by (nonlinear_arith)
                requires
                    1 <= hi < 0x1_0000_0000,
            ;
        }
        (hi * (hi - 1) / 2 + lo) as usize
    }

    /// The value between two nodes: `default` for a node and itself, `None` for a
    /// node out of range.
    pub fn between(&self, default: T, apt1: u32, apt2: u32) -> (r: Option<T>)
        requires
            self.wf(),
        ensures
            r == self.between_spec(default, apt1 as int, apt2 as int),
    {
        if apt1 >= self.size || apt2 >= self.size {
            return None;
        }
        if apt1 == apt2 {
            return Some(default);
        }
        Some(self.edges[Self::pos(apt1, apt2, self.size)])
    }

    /// Replaces the value between two distinct nodes; `None`, and nothing changed,
    /// where they are equal or one is out of range.
    pub fn set(&mut self, apt1: u32, apt2: u32, val: T) -> (r: Option<()>)
        requires
            old(self).wf(),
        ensures
            final(self).wf(),
            r is Some <==> (apt1 != apt2 && apt1 < old(self).spec_size() && apt2 < old(
                self,
            ).spec_size()),
            final(self).spec_size() == old(self).spec_size(),
            forall|i: int, j: int|
                0 <= i < final(self).spec_size() && 0 <= j < final(self).spec_size() && i != j
                    ==> #[trigger] final(self).edge(i, j) == if r is Some && ((i == apt1 && j
                    == apt2) || (i == apt2 && j == apt1)) {
                    val
                } else {
                    old(self).edge(i, j)
                },
    {
        if apt1 >= self.size || apt2 >= self.size || apt1 == apt2 {
            return None;
        }
        let p = Self::pos(apt1, apt2, self.size);
        proof {
            assert forall|i: int, j: int|
                0 <= i < self.size && 0 <= j < self.size && i != j && pos_spec(i, j) == p implies (
                i == apt1 && j == apt2) || (i == apt2 && j == apt1) by {
                let (h1, l1) = if i > j {
                    (i, j)
                } else {
                    (j, i)
                };
                let (h2, l2) = if apt1 > apt2 {
                    (apt1 as int, apt2 as int)
                } else {
                    (apt2 as int, apt1 as int)
                };
                lemma_pos_injective(h1, l1, h2, l2);
            }
        }
        self.edges.set(p, val);
        proof {
            assert forall|i: int, j: int|
                0 <= i < self.size && 0 <= j < self.size && i != j implies #[trigger] self.edge(i, j)
                == if ((i == apt1 && j == apt2) || (i == apt2 && j == apt1)) {
                val
            } else {
                old(self).edge(i, j)
            } by {
                if i > j {
                    lemma_pos_bounds(i, j, self.size as int);
                } else {
                    lemma_pos_bounds(j, i, self.size as int);
                }
            }
        }
        Some(())
    }

    /// A mutable reference to the value between two distinct nodes; `None` where they
    /// are equal or one is out of range. What is written through it becomes the value
    /// of that pair, and of no other.
    pub fn between_mut(&mut self, apt1: u32, apt2: u32) -> (r: Option<&mut T>)
        requires
            old(self).wf(),
        ensures
            r is Some <==> (apt1 != apt2 && apt1 < old(self).spec_size() && apt2 < old(
                self,
            ).spec_size()),
            final(self).wf(),
            final(self).spec_size() == old(self).spec_size(),
            r is None ==> *final(self) == *old(self),
            r is Some ==> *r.unwrap() == old(self).edge(apt1 as int, apt2 as int),
            r is Some ==> forall|i: int, j: int|
                0 <= i < old(self).spec_size() && 0 <= j < old(self).spec_size() && i != j
                    ==> #[trigger] final(self).edge(i, j) == if (i == apt1 && j == apt2) || (i
                    == apt2 && j == apt1) {
                    *final(r.unwrap())
                } else {
                    old(self).edge(i, j)
                },
    {
        if apt1 >= self.size || apt2 >= self.size || apt1 == apt2 {
            return None;
        }
        let p = Self::pos(apt1, apt2, self.size);
        proof {
            assert forall|i: int, j: int|
                0 <= i < self.size && 0 <= j < self.size && i != j implies 0 <= pos_spec(i, j) < self.edges@.len()
                && (pos_spec(i, j) == p <==> ((i == apt1 && j == apt2) || (i == apt2 && j == apt1))) by {
                let (h1, l1) = if i > j {
                    (i, j)
                } else {
                    (j, i)
                };
                let (h2, l2) = if apt1 > apt2 {
                    (apt1 as int, apt2 as int)
                } else {
                    (apt2 as int, apt1 as int)
                };
                lemma_pos_bounds(h1, l1, self.size as int);
                if pos_spec(i, j) == p {
                    lemma_pos_injective(h1, l1, h2, l2);
                }
            }
        }
        Some(&mut self.edges[p])
    }

    /// Builds the relation over `size` nodes whose pair `{i, j}`, `j < i`, holds
    /// `f(i, j)`.
    pub fn new(size: u32, f: impl Fn(u32, u32) -> T) -> (r: Self)
        requires
            pair_count(size as int) <= usize::MAX,
            forall|i: u32, j: u32| j < i < size ==> f.requires((i, j)),
        ensures
            r.wf(),
            r.spec_size() == size,
            forall|i: int, j: int|
                0 <= j < i < size ==> f.ensures((i as u32, j as u32), #[trigger] r.edge(i, j)),
    {
        let mut edges: Vec<T> = Vec::new();
        let mut i: u32 = 0;
        while i < size
            invariant
                i <= size,
                pair_count(size as int) <= usize::MAX,
                forall|a: u32, b: u32| b < a < size ==> f.requires((a, b)),
                edges@.len() == pair_count(i as int),
                forall|a: int, b: int|
                    0 <= b < a < i ==> f.ensures((a as u32, b as u32), edges@[pos_spec(a, b)]),
            decreases size - i,
        {
            let mut j: u32 = 0;
            proof {
                if i > 0 {
                    lemma_pos_bounds(i as int, 0, (i + 1) as int);
                }
                assert(pair_count(i as int) == i * (i - 1) / 2);
            }
            while j < i
                invariant
                    j <= i < size,
                    pair_count(size as int) <= usize::MAX,
                    forall|a: u32, b: u32| b < a < size ==> f.requires((a, b)),
                    edges@.len() == pair_count(i as int) + j,
                    forall|a: int, b: int|
                        0 <= b < a < i ==> f.ensures((a as u32, b as u32), edges@[pos_spec(a, b)]),
                    forall|b: int|
                        0 <= b < j ==> f.ensures((i, b as u32), edges@[pos_spec(i as int, b)]),
                decreases i - j,
            {
                let v = f(i, j);
                proof {
                    assert(pos_spec(i as int, j as int) == pair_count(i as int) + j);
                    lemma_pos_bounds(i as int, j as int, size as int);
                }
                edges.push(v);
                proof {
                    assert forall|a: int, b: int| 0 <= b < a < i implies f.ensures(
                        (a as u32, b as u32),
                        edges@[pos_spec(a, b)],
                    ) by {
                        lemma_pos_bounds(a, b, i as int);
                    }
                    assert forall|b: int| 0 <= b < j + 1 implies f.ensures(
                        (i, b as u32),
                        edges@[pos_spec(i as int, b)],
                    ) by {
                        lemma_pos_bounds(i as int, b, size as int);
                    }
                }
                j += 1;
            }
            proof {
                assert(pair_count(i as int) + i == pair_count(i + 1)) by (nonlinear_arith)
                    requires
                        i >= 0,
                ;
                assert forall|a: int, b: int| 0 <= b < a < i + 1 implies f.ensures(
                    (a as u32, b as u32),
                    edges@[pos_spec(a, b)],
                ) by {
                    if a == i {
                        assert((a as u32) == i);
                    }
                }
            }
            i += 1;
        }
        GraphIdx { size, edges }
    }

    /// Combines two relations over the same nodes pair by pair; `None` where their
    /// sizes differ.
    pub fn merge<B: Copy, C: Copy>(&self, other: &GraphIdx<B>, f: impl Fn(T, B) -> C) -> (r: Option<
        GraphIdx<C>,
    >)
        requires
            self.wf(),
            other.wf(),
            forall|a: T, b: B| f.requires((a, b)),
        ensures
            r is Some <==> self.spec_size() == other.spec_size(),
            r is Some ==> r.unwrap().wf(),
            r is Some ==> r.unwrap().spec_size() == self.spec_size(),
            r is Some ==> forall|i: int, j: int|
                0 <= j < i < self.spec_size() ==> f.ensures(
                    (self.edge(i, j), other.edge(i, j)),
                    #[trigger] r.unwrap().edge(i, j),
                ),
    {
        if self.size != other.size {
            return None;
        }
        let n = self.edges.len();
        let mut edges: Vec<C> = Vec::new();
        let mut k: usize = 0;
        while k < n
            invariant
                n == self.edges@.len(),
                n == other.edges@.len(),
                k <= n,
                edges@.len() == k,
                forall|a: T, b: B| f.requires((a, b)),
                forall|p: int| 0 <= p < k ==> f.ensures((self.edges@[p], other.edges@[p]), #[trigger] edges@[p]),
            decreases n - k,
        {
            edges.push(f(self.edges[k], other.edges[k]));
            k += 1;
        }
        let r = GraphIdx { size: self.size, edges };
        proof {
            assert forall|i: int, j: int| 0 <= j < i < self.spec_size() implies f.ensures(
                (self.edge(i, j), other.edge(i, j)),
                #[trigger] r.edge(i, j),
            ) by {
                lemma_pos_bounds(i, j, self.size as int);
            }
        }
        Some(r)
    }

    /// Maps every pair's value through `f`.
    pub fn transform<B: Copy>(&self, f: impl Fn(T) -> B) -> (r: GraphIdx<B>)
        requires
            self.wf(),
            forall|a: T| f.requires((a,)),
        ensures
            r.wf(),
            r.spec_size() == self.spec_size(),
            forall|i: int, j: int|
                0 <= j < i < self.spec_size() ==> f.ensures((self.edge(i, j),), #[trigger] r.edge(i, j)),
    {
        let n = self.edges.len();
        let mut edges: Vec<B> = Vec::new();
        let mut k: usize = 0;
        while k < n
            invariant
                n == self.edges@.len(),
                k <= n,
                edges@.len() == k,
                forall|a: T| f.requires((a,)),
                forall|p: int| 0 <= p < k ==> f.ensures((self.edges@[p],), #[trigger] edges@[p]),
            decreases n - k,
        {
            edges.push(f(self.edges[k]));
            k += 1;
        }
        let r = GraphIdx { size: self.size, edges };
        proof {
            assert forall|i: int, j: int| 0 <= j < i < self.spec_size() implies f.ensures(
                (self.edge(i, j),),
                #[trigger] r.edge(i, j),
            ) by {
                lemma_pos_bounds(i, j, self.size as int);
            }
        }
        r
    }

    /// Replaces every pair's value by `f` of it.
    pub fn transform_inplace(&mut self, f: impl Fn(T) -> T)
        requires
            old(self).wf(),
            forall|a: T| f.requires((a,)),
        ensures
            final(self).wf(),
            final(self).spec_size() == old(self).spec_size(),
            forall|i: int, j: int|
                0 <= j < i < old(self).spec_size() ==> f.ensures(
                    (old(self).edge(i, j),),
                    #[trigger] final(self).edge(i, j),
                ),
    {
        let r = self.transform(f);
        *self = r;
    }

    /// A relation over the same nodes with `c` for every pair.
    pub fn transform_const<B: Copy>(&self, c: B) -> (r: GraphIdx<B>)
        requires
            self.wf(),
        ensures
            r.wf(),
            r.spec_size() == self.spec_size(),
            forall|i: int, j: int| 0 <= j < i < self.spec_size() ==> #[trigger] r.edge(i, j) == c,
    {
        let n = self.edges.len();
        let mut edges: Vec<B> = Vec::new();
        let mut k: usize = 0;
        while k < n
            invariant
                k <= n,
                edges@.len() == k,
                forall|p: int| 0 <= p < k ==> #[trigger] edges@[p] == c,
            decreases n - k,
        {
            edges.push(c);
            k += 1;
        }
        let r = GraphIdx { size: self.size, edges };
        proof {
            assert forall|i: int, j: int| 0 <= j < i < self.spec_size() implies #[trigger] r.edge(i, j) == c by {
                lemma_pos_bounds(i, j, self.size as int);
            }
        }
        r
    }
}

/// The value between two nodes does not depend on their order, and a node has the
/// given default with itself.
pub proof fn lemma_between_symmetric<T: Copy>(g: &GraphIdx<T>, default: T, i: int, j: int)
    ensures
        g.between_spec(default, i, j) == g.between_spec(default, j, i),
        0 <= i < g.spec_size() ==> g.between_spec(default, i, i) == Some(default),
{
    assert(pos_spec(i, j) == pos_spec(j, i));
}

} // verus!
