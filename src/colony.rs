use vstd::prelude::*;

verus! {

broadcast use vstd::seq_lib::group_seq_properties;

/// A tour as its nodes and the sort key of its length.
pub open spec fn tour_view(c: (Vec<u32>, u64)) -> (Seq<u32>, u64) {
    (c.0@, c.1)
}

pub open spec fn tours(s: Seq<(Vec<u32>, u64)>) -> Seq<(Seq<u32>, u64)> {
    s.map_values(|c: (Vec<u32>, u64)| tour_view(c))
}

pub open spec fn best_view(b: Option<(Vec<u32>, u64)>) -> Option<(Seq<u32>, u64)> {
    match b {
        Some(c) => Some(tour_view(c)),
        None => None,
    }
}

/// Tours in order of non-decreasing length key.
pub open spec fn sorted_by_key(s: Seq<(Seq<u32>, u64)>) -> bool {
    forall|i: int, j: int| 0 <= i <= j < s.len() ==> (#[trigger] s[i]).1 <= (#[trigger] s[j]).1
}

/// The candidates of a round: this round's tours and, where there is one, the best
/// tour so far.
pub open spec fn candidate_pool(cycles: Seq<(Seq<u32>, u64)>, best: Option<(Seq<u32>, u64)>) -> Seq<
    (Seq<u32>, u64),
> {
    match best {
        Some(b) => cycles.push(b),
        None => cycles,
    }
}

/// The best tour after looking at `kept` in order: a tour replaces the best one
/// only where there is none yet or it is strictly shorter.
pub open spec fn champion(best: Option<(Seq<u32>, u64)>, kept: Seq<(Seq<u32>, u64)>) -> Option<
    (Seq<u32>, u64),
>
    decreases kept.len(),
{
    if kept.len() == 0 {
        best
    } else {
        let b = champion(best, kept.drop_last());
        let c = kept.last();
        match b {
            Some(x) => if c.1 < x.1 {
                Some(c)
            } else {
                b
            },
            None => Some(c),
        }
    }
}

/// Relies on std's `slice::sort_unstable_by_key`: afterwards the tours are the same
/// ones, ordered by their length key.
#[verifier::external_body]
fn sort_by_length(cycles: &mut Vec<(Vec<u32>, u64)>)
    ensures
        tours(final(cycles)@).to_multiset() == tours(old(cycles)@).to_multiset(),
        sorted_by_key(tours(final(cycles)@)),
{
    cycles.sort_unstable_by_key(|c| c.1)
}

fn copy_tour(t: &Vec<u32>) -> (r: Vec<u32>)
    ensures
        r@ == t@,
{
    let mut r: Vec<u32> = Vec::with_capacity(t.len());
    let mut k: usize = 0;
    while k < t.len()
        invariant
            k <= t@.len(),
            r@ == t@.subrange(0, k as int),
        decreases t@.len() - k,
    {
        r.push(t[k]);
        k += 1;
    }
    assert(r@ =~= t@);
    r
}

/// Adds the best tour so far to this round's tours, orders them by length and keeps
/// the shorter half, rounding up.
pub fn select_elite(cycles: &mut Vec<(Vec<u32>, u64)>, best: &Option<(Vec<u32>, u64)>)
    requires
        old(cycles)@.len() < usize::MAX,
    ensures
        ({
            let pool = candidate_pool(tours(old(cycles)@), best_view(*best));
            &&& final(cycles)@.len() == (pool.len() + 1) / 2
            &&& exists|s: Seq<(Seq<u32>, u64)>|
                s.to_multiset() == pool.to_multiset() && sorted_by_key(s) && tours(final(cycles)@)
                    == s.subrange(0, final(cycles)@.len() as int)
        }),
{
    match best {
        Some(b) => {
            let nodes = copy_tour(&b.0);
            cycles.push((nodes, b.1));
        },
        None => {},
    }
    assert(tours(cycles@) =~= candidate_pool(tours(old(cycles)@), best_view(*best)));
    let ghost pool = tours(cycles@);
    sort_by_length(cycles);
    let ghost s = tours(cycles@);
    proof {
        vstd::seq_lib::to_multiset_len(s);
        vstd::seq_lib::to_multiset_len(pool);
    }
    let keep = cycles.len() / 2 + cycles.len() % 2;
    cycles.truncate(keep);
    assert(tours(cycles@) =~= s.subrange(0, keep as int));
    assert(s.to_multiset() == pool.to_multiset() && sorted_by_key(s) && tours(cycles@) == s.subrange(
        0,
        cycles@.len() as int,
    ));
}

/// Lets the tours kept this round, in order, challenge the best tour so far. The
/// best length never grows, and it ends no longer than any kept tour.
pub fn update_champion(best: &mut Option<(Vec<u32>, u64)>, kept: &[(Vec<u32>, u64)])
    ensures
        best_view(*final(best)) == champion(best_view(*old(best)), tours(kept@)),
        (*old(best)) is Some ==> (*final(best)) is Some && (*final(best)).unwrap().1 <= (*old(
            best,
        )).unwrap().1,
        kept@.len() > 0 ==> (*final(best)) is Some,
        forall|k: int|
            0 <= k < kept@.len() ==> (*final(best)).unwrap().1 <= (#[trigger] kept@[k]).1,
{
    let mut k: usize = 0;
    while k < kept.len()
        invariant
            k <= kept@.len(),
            best_view(*best) == champion(
                best_view(*old(best)),
                tours(kept@).subrange(0, k as int),
            ),
            (*old(best)) is Some ==> (*best) is Some && (*best).unwrap().1 <= (*old(
                best,
            )).unwrap().1,
            k > 0 ==> (*best) is Some,
            forall|p: int| 0 <= p < k ==> (*best).unwrap().1 <= (#[trigger] kept@[p]).1,
        decreases kept@.len() - k,
    {
        let c = &kept[k];
        let replace = match best {
            Some(b) => c.1 < b.1,
            None => true,
        };
        proof {
            assert(tours(kept@).subrange(0, k + 1).drop_last() =~= tours(kept@).subrange(
                0,
                k as int,
            ));
            assert(tours(kept@).subrange(0, k + 1).last() == tour_view(kept@[k as int]));
        }
        if replace {
            let nodes = copy_tour(&c.0);
            *best = Some((nodes, c.1));
        }
        k += 1;
    }
    assert(tours(kept@).subrange(0, kept@.len() as int) =~= tours(kept@));
}

} // verus!
