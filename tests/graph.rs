use tsp::ant::AntTour;
use tsp::graph::GraphIdx;

#[test]
fn between_is_symmetric_and_defaults_on_the_diagonal() {
    let g = GraphIdx::new(4, |i, j| i * 10 + j);
    assert_eq!(g.size(), 4);
    assert_eq!(g.edges(), &[10, 20, 21, 30, 31, 32]);
    for i in 0..4 {
        for j in 0..4 {
            assert_eq!(g.between(99, i, j), g.between(99, j, i));
        }
        assert_eq!(g.between(99, i, i), Some(99));
        assert_eq!(g.between(99, i, 4), None);
    }
    assert_eq!(g.between(0, 1, 3), Some(31));
}

#[test]
fn set_merge_and_transform() {
    let mut g = GraphIdx::new(3, |_, _| 1u32);
    assert_eq!(g.set(0, 2, 5), Some(()));
    assert_eq!(g.set(1, 1, 5), None);
    assert_eq!(g.between(0, 2, 0), Some(5));
    let h = g.transform(|v| v * 2);
    assert_eq!(h.between(0, 0, 2), Some(10));
    let m = g.merge(&h, |a, b| a + b).unwrap();
    assert_eq!(m.edges(), &[3, 15, 3]);
    let c = g.transform_const(7u8);
    assert_eq!(c.edges(), &[7, 7, 7]);
    assert!(g.merge(&GraphIdx::new(2, |_, _| 0u32), |a, b| a + b).is_none());
    g.transform_inplace(|v| v + 1);
    assert_eq!(g.edges(), &[2, 6, 2]);
}

#[test]
fn ant_tour_visits_every_node_once() {
    let mut t = AntTour::start(5, 2);
    assert_eq!(t.remaining(), vec![0, 1, 3, 4]);
    assert_eq!(t.advance(3), 4);
    assert_eq!(t.remaining(), vec![0, 1, 3]);
    assert_eq!(t.advance(0), 0);
    assert_eq!(t.current(), 0);
    assert_eq!(t.advance(1), 3);
    assert_eq!(t.left(), 1);
    assert_eq!(t.advance(0), 1);
    assert!(t.is_complete());
    assert_eq!(t.cycle(), &[2, 4, 0, 3, 1]);
    assert_eq!(t.source(), 2);
}

#[test]
fn single_node_tour_is_complete_at_once() {
    let t = AntTour::start(1, 0);
    assert!(t.is_complete());
    assert_eq!(t.cycle(), &[0]);
}

#[test]
fn between_mut_writes_one_pair() {
    let mut g = GraphIdx::new(3, |_, _| 0i64);
    *g.between_mut(2, 0).unwrap() += 4;
    assert!(g.between_mut(1, 1).is_none());
    assert!(g.between_mut(0, 3).is_none());
    assert_eq!(g.between(0, 0, 2), Some(4));
    assert_eq!(g.edges(), &[0, 4, 0]);
}

use tsp::colony::{select_elite, update_champion};

#[test]
fn elite_is_a_candidate_and_half_is_kept() {
    let mut cycles = vec![(vec![0, 1, 2], 30u64), (vec![0, 2, 1], 10), (vec![1, 0, 2], 20)];
    let best = Some((vec![2, 1, 0], 5u64));
    select_elite(&mut cycles, &best);
    assert_eq!(cycles, vec![(vec![2, 1, 0], 5), (vec![0, 2, 1], 10)]);
    let mut odd = vec![(vec![0], 3u64), (vec![1], 1), (vec![2], 2)];
    select_elite(&mut odd, &None);
    assert_eq!(odd, vec![(vec![1], 1), (vec![2], 2)]);
}

#[test]
fn champion_never_gets_longer() {
    let mut best = None;
    update_champion(&mut best, &[(vec![0, 1], 7), (vec![1, 0], 7)]);
    assert_eq!(best, Some((vec![0, 1], 7)));
    update_champion(&mut best, &[(vec![1, 0], 9)]);
    assert_eq!(best, Some((vec![0, 1], 7)));
    update_champion(&mut best, &[(vec![1, 0], 4), (vec![0, 1], 2)]);
    assert_eq!(best, Some((vec![0, 1], 2)));
    update_champion(&mut best, &[]);
    assert_eq!(best, Some((vec![0, 1], 2)));
}

#[test]
fn restart_reuses_the_walk() {
    let mut t = AntTour::start(3, 0);
    t.advance(0);
    t.advance(0);
    assert!(t.is_complete());
    t.restart(2);
    assert_eq!(t.size(), 3);
    assert_eq!(t.cycle(), &[2]);
    assert_eq!(t.remaining(), vec![0, 1]);
    assert_eq!(t.left(), 2);
}
