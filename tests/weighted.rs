use rand::distributions::{Distribution, Uniform};
use rand::RngCore;
use tsp::weighted::{CumulativeWeightsWrapper, WeightedError};

/// Construct a deterministic RNG with the given seed
fn rng(seed: u64) -> rand_pcg::Pcg32 {
    const INC: u64 = 11634580027462260723;
    rand_pcg::Pcg32::new(seed, INC)
}

#[test]
fn test_weighted_index() {
    let mut r = rng(700);
    const N_REPS: u32 = 5000;
    let weights = [1i32, 2, 3, 0, 5, 6, 7, 1, 2, 3, 4, 5, 6, 7];
    let total_weight = weights.iter().sum::<i32>() as f32;

    let verify = |result: [i32; 14]| {
        for (i, count) in result.iter().enumerate() {
            let exp = (weights[i] as u32 * N_REPS) as f32 / total_weight;
            let mut err = (*count as f32 - exp).abs();
            if err != 0.0 {
                err /= exp;
            }
            assert!(err <= 0.25);
        }
    };

    let mut chosen = [0i32; 14];
    let mut distr_w = CumulativeWeightsWrapper::new();
    distr_w.fill(&weights).unwrap();
    for _ in 0..N_REPS {
        chosen[distr_w.sample(&mut r)] += 1;
    }
    verify(chosen);

    for _ in 0..5 {
        distr_w.fill(&[0, 1]).unwrap();
        assert_eq!(distr_w.sample(&mut r), 1);
        distr_w.fill(&[1, 0]).unwrap();
        assert_eq!(distr_w.sample(&mut r), 0);
        distr_w.fill(&[0, 0, 0, 0, 10, 0]).unwrap();
        assert_eq!(distr_w.sample(&mut r), 4);
    }

    assert_eq!(distr_w.fill(&[10][0..0]).unwrap_err(), WeightedError::NoItem);
    assert_eq!(distr_w.fill(&[0]).unwrap_err(), WeightedError::AllWeightsZero);
    let mut distr_w = CumulativeWeightsWrapper::new();
    assert_eq!(distr_w.fill(&[10, 20, -1, 30]).unwrap_err(), WeightedError::InvalidWeight);
    assert_eq!(distr_w.fill(&[-10, 20, 1, 30]).unwrap_err(), WeightedError::InvalidWeight);
    assert_eq!(distr_w.fill(&[-10]).unwrap_err(), WeightedError::InvalidWeight);
}

#[test]
fn value_stability() {
    let mut distr = CumulativeWeightsWrapper::new();
    distr.fill(&[1i32, 1, 1, 1, 1, 1, 1, 1, 1]).unwrap();
    let mut rng = rng(701);
    let mut buf = [0usize; 10];
    for r in buf.iter_mut() {
        *r = distr.sample(&mut rng);
    }
    assert_eq!(buf, [0, 6, 2, 6, 3, 4, 7, 8, 2, 5]);
}

#[test]
fn weighted_index_distributions_can_be_compared() {
    let mut distr1 = CumulativeWeightsWrapper::new();
    let mut distr2 = CumulativeWeightsWrapper::new();
    assert_eq!(distr1.fill(&[1, 2]), distr2.fill(&[1, 2]));
}

#[test]
fn weights_two_one_one_split_half_quarter_quarter() {
    let mut distr = CumulativeWeightsWrapper::new();
    assert_eq!(distr.fill(&[2, 1, 1]), Ok(4));
    let mut r = rng(42);
    let mut counts = [0u32; 3];
    for _ in 0..20000 {
        counts[distr.sample(&mut r)] += 1;
    }
    let freq: Vec<f64> = counts.iter().map(|&c| c as f64 / 20000.0).collect();
    assert!((freq[0] - 0.5).abs() < 0.02);
    assert!((freq[1] - 0.25).abs() < 0.02);
    assert!((freq[2] - 0.25).abs() < 0.02);
}

#[test]
fn sample_index_finds_the_bucket() {
    let mut distr = CumulativeWeightsWrapper::with_capacity(3);
    assert_eq!(distr.fill(&[2, 0, 3]), Ok(5));
    assert_eq!(distr.sample_index(0), 0);
    assert_eq!(distr.sample_index(1), 0);
    assert_eq!(distr.sample_index(2), 2);
    assert_eq!(distr.sample_index(4), 2);
    let u = Uniform::new(0, 5);
    let mut r = rng(3);
    for _ in 0..100 {
        assert_ne!(distr.sample_index(u.sample(&mut r)), 1);
    }
    let _ = r.next_u32();
}

#[test]
fn zero_weights_and_negative_weights() {
    let mut distr = CumulativeWeightsWrapper::new();
    assert_eq!(distr.fill(&[0, 0, 0]), Err(WeightedError::AllWeightsZero));
    assert_eq!(distr.fill(&[]), Err(WeightedError::NoItem));
    assert_eq!(distr.fill(&[0, 0, -1]), Err(WeightedError::InvalidWeight));
}
