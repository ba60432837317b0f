//! Tests for the distributions: the cumulative sampler and the combinators.

use markovian::distributions::{Binary, Raw, Unary};
use markovian::{Pcg32Source, Transition, PROB_SCALE};

/// Deterministic, explicitly seeded randomness source for the tests.
fn rng(seed: u64) -> Pcg32Source {
    const INC: u64 = 11634580027462260723;
    Pcg32Source::new(seed, INC)
}

#[test]
fn constants() {
    let mut rng = rng(1);
    let expected = 1;
    let dis = Raw::new(vec![(PROB_SCALE, expected)]);
    for _ in 0..100 {
        assert_eq!(dis.sample(&mut rng), Some(expected));
    }
}

#[test]
fn raw_sampling_stability() {
    let mut rng = rng(1);
    let expected = 1;
    let dis = Raw::new(vec![(PROB_SCALE, expected)]);
    for _ in 0..100 {
        assert_eq!(dis.clone().sample(&mut rng), Some(expected));
    }

    let dis = Raw::new(vec![(PROB_SCALE / 2, 1), (PROB_SCALE / 2, 2)]);
    for _ in 0..100 {
        let x = dis.clone().sample(&mut rng).unwrap();
        assert!(x == 1 || x == 2);
    }
}

#[test]
fn raw_value_stability() {
    // For a fixed seed the sampled sequence is reproducible bit for bit,
    // on every platform.
    let mut rng = rng(2);
    let expected = [2, 1, 1, 2];
    let dis = Raw::new(vec![(PROB_SCALE / 2, 1), (PROB_SCALE / 2, 2)]);
    let sample = [
        dis.clone().sample(&mut rng).unwrap(),
        dis.clone().sample(&mut rng).unwrap(),
        dis.clone().sample(&mut rng).unwrap(),
        dis.clone().sample(&mut rng).unwrap(),
    ];
    assert_eq!(sample, expected);
}

#[test]
fn cumulative_scan_is_exact() {
    // The deterministic core: the first value whose cumulative mass
    // exceeds the draw is selected, and exhaustion is reported.
    let dis = Raw::new(vec![(PROB_SCALE / 2, 10u64), (PROB_SCALE / 2, 20)]);
    assert_eq!(dis.sample_with(0), Some(0));
    assert_eq!(dis.sample_with(PROB_SCALE / 2 - 1), Some(0));
    assert_eq!(dis.sample_with(PROB_SCALE / 2), Some(1));
    assert_eq!(dis.sample_with(PROB_SCALE - 1), Some(1));

    // A sub-stochastic list exhausts on draws past its total mass.
    let thin = Raw::new(vec![(1, 10u64)]);
    assert_eq!(thin.sample_with(0), Some(0));
    assert_eq!(thin.sample_with(1), None);
}

#[test]
fn zero_probability_values_never_sampled() {
    let mut rng = rng(7);
    let dis = Raw::new(vec![(0, 9u64), (PROB_SCALE, 7)]);
    for _ in 0..100 {
        assert_eq!(dis.sample(&mut rng), Some(7));
    }
    // Even the scan itself skips the zero-mass entry.
    assert_eq!(dis.sample_with(0), Some(1));
}

#[test]
fn cloned_source_continues_the_same_sequence() {
    // Cloning copies the generator state: the copy and the original
    // produce the same draws independently from the point of cloning.
    let dis = Raw::new(vec![(PROB_SCALE / 2, 1u64), (PROB_SCALE / 2, 2)]);
    let mut original = rng(9);
    for _ in 0..3 {
        dis.sample(&mut original);
    }
    let mut copy = original.clone();
    let continued: Vec<Option<u64>> = (0..20).map(|_| dis.sample(&mut original)).collect();
    let replayed: Vec<Option<u64>> = (0..20).map(|_| dis.sample(&mut copy)).collect();
    assert_eq!(continued, replayed);
}

#[test]
fn unary_use_cases() {
    let mut rng = rng(1);
    let base = Raw::new(vec![(PROB_SCALE, 5u64)]);
    let shifted = Unary::new(|x: u64| x + 1, base);
    assert_eq!(shifted.sample(&mut rng), Some(6));

    let doubled = Unary::new(|x: u64| x * 2, Raw::new(vec![(PROB_SCALE, 3u64)]));
    assert_eq!(doubled.sample(&mut rng), Some(6));
}

#[test]
fn binary_use_cases() {
    let mut rng = rng(1);
    let left = Raw::new(vec![(PROB_SCALE, 2u64)]);
    let right = Raw::new(vec![(PROB_SCALE, 3u64)]);
    let sum = Binary::new(|x: u64, y: u64| x + y, left, right);
    assert_eq!(sum.sample(&mut rng), Some(5));

    let left = Raw::new(vec![(PROB_SCALE, 10u64)]);
    let right = Raw::new(vec![(PROB_SCALE, 2u64)]);
    let diff = Binary::new(|x: u64, y: u64| x - y, left, right);
    assert_eq!(diff.sample(&mut rng), Some(8));
}

#[test]
fn transition_use_cases() {
    let mut rng = rng(1);
    let expected = 1u64;

    let transition = Raw::new(vec![(PROB_SCALE, expected)]);
    assert_eq!(transition.sample_from(&0u64, &mut rng), Some(expected));

    let transition = Raw::new(vec![(PROB_SCALE / 2, 1u64), (PROB_SCALE / 2, 2)]);
    let sampled = transition.sample_from(&0u64, &mut rng).unwrap();
    assert!(sampled == 1 || sampled == 2);
}
