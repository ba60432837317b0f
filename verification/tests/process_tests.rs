//! Tests for the generic process engines: discrete and timed chains, the
//! branching process and the Poisson process.

use markovian::distributions::Raw;
use markovian::{
    BranchingProcess, ExponentialClock, MarkovChain, Pcg32Source, State, StateIterator,
    TimedMarkovChain, PROB_SCALE,
};

fn rng(seed: u64) -> Pcg32Source {
    const INC: u64 = 11634580027462260723;
    Pcg32Source::new(seed, INC)
}

fn half() -> u64 {
    PROB_SCALE / 2
}

#[test]
fn markov_chain_sampling_stability() {
    let expected = 1u64;
    let transition = Raw::new(vec![(PROB_SCALE, expected)]);
    let mut mc = MarkovChain::new(0u64, transition, rng(1));
    for _ in 0..100 {
        assert_eq!(mc.next(), Some(expected));
    }

    let transition = Raw::new(vec![(half(), 1u64), (half(), 2)]);
    let mut mc = MarkovChain::new(0u64, transition, rng(2));
    for _ in 0..100 {
        let x = mc.next().unwrap();
        assert!(x == 1 || x == 2);
    }
}

#[test]
fn markov_chain_value_stability() {
    // For a fixed seed and a fixed policy the sequence of sampled states
    // is reproducible bit for bit, on every platform.
    let expected = vec![1, 2, 1, 1];
    let transition = Raw::new(vec![(half(), 1u64), (half(), 2)]);
    let mut mc = MarkovChain::new(0u64, transition, rng(3));
    let sample: Vec<u64> = (0..4).map(|_| mc.next().unwrap()).collect();
    assert_eq!(sample, expected);
}

#[test]
fn markov_chain_set_state_swaps() {
    let transition = Raw::new(vec![(PROB_SCALE, 9u64)]);
    let mut mc = MarkovChain::new(4u64, transition, rng(1));
    assert_eq!(mc.state(), Some(&4));
    assert_eq!(mc.set_state(7), Ok(Some(4)));
    assert_eq!(mc.state(), Some(&7));
}

#[test]
fn step_with_installs_each_outcome() {
    // The install half of a step: a produced state replaces the current
    // one and is yielded; no outcome leaves the chain where it stood.
    let transition = Raw::new(vec![(PROB_SCALE, 9u64)]);
    let mut mc = MarkovChain::new(4u64, transition, rng(1));
    assert_eq!(mc.step_with(Some(7)), Some(7));
    assert_eq!(mc.state(), Some(&7));
    assert_eq!(mc.step_with(None), None);
    assert_eq!(mc.state(), Some(&7));

    // The timed install also passes the sampled period through unchanged.
    let transition = Raw::new(vec![(PROB_SCALE, (1.0f64, 9u64))]);
    let mut tmc = TimedMarkovChain::new(4u64, transition, rng(1));
    assert_eq!(tmc.step_with(Some((2.5, 7))), Some((2.5, 7)));
    assert_eq!(tmc.state(), Some(&7));
    assert_eq!(tmc.step_with(None), None);
    assert_eq!(tmc.state(), Some(&7));
}

#[test]
fn markov_chain_trajectory_matches_the_step_sequence() {
    let transition = Raw::new(vec![(half(), 1u64), (half(), 2)]);
    let mut chain_a = MarkovChain::new(0u64, transition.clone(), rng(8));
    let mut chain_b = MarkovChain::new(0u64, transition, rng(8));

    let trajectory = chain_a.trajectory(15);
    let mut replay = vec![*chain_b.state().unwrap()];
    for _ in 0..15 {
        replay.push(chain_b.next().unwrap());
    }
    assert_eq!(trajectory, replay);
}

#[test]
fn sampling_stability() {
    let expected = 1u64;
    let transition = Raw::new(vec![(PROB_SCALE, (1.0f64, expected))]);
    let mut mc = TimedMarkovChain::new(0u64, transition, rng(1));
    for _ in 0..100 {
        let (period, state) = mc.next().unwrap();
        assert_eq!(period, 1.0);
        assert_eq!(state, expected);
    }

    let transition = Raw::new(vec![(half(), (1.0f64, 1u64)), (half(), (1.0f64, 2))]);
    let mut mc = TimedMarkovChain::new(0u64, transition, rng(2));
    for _ in 0..100 {
        let (period, state) = mc.next().unwrap();
        assert_eq!(period, 1.0);
        assert!(state == 1 || state == 2);
    }
}

#[test]
fn value_stability() {
    // For a fixed seed the timed chain's sequence is reproducible bit for
    // bit, on every platform.
    let expected = vec![(1.0, 1), (1.0, 2), (1.0, 1), (1.0, 1)];
    let transition = Raw::new(vec![(half(), (1.0f64, 1u64)), (half(), (1.0f64, 2))]);
    let mut mc = TimedMarkovChain::new(0u64, transition, rng(3));
    let sample: Vec<(f64, u64)> = (0..4).map(|_| mc.next().unwrap()).collect();
    assert_eq!(sample, expected);
}

#[test]
fn timed_trajectory_starts_at_time_zero() {
    let transition = Raw::new(vec![(PROB_SCALE, (1.0f64, 5u64))]);
    let mut mc = TimedMarkovChain::new(9u64, transition, rng(4));
    let trajectory = mc.trajectory(2);
    assert_eq!(trajectory, vec![(0.0, 9), (1.0, 5), (1.0, 5)]);
}

#[test]
fn branching_checking_construction() {
    let state = 1u64;
    let density = Raw::new(vec![(half(), 0u64), (half(), 2)]);
    let branching_process = BranchingProcess::new(state, density, rng(1));
    assert_eq!(branching_process.state(), Some(&state));
}

#[test]
fn branching_generating_fun_evaluations() {
    // Density p(0) = 0.5, p(2) = 0.5, in parts of the probability scale.
    let density = Raw::new(vec![(half(), 0u64), (half(), 2)]);
    let branching_process = BranchingProcess::new(1u64, density, rng(1));

    // At z = 1 the full generating function evaluates to one.
    assert_eq!(
        branching_process.approx_generating_fun(1, 2),
        Some(PROB_SCALE as u128)
    );
    // At z = 0 only the zero-offspring mass remains.
    assert_eq!(
        branching_process.approx_generating_fun(0, 2),
        Some(half() as u128)
    );
    // A shorter approximation covers only the leading terms.
    assert_eq!(
        branching_process.approx_generating_fun(1, 1),
        Some(half() as u128)
    );
    // Levels past the support change nothing.
    assert_eq!(
        branching_process.approx_generating_fun(1, 20),
        Some(PROB_SCALE as u128)
    );
}

#[test]
fn branching_generating_fun_example() {
    // Density p(0) = 0.3, p(1) = 0.4, p(2) = 0.3; with the level covering
    // the full support the value is exact.
    let tenth = PROB_SCALE / 10;
    let density = Raw::new(vec![(3 * tenth, 0u64), (4 * tenth, 1), (3 * tenth, 2)]);
    let branching_process = BranchingProcess::new(1u64, density, rng(1));

    // At z = 1: 0.3 + 0.4 + 0.3 = 1.
    assert_eq!(
        branching_process.approx_generating_fun(1, 3),
        Some(PROB_SCALE as u128)
    );
    // At z = 2: 0.3 * 1 + 0.4 * 2 + 0.3 * 4 = 2.3.
    assert_eq!(
        branching_process.approx_generating_fun(2, 3),
        Some(2_300_000_000u128)
    );
}

#[test]
fn branching_value_stability() {
    // Reproducible bit for bit for a fixed seed, on every platform, and
    // absorbed forever once the population hits zero.
    let expected = vec![2, 1, 2, 1, 1, 2, 4, 3, 2, 1, 1, 0];
    let tenth = PROB_SCALE / 10;
    let density = Raw::new(vec![(3 * tenth, 0u64), (4 * tenth, 1), (3 * tenth, 2)]);
    let mut process = BranchingProcess::new(1u64, density, rng(1));
    let sample: Vec<u64> = (0..12).map(|_| process.next().unwrap()).collect();
    assert_eq!(sample, expected);
    assert_eq!(process.next(), Some(0));
}

/// A clock whose periods are all of unit length.
struct UnitClock;

impl ExponentialClock<f64, Pcg32Source> for UnitClock {
    fn sample_period(&self, _rng: &mut Pcg32Source) -> f64 {
        1.0
    }
}

#[test]
fn branching_trajectory_is_deterministic_for_fixed_offspring() {
    // Every individual leaves exactly two descendants, so the population
    // doubles each generation and the trajectory is pinned exactly.
    let density = Raw::new(vec![(PROB_SCALE, 2u64)]);
    let mut process = BranchingProcess::new(1u64, density, rng(1));
    assert_eq!(process.trajectory(3), vec![1, 2, 4, 8]);
}

#[test]
fn branching_zero_population_is_absorbed() {
    let density = Raw::new(vec![(PROB_SCALE, 2u64)]);
    let mut process = BranchingProcess::new(0u64, density, rng(1));
    assert_eq!(process.next(), Some(0));
    assert_eq!(process.next(), Some(0));
}

#[test]
fn poisson_trajectory_counts_arrivals() {
    let mut poisson_process = markovian::processes::Poisson::new(UnitClock, rng(5));
    assert_eq!(
        poisson_process.trajectory(3),
        vec![(0.0, 0), (1.0, 1), (1.0, 2), (1.0, 3)]
    );
}

#[test]
fn poisson_value_stability() {
    let mut poisson_process = markovian::processes::Poisson::new(UnitClock, rng(3));
    let expected = vec![(1.0, 1), (1.0, 2), (1.0, 3), (1.0, 4)];
    let sample: Vec<(f64, u64)> = (0..4).map(|_| poisson_process.next().unwrap()).collect();
    assert_eq!(sample, expected);
    assert_eq!(poisson_process.state(), Some(&4));
}
