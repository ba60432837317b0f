//! Tests for the finite-state engine: construction, state assignment,
//! absorption and reachability analysis, and the graph view.

use markovian::{
    ConstructionError, FiniteMarkovChain, Pcg32Source, State, StateIterator,
};

fn rng(seed: u64) -> Pcg32Source {
    const INC: u64 = 11634580027462260723;
    Pcg32Source::new(seed, INC)
}

#[test]
fn change_state() {
    let mut finite_mc =
        FiniteMarkovChain::new(0, vec![vec![1, 2], vec![2, 1]], vec![10, 20], rng(1)).unwrap();
    let previous_state = finite_mc.set_state(20).unwrap();
    assert_eq!(Some(10), previous_state);
}

#[test]
fn construction_validates_dimensions() {
    // A state space longer than the table must fail, never silently
    // truncate.
    let r = FiniteMarkovChain::new(0, Vec::new(), vec![1u64], rng(1));
    assert_eq!(r.err(), Some(ConstructionError::DimensionMismatch));

    // A row narrower than the state space must fail too.
    let r = FiniteMarkovChain::new(0, vec![vec![1], vec![1, 1]], vec![1u64, 2], rng(1));
    assert_eq!(r.err(), Some(ConstructionError::DimensionMismatch));

    // An empty chain has no index its initial state could take.
    let r = FiniteMarkovChain::<u64>::new(0, Vec::new(), Vec::new(), rng(1));
    assert_eq!(r.err(), Some(ConstructionError::StateIndexOutOfBounds));
}

#[test]
fn construction_validates_rows_and_space() {
    let r = FiniteMarkovChain::new(0, vec![vec![0, 0], vec![1, 1]], vec![1u64, 2], rng(1));
    assert_eq!(r.err(), Some(ConstructionError::ZeroRowSum));

    let r = FiniteMarkovChain::new(0, vec![vec![1, 1], vec![1, 1]], vec![7u64, 7], rng(1));
    assert_eq!(r.err(), Some(ConstructionError::DuplicateState));

    let r = FiniteMarkovChain::new(9, vec![vec![1, 1], vec![1, 1]], vec![1u64, 2], rng(1));
    assert_eq!(r.err(), Some(ConstructionError::StateIndexOutOfBounds));

    let r = FiniteMarkovChain::new(
        0,
        vec![vec![u64::MAX, u64::MAX], vec![1, 1]],
        vec![1u64, 2],
        rng(1),
    );
    assert_eq!(r.err(), Some(ConstructionError::WeightTooLarge));
}

#[test]
fn absorbing_classification() {
    // Index 1 has positive self-weight and zero weight elsewhere; index 0
    // does not. No other index may be classified absorbing.
    let mc = FiniteMarkovChain::from_transition_matrix(
        0,
        vec![vec![1, 1], vec![0, 2]],
        rng(1),
    )
    .unwrap();
    assert_eq!(mc.absorbing_states_indexes(), vec![1]);

    let mc = mc.set_state_space(vec!['a', 'b']).unwrap();
    assert_eq!(mc.absorbing_states(), vec![&'b']);

    // A self-loop with another positive exit is not absorbing.
    let mc = FiniteMarkovChain::from_transition_matrix(
        0,
        vec![vec![1, 1], vec![1, 1]],
        rng(1),
    )
    .unwrap();
    assert_eq!(mc.absorbing_states_indexes(), Vec::<usize>::new());
}

#[test]
fn may_achieve_analysis() {
    // The two-state chain with one transient and one absorbing state.
    let mut mc = FiniteMarkovChain::from_transition_matrix(
        0,
        vec![vec![1, 1], vec![0, 2]],
        rng(1),
    )
    .unwrap();
    assert!(mc.may_achieve_index(0));
    assert!(mc.may_achieve_index(1));
    assert!(mc.may_absorb());

    mc.set_state(1).unwrap();
    assert!(!mc.may_achieve_index(0));
    assert!(mc.may_achieve_index(1));
    assert!(mc.may_absorb());

    let mc = mc.set_state_space(vec!['x', 'y']).unwrap();
    assert_eq!(mc.may_achieve('x'), Ok(false));
    assert_eq!(mc.may_achieve('y'), Ok(true));
    let error = mc.may_achieve('z').unwrap_err();
    assert_eq!(error.into_state(), 'z');
}

#[test]
fn reaching_the_current_state_is_trivial() {
    let mc = FiniteMarkovChain::from_transition_matrix(
        1,
        vec![vec![1, 1, 0], vec![0, 1, 1], vec![1, 0, 1]],
        rng(3),
    )
    .unwrap();
    assert!(mc.may_achieve_index(1));
}

#[test]
fn stepping_stays_in_the_state_space() {
    let mut mc = FiniteMarkovChain::new(
        0,
        vec![vec![1, 1], vec![0, 2]],
        vec![10u64, 20],
        rng(5),
    )
    .unwrap();
    let mut absorbed = false;
    for _ in 0..100 {
        let state = mc.next().unwrap();
        assert!(state == 10 || state == 20);
        if absorbed {
            // Once at the absorbing state, the chain never leaves it.
            assert_eq!(state, 20);
        }
        if state == 20 {
            absorbed = true;
        }
    }
    assert!(absorbed);
}

#[test]
fn trajectory_prepends_the_initial_state() {
    // A deterministic chain: from any state the next state is index 1.
    let mut mc = FiniteMarkovChain::from_transition_matrix(
        0,
        vec![vec![0, 1], vec![0, 1]],
        rng(1),
    )
    .unwrap();
    assert_eq!(mc.trajectory(3), vec![0, 1, 1, 1]);
}

#[test]
fn trajectory_matches_the_step_sequence() {
    // Same seed, same policy: the trajectory is the initial state followed
    // by exactly the elements the plain step sequence yields.
    let matrix = vec![vec![1, 2, 3], vec![1, 0, 1], vec![0, 1, 1]];
    let mut chain_a =
        FiniteMarkovChain::from_transition_matrix(0, matrix.clone(), rng(11)).unwrap();
    let mut chain_b = FiniteMarkovChain::from_transition_matrix(0, matrix, rng(11)).unwrap();

    let trajectory = chain_a.trajectory(20);
    let mut replay = vec![*chain_b.state().unwrap()];
    for _ in 0..20 {
        replay.push(chain_b.next().unwrap());
    }
    assert_eq!(trajectory, replay);
}

#[test]
fn rejected_assignment_leaves_the_chain_untouched() {
    let mut mc =
        FiniteMarkovChain::new(0, vec![vec![1, 2], vec![2, 1]], vec![10, 20], rng(1)).unwrap();
    let error = mc.set_state(99).unwrap_err();
    assert_eq!(error.into_state(), 99);
    assert_eq!(mc.state(), Some(&10));
}

#[test]
fn graph_view() {
    let mc = FiniteMarkovChain::from_transition_matrix(
        0,
        vec![vec![1, 1], vec![0, 2]],
        rng(1),
    )
    .unwrap();
    let (graph, node) = mc.into_graph();
    assert_eq!(graph[node], 0);
    assert_eq!(graph.node_count(), 2);
    assert_eq!(graph.edge_count(), 3);
    assert_eq!(graph.neighbors(node).count(), 2);
}
