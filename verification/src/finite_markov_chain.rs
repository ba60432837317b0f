//! Finite state Markov Chain in discrete time.
//!
//! # Costs
//!
//! Construction: O(n^2), where n is the size of the state space.
//! Sampling a transition: O(1), through precomputed alias tables.

use crate::alias::{alias_weights, row_error, valid_alias_row, AliasTable};
use crate::errors::{ConstructionError, InvalidState};
use crate::graph::{
    digraph_add_edge, digraph_add_node, digraph_new, graph_edge_list, graph_payloads,
    lemma_row_edges_mono, lemma_table_edges_mono, node_id, row_edges, table_edges,
};
use crate::random::Pcg32Source;
use crate::reachability::{
    bfs_reach, bfs_visited, is_absorbing, is_square, lemma_reachable_self, reachable, table_view,
};
use crate::traits::{MarkovChainTrait, RandomIterator, State, StateIterator};
use vstd::prelude::*;
use vstd::std_specs::cmp::PartialEqSpec;

verus! {

/// No two entries of the state space hold the same value, so value lookup
/// is well-defined.
pub open spec fn distinct_space<T: PartialEq + PartialEqSpec>(s: Seq<T>) -> bool {
    forall|i: int, j: int|
        0 <= i < j < s.len() ==> !(#[trigger] s[i]).eq_spec(#[trigger] &s[j])
}

/// The index of the first row the alias sampler rejects; meaningful only
/// when such a row exists.
pub open spec fn first_bad_row(m: Seq<Seq<u64>>) -> int
    decreases m.len(),
{
    if m.len() == 0 {
        0
    } else if !valid_alias_row(m[0]) {
        0
    } else {
        1 + first_bad_row(m.drop_first())
    }
}

/// Everything construction checks: the table is as tall and as wide as the
/// state space, the state space holds no duplicates, the initial index is
/// in range, and every row can be preprocessed for alias sampling.
pub open spec fn construction_ok<T: PartialEq + PartialEqSpec>(
    state_index: int,
    m: Seq<Seq<u64>>,
    space: Seq<T>,
) -> bool {
    &&& m.len() == space.len()
    &&& is_square(m)
    &&& distinct_space(space)
    &&& 0 <= state_index < space.len()
    &&& forall|i: int| 0 <= i < m.len() ==> valid_alias_row(#[trigger] m[i])
}

/// The error construction reports, in the order the conditions are
/// checked; meaningful only when construction fails.
pub open spec fn construction_error<T: PartialEq + PartialEqSpec>(
    state_index: int,
    m: Seq<Seq<u64>>,
    space: Seq<T>,
) -> ConstructionError {
    if m.len() != space.len() || !is_square(m) {
        ConstructionError::DimensionMismatch
    } else if !distinct_space(space) {
        ConstructionError::DuplicateState
    } else if state_index >= space.len() {
        ConstructionError::StateIndexOutOfBounds
    } else {
        row_error(m[first_bad_row(m)])
    }
}

/// The state space is exactly as long as the transition table has rows:
/// construction succeeds only when the two agree, so a constructed chain
/// always satisfies the equality, never a silent truncation.
pub proof fn lemma_construction_dimensions<T: PartialEq + PartialEqSpec>(
    state_index: int,
    m: Seq<Seq<u64>>,
    space: Seq<T>,
)
    requires
        construction_ok(state_index, m, space),
    ensures
        m.len() == space.len(),
        forall|i: int| 0 <= i < m.len() ==> (#[trigger] m[i]).len() == space.len(),
{
}

proof fn lemma_first_bad_row(m: Seq<Seq<u64>>, i: int)
    requires
        0 <= i < m.len(),
        !valid_alias_row(m[i]),
        forall|k: int| 0 <= k < i ==> valid_alias_row(#[trigger] m[k]),
    ensures
        first_bad_row(m) == i,
    decreases i,
{
    if i > 0 {
        assert(valid_alias_row(m[0]));
        assert(forall|k: int|
            0 <= k < i - 1 ==> valid_alias_row(#[trigger] m.drop_first()[k]));
        lemma_first_bad_row(m.drop_first(), i - 1);
    }
}

/// Finite state Markov Chain in discrete time.
///
/// Bundles a current state index, a transition-weight table, one
/// precomputed alias structure per row, a positionally indexed state space
/// and a randomness source. Construction validates the whole bundle, so
/// stepping never leaves the state space.
pub struct FiniteMarkovChain<T> {
    state_index: usize,
    transition_matrix: Vec<Vec<u64>>,
    transition_matrix_variables: Vec<AliasTable>,
    state_space: Vec<T>,
    rng: Pcg32Source,
}

impl<T> FiniteMarkovChain<T> {
    /// The transition-weight table, one row per state.
    pub closed spec fn spec_matrix(&self) -> Seq<Seq<u64>> {
        table_view(self.transition_matrix)
    }

    /// The state space, positionally indexed.
    pub closed spec fn spec_space(&self) -> Seq<T> {
        self.state_space@
    }

    /// The current state index.
    pub closed spec fn spec_index(&self) -> int {
        self.state_index as int
    }

    /// The number of states.
    pub open spec fn spec_nstates(&self) -> int {
        self.spec_space().len() as int
    }

    /// The structural invariant: table and space agree in size, the table
    /// is square, each row is preprocessed into an alias structure built
    /// from exactly that row, and the current index is in range.
    pub closed spec fn well_formed(&self) -> bool {
        &&& self.transition_matrix@.len() == self.spec_space().len()
        &&& self.transition_matrix_variables@.len() == self.spec_space().len()
        &&& is_square(self.spec_matrix())
        &&& forall|i: int|
            0 <= i < self.spec_nstates() ==> valid_alias_row(#[trigger] self.spec_matrix()[i])
        &&& forall|i: int|
            0 <= i < self.spec_nstates() ==> alias_weights(
                #[trigger] self.transition_matrix_variables@[i],
            ) == self.spec_matrix()[i]
        &&& 0 <= self.spec_index() < self.spec_nstates()
    }

    /// Two chains with the same table, alias structures and space; only the
    /// current index and the randomness source may differ.
    pub closed spec fn same_tables(&self, other: &Self) -> bool {
        &&& self.transition_matrix == other.transition_matrix
        &&& self.transition_matrix_variables == other.transition_matrix_variables
        &&& self.state_space == other.state_space
    }
}

impl<T: PartialEq + PartialEqSpec> FiniteMarkovChain<T> {
    /// Constructs a new `FiniteMarkovChain`.
    ///
    /// Succeeds exactly when the table is as tall and as wide as the state
    /// space, the space holds no duplicate, the initial index is in range
    /// and every row can be normalised for alias sampling; otherwise the
    /// first failed check is reported and nothing is created.
    #[verifier::loop_isolation(false)]
    pub fn new(
        state_index: usize,
        transition_matrix: Vec<Vec<u64>>,
        state_space: Vec<T>,
        rng: Pcg32Source,
    ) -> (r: Result<Self, ConstructionError>)
        requires
            T::obeys_eq_spec(),
        ensures
            r is Ok <==> construction_ok(
                state_index as int,
                table_view(transition_matrix),
                state_space@,
            ),
            r matches Ok(c) ==> c.well_formed() && distinct_space(c.spec_space())
                && c.spec_matrix() == table_view(transition_matrix) && c.spec_space()
                == state_space@ && c.spec_index() == state_index,
            r matches Err(e) ==> e == construction_error(
                state_index as int,
                table_view(transition_matrix),
                state_space@,
            ),
    {
        let ghost m = table_view(transition_matrix);
        let n = state_space.len();
        if transition_matrix.len() != n {
            return Err(ConstructionError::DimensionMismatch);
        }
        let mut i: usize = 0;
        while i < n
            invariant
                n == state_space@.len(),
                transition_matrix@.len() == n,
                m == table_view(transition_matrix),
                i <= n,
                forall|k: int| 0 <= k < i ==> (#[trigger] m[k]).len() == n,
            decreases n - i,
        {
            if transition_matrix[i].len() != n {
                proof {
                    assert(m[i as int] == transition_matrix@[i as int]@);
                    assert(!is_square(m));
                }
                return Err(ConstructionError::DimensionMismatch);
            }
            i = i + 1;
        }
        assert(is_square(m));
        let mut i: usize = 1;
        while i < n
            invariant
                n == state_space@.len(),
                1 <= i || n == 0,
                i <= n || (i == 1 && n == 0),
                forall|a: int, b: int|
                    0 <= a < b < i ==> !(#[trigger] state_space@[a]).eq_spec(#[trigger] &state_space@[b]),
            decreases n - i,
        {
            let mut j: usize = 0;
            while j < i
                invariant
                    i < n,
                    n == state_space@.len(),
                    j <= i,
                    forall|a: int, b: int|
                        0 <= a < b < i ==> !(#[trigger] state_space@[a]).eq_spec(#[trigger] &state_space@[b]),
                    forall|a: int|
                        0 <= a < j ==> !(#[trigger] state_space@[a]).eq_spec(&state_space@[i as int]),
                decreases i - j,
            {
                if state_space[j] == state_space[i] {
                    return Err(ConstructionError::DuplicateState);
                }
                j = j + 1;
            }
            i = i + 1;
        }
        assert(distinct_space(state_space@));
        if state_index >= n {
            return Err(ConstructionError::StateIndexOutOfBounds);
        }
        let mut variables: Vec<AliasTable> = Vec::new();
        let mut i: usize = 0;
        while i < n
            invariant
                n == state_space@.len(),
                transition_matrix@.len() == n,
                m == table_view(transition_matrix),
                i <= n,
                variables@.len() == i,
                forall|k: int| 0 <= k < i ==> valid_alias_row(#[trigger] m[k]),
                forall|k: int|
                    0 <= k < i ==> alias_weights(#[trigger] variables@[k]) == m[k],
            decreases n - i,
        {
            match AliasTable::new(&transition_matrix[i]) {
                Ok(table) => {
                    variables.push(table);
                },
                Err(e) => {
                    proof {
                        lemma_first_bad_row(m, i as int);
                    }
                    return Err(e);
                },
            }
            i = i + 1;
        }
        Ok(
            FiniteMarkovChain {
                state_index,
                transition_matrix,
                transition_matrix_variables: variables,
                state_space,
                rng,
            },
        )
    }

    /// Samples a possible index for the next state: always in range, and
    /// always one the current row gives positive weight.
    ///
    /// The state of the chain does not change, but its randomness source
    /// advances; that is why this method needs `&mut self`.
    pub fn sample_index(&mut self) -> (r: usize)
        requires
            old(self).well_formed(),
        ensures
            final(self).well_formed(),
            final(self).same_tables(old(self)),
            final(self).spec_matrix() == old(self).spec_matrix(),
            final(self).spec_space() == old(self).spec_space(),
            final(self).spec_index() == old(self).spec_index(),
            r < old(self).spec_nstates(),
            old(self).spec_matrix()[old(self).spec_index()][r as int] > 0,
    {
        self.transition_matrix_variables[self.state_index].sample(&mut self.rng)
    }

    /// Returns the state space of the Markov chain: all values the chain
    /// might ever take, even those not reachable from the current state.
    pub fn state_space(&self) -> (r: &Vec<T>)
        ensures
            r@ == self.spec_space(),
    {
        &self.state_space
    }

    /// Returns the size of the state space.
    pub fn nstates(&self) -> (r: usize)
        ensures
            r == self.spec_nstates(),
    {
        self.state_space.len()
    }

    /// Takes the chain apart into index, weight table, alias structures,
    /// state space and randomness source, restating what well-formedness
    /// guaranteed of the parts.
    pub(crate) fn into_parts(self) -> (r: (
        usize,
        Vec<Vec<u64>>,
        Vec<AliasTable>,
        Vec<T>,
        Pcg32Source,
    ))
        requires
            self.well_formed(),
        ensures
            r.0 as int == self.spec_index(),
            table_view(r.1) == self.spec_matrix(),
            r.3@ == self.spec_space(),
            r.0 < r.3@.len(),
            r.1@.len() == r.3@.len(),
            r.2@.len() == r.3@.len(),
            is_square(table_view(r.1)),
            forall|i: int|
                0 <= i < r.1@.len() ==> valid_alias_row(#[trigger] table_view(r.1)[i]),
            forall|i: int|
                0 <= i < r.2@.len() ==> alias_weights(#[trigger] r.2@[i]) == table_view(r.1)[i],
    {
        let FiniteMarkovChain {
            state_index,
            transition_matrix,
            transition_matrix_variables,
            state_space,
            rng,
        } = self;
        (state_index, transition_matrix, transition_matrix_variables, state_space, rng)
    }
}

impl FiniteMarkovChain<usize> {
    /// Constructs a chain over the state space `0, 1, ..., n - 1` when no
    /// symbolic labels are needed.
    #[verifier::loop_isolation(false)]
    pub fn from_transition_matrix(
        state_index: usize,
        transition_matrix: Vec<Vec<u64>>,
        rng: Pcg32Source,
    ) -> (r: Result<FiniteMarkovChain<usize>, ConstructionError>)
        ensures
            r is Ok <==> construction_ok(
                state_index as int,
                table_view(transition_matrix),
                Seq::new(transition_matrix@.len() as nat, |i: int| i as usize),
            ),
            r matches Ok(c) ==> c.well_formed() && distinct_space(c.spec_space())
                && c.spec_matrix() == table_view(transition_matrix) && c.spec_space() == Seq::new(
                transition_matrix@.len() as nat,
                |i: int| i as usize,
            ) && c.spec_index() == state_index,
            r matches Err(e) ==> e == construction_error(
                state_index as int,
                table_view(transition_matrix),
                Seq::new(transition_matrix@.len() as nat, |i: int| i as usize),
            ),
    {
        let n = transition_matrix.len();
        let mut state_space: Vec<usize> = Vec::new();
        let mut i: usize = 0;
        while i < n
            invariant
                i <= n,
                state_space@.len() == i,
                forall|k: int| 0 <= k < i ==> #[trigger] state_space@[k] == k as usize,
            decreases n - i,
        {
            state_space.push(i);
            i = i + 1;
        }
        proof {
            assert(state_space@ =~= Seq::new(transition_matrix@.len() as nat, |i: int| i as usize));
        }
        FiniteMarkovChain::<usize>::new(state_index, transition_matrix, state_space, rng)
    }
}

impl<T: Clone + PartialEq + PartialEqSpec> State for FiniteMarkovChain<T> {
    type Item = T;

    /// Structurally well-formed, with a duplicate-free space over a type
    /// whose equality agrees with its specification.
    open spec fn spec_wf(&self) -> bool {
        &&& self.well_formed()
        &&& distinct_space(self.spec_space())
        &&& T::obeys_eq_spec()
    }

    open spec fn spec_state(&self) -> Option<T> {
        Some(self.spec_space()[self.spec_index()])
    }

    /// Legal assignments are exactly the values of the state space.
    open spec fn spec_valid_state(&self, value: T) -> bool {
        exists|j: int| 0 <= j < self.spec_nstates() && (#[trigger] self.spec_space()[j]).eq_spec(
            &value,
        )
    }

    fn state(&self) -> (r: Option<&T>)
        ensures
            r is Some,
    {
        Some(&self.state_space[self.state_index])
    }

    fn state_mut(&mut self) -> Option<&mut T> {
        Some(&mut self.state_space[self.state_index])
    }

    /// Looks the value up in the state space; moves the current index to
    /// the first match and hands the previous state back, or rejects the
    /// value untouched.
    #[verifier::loop_isolation(false)]
    fn set_state(&mut self, new_state: T) -> (r: Result<Option<T>, InvalidState<T>>)
        ensures
            final(self).same_tables(old(self)),
            final(self).spec_matrix() == old(self).spec_matrix(),
            final(self).spec_space() == old(self).spec_space(),
            0 <= final(self).spec_index() < final(self).spec_nstates(),
            r matches Ok(prev) ==> prev matches Some(p) && cloned::<T>(
                old(self).spec_space()[old(self).spec_index()],
                p,
            ) && final(self).spec_space()[final(self).spec_index()].eq_spec(&new_state),
    {
        let n = self.state_space.len();
        let mut j: usize = 0;
        while j < n
            invariant
                self == old(self),
                n == self.spec_space().len(),
                j <= n,
                T::obeys_eq_spec(),
                forall|a: int|
                    0 <= a < j ==> !(#[trigger] self.spec_space()[a]).eq_spec(&new_state),
            decreases n - j,
        {
            if self.state_space[j] == new_state {
                let previous = self.state_space[self.state_index].clone();
                self.state_index = j;
                return Ok(Some(previous));
            }
            j = j + 1;
        }
        Err(InvalidState::new(new_state))
    }
}

impl<T: Clone + PartialEq + PartialEqSpec> StateIterator for FiniteMarkovChain<T> {
    type Item = T;

    /// Samples the next index from the current row's alias structure,
    /// moves there and yields a copy of the new state. A transition is
    /// always available: construction guaranteed every row a positive
    /// total.
    fn next(&mut self) -> (r: Option<T>)
        ensures
            final(self).same_tables(old(self)),
            final(self).spec_matrix() == old(self).spec_matrix(),
            final(self).spec_space() == old(self).spec_space(),
            0 <= final(self).spec_index() < final(self).spec_nstates(),
            old(self).spec_matrix()[old(self).spec_index()][final(self).spec_index()] > 0,
            r matches Some(v) ==> cloned::<T>(
                final(self).spec_space()[final(self).spec_index()],
                v,
            ),
            r is Some,
    {
        self.state_index = self.sample_index();
        Some(self.state_space[self.state_index].clone())
    }

    fn state_as_item(&self) -> (r: Option<T>)
        ensures
            r matches Some(v) ==> cloned::<T>(self.spec_space()[self.spec_index()], v),
            r is Some,
    {
        Some(self.state_space[self.state_index].clone())
    }

    /// A copy of the current state first, then the next `steps` sampled
    /// states in order, with nothing skipped or repeated; every element is
    /// a member of the state space.
    #[verifier::loop_isolation(false)]
    fn trajectory(&mut self, steps: usize) -> (r: Vec<T>)
        ensures
            r@.len() == steps + 1,
            final(self).same_tables(old(self)),
            final(self).spec_matrix() == old(self).spec_matrix(),
            final(self).spec_space() == old(self).spec_space(),
            cloned::<T>(old(self).spec_space()[old(self).spec_index()], r@[0]),
            forall|k: int|
                0 <= k < r@.len() ==> exists|j: int|
                    0 <= j < old(self).spec_space().len() && cloned::<T>(
                        #[trigger] old(self).spec_space()[j],
                        #[trigger] r@[k],
                    ),
    {
        let mut out: Vec<T> = Vec::new();
        out.push(self.state_space[self.state_index].clone());
        let mut i: usize = 0;
        while i < steps
            invariant
                out@.len() == i + 1,
                i <= steps,
                self.spec_wf(),
                self.same_tables(old(self)),
                cloned::<T>(old(self).spec_space()[old(self).spec_index()], out@[0]),
                forall|k: int|
                    0 <= k < out@.len() ==> exists|j: int|
                        0 <= j < old(self).spec_space().len() && cloned::<T>(
                            #[trigger] old(self).spec_space()[j],
                            #[trigger] out@[k],
                        ),
            decreases steps - i,
        {
            match self.next() {
                Some(item) => {
                    proof {
                        assert(cloned::<T>(self.spec_space()[self.spec_index()], item));
                    }
                    out.push(item);
                },
                None => {
                },
            }
            i = i + 1;
        }
        out
    }
}

impl<T: Clone + PartialEq + PartialEqSpec> MarkovChainTrait for FiniteMarkovChain<T> {

}

impl<T: Clone> RandomIterator<Pcg32Source> for FiniteMarkovChain<T> {
    type Item = T;

    /// Samples a possible next state without moving the chain itself: a
    /// well-formed chain always produces a member of its state space.
    fn sample_next(&self, rng: &mut Pcg32Source) -> (r: Option<T>)
        ensures
            self.well_formed() ==> r is Some,
            r matches Some(v) ==> exists|k: int|
                0 <= k < self.spec_space().len() && cloned::<T>(#[trigger] self.spec_space()[k], v),
            self.well_formed() ==> (r matches Some(v) ==> exists|k: int|
                0 <= k < self.spec_space().len() && self.spec_matrix()[self.spec_index()][k] > 0
                    && cloned::<T>(#[trigger] self.spec_space()[k], v)),
    {
        if self.state_index < self.transition_matrix_variables.len() {
            let k = self.transition_matrix_variables[self.state_index].sample(rng);
            if k < self.state_space.len() {
                let value = self.state_space[k].clone();
                proof {
                    assert(cloned::<T>(self.spec_space()[k as int], value));
                }
                return Some(value);
            }
        }
        None
    }
}

/// The ascending list of absorbing indices below `k`.
pub open spec fn absorbing_indices_below(m: Seq<Seq<u64>>, k: int) -> Seq<int>
    decreases k,
{
    if k <= 0 {
        Seq::empty()
    } else if is_absorbing(m, k - 1) {
        absorbing_indices_below(m, k - 1).push(k - 1)
    } else {
        absorbing_indices_below(m, k - 1)
    }
}

proof fn lemma_absorbing_indices_below(m: Seq<Seq<u64>>, k: int, i: int)
    requires
        0 <= i,
    ensures
        absorbing_indices_below(m, k).contains(i) <==> i < k && is_absorbing(m, i),
    decreases k,
{
    if k > 0 {
        lemma_absorbing_indices_below(m, k - 1, i);
        if i < k && is_absorbing(m, i) {
            if i == k - 1 {
                assert(is_absorbing(m, k - 1));
                let s = absorbing_indices_below(m, k);
                assert(s[s.len() - 1] == i);
            } else {
                let s0 = absorbing_indices_below(m, k - 1);
                let j = choose|j: int| 0 <= j < s0.len() && s0[j] == i;
                assert(absorbing_indices_below(m, k)[j] == i);
            }
        } else {
            if absorbing_indices_below(m, k).contains(i) {
                let s = absorbing_indices_below(m, k);
                let j = choose|j: int| 0 <= j < s.len() && s[j] == i;
                if is_absorbing(m, k - 1) && j == s.len() - 1 {
                    assert(i == k - 1);
                } else {
                    assert(absorbing_indices_below(m, k - 1).contains(i));
                }
            }
        }
    }
}

impl<T> FiniteMarkovChain<T> {
    /// Whether row `i` describes an absorbing state: positive self-weight
    /// and zero weight to every other index.
    fn is_absorbing_row(&self, i: usize) -> (r: bool)
        requires
            self.well_formed(),
            i < self.spec_nstates(),
        ensures
            r == is_absorbing(self.spec_matrix(), i as int),
    {
        proof {
            assert(self.spec_matrix()[i as int] == self.transition_matrix@[i as int]@);
            assert(self.spec_matrix()[i as int].len() == self.spec_matrix().len());
        }
        if self.transition_matrix[i][i] == 0 {
            return false;
        }
        let n = self.state_space.len();
        let mut j: usize = 0;
        while j < n
            invariant
                self.well_formed(),
                i < n,
                n == self.spec_nstates(),
                j <= n,
                self.spec_matrix()[i as int][i as int] > 0,
                forall|k: int|
                    0 <= k < j && k != i ==> self.spec_matrix()[i as int][k] == 0,
            decreases n - j,
        {
            if j != i && self.transition_matrix[i][j] > 0 {
                return false;
            }
            j = j + 1;
        }
        true
    }

    /// Returns the indexes of all absorbing states, in ascending order.
    ///
    /// An index is in the result exactly when its row has a positive
    /// self-weight and zero weight to every other index.
    #[verifier::loop_isolation(false)]
    pub fn absorbing_states_indexes(&self) -> (r: Vec<usize>)
        requires
            self.well_formed(),
        ensures
            r@.map_values(|x: usize| x as int) == absorbing_indices_below(
                self.spec_matrix(),
                self.spec_nstates(),
            ),
            forall|i: int|
                0 <= i < self.spec_nstates() ==> (r@.contains(i as usize) <==> is_absorbing(
                    self.spec_matrix(),
                    i,
                )),
    {
        let ghost m = self.spec_matrix();
        let n = self.state_space.len();
        let mut out: Vec<usize> = Vec::new();
        let mut i: usize = 0;
        while i < n
            invariant
                i <= n,
                out@.map_values(|x: usize| x as int) == absorbing_indices_below(m, i as int),
            decreases n - i,
        {
            if self.is_absorbing_row(i) {
                out.push(i);
                proof {
                    assert(out@.map_values(|x: usize| x as int) =~= absorbing_indices_below(
                        m,
                        i + 1,
                    ));
                }
            }
            i = i + 1;
        }
        proof {
            assert forall|i: int|
                0 <= i < n implies (out@.contains(i as usize) <==> is_absorbing(m, i)) by {
                lemma_absorbing_indices_below(m, n as int, i);
                let s = out@.map_values(|x: usize| x as int);
                if out@.contains(i as usize) {
                    let j = choose|j: int| 0 <= j < out@.len() && out@[j] == i as usize;
                    assert(s[j] == i);
                    assert(s.contains(i));
                }
                if s.contains(i) {
                    let j = choose|j: int| 0 <= j < s.len() && s[j] == i;
                    assert(out@[j] == i as usize);
                    assert(out@.contains(i as usize));
                }
            }
        }
        out
    }

    /// Returns all absorbing states, if any, in state-space order.
    #[verifier::loop_isolation(false)]
    pub fn absorbing_states(&self) -> (r: Vec<&T>)
        requires
            self.well_formed(),
        ensures
            r@.len() == absorbing_indices_below(self.spec_matrix(), self.spec_nstates()).len(),
            forall|k: int|
                0 <= k < r@.len() ==> *(#[trigger] r@[k]) == self.spec_space()[absorbing_indices_below(
                    self.spec_matrix(),
                    self.spec_nstates(),
                )[k]],
    {
        let ghost m = self.spec_matrix();
        let ghost idxs = absorbing_indices_below(m, self.spec_nstates());
        let indexes = self.absorbing_states_indexes();
        let mut out: Vec<&T> = Vec::new();
        let mut k: usize = 0;
        proof {
            lemma_absorbing_below_in_range(m, self.spec_nstates());
        }
        while k < indexes.len()
            invariant
                k <= indexes@.len(),
                out@.len() == k,
                forall|a: int| 0 <= a < k ==> *(#[trigger] out@[a]) == self.spec_space()[idxs[a]],
            decreases indexes@.len() - k,
        {
            proof {
                assert(idxs[k as int] == indexes@.map_values(|x: usize| x as int)[k as int]);
            }
            out.push(&self.state_space[indexes[k]]);
            k = k + 1;
        }
        out
    }

    /// Returns `true` if the Markov chain may reach the state indexed by
    /// `query` from the current state. A state trivially reaches itself.
    pub fn may_achieve_index(&self, query: usize) -> (r: bool)
        requires
            self.well_formed(),
        ensures
            r == reachable(self.spec_matrix(), self.spec_index(), query as int),
            query == self.spec_index() ==> r,
    {
        proof {
            if query == self.state_index {
                lemma_reachable_self(self.spec_matrix(), query as int);
            }
        }
        bfs_reach(&self.transition_matrix, self.state_index, query)
    }

    /// Returns `true` if the Markov chain may reach an absorbing state
    /// from the current state.
    #[verifier::loop_isolation(false)]
    pub fn may_absorb(&self) -> (r: bool)
        requires
            self.well_formed(),
        ensures
            r == exists|i: int|
                reachable(self.spec_matrix(), self.spec_index(), i) && is_absorbing(
                    self.spec_matrix(),
                    i,
                ),
    {
        let ghost m = self.spec_matrix();
        let visited = bfs_visited(&self.transition_matrix, self.state_index);
        let n = self.state_space.len();
        let mut i: usize = 0;
        while i < n
            invariant
                i <= n,
                visited@.len() == n,
                forall|t: int| 0 <= t < n ==> (visited@[t] <==> reachable(m, self.spec_index(), t)),
                forall|t: int|
                    0 <= t < i ==> !(reachable(m, self.spec_index(), t) && is_absorbing(m, t)),
            decreases n - i,
        {
            if visited[i] && self.is_absorbing_row(i) {
                return true;
            }
            i = i + 1;
        }
        proof {
            if exists|t: int| reachable(m, self.spec_index(), t) && is_absorbing(m, t) {
                let t = choose|t: int| reachable(m, self.spec_index(), t) && is_absorbing(m, t);
                assert(0 <= t < n);
            }
        }
        false
    }

    /// Changes the state space of the Markov chain, keeping the transition
    /// structure and the current index. The new space must be as large as
    /// the old one and free of duplicates.
    #[verifier::loop_isolation(false)]
    pub fn set_state_space<U: PartialEq + PartialEqSpec>(self, new_state_space: Vec<U>) -> (r:
        Result<FiniteMarkovChain<U>, ConstructionError>)
        requires
            self.well_formed(),
            U::obeys_eq_spec(),
        ensures
            r is Ok <==> new_state_space@.len() == self.spec_nstates() && distinct_space(
                new_state_space@,
            ),
            r matches Ok(c) ==> c.well_formed() && distinct_space(c.spec_space())
                && c.spec_matrix() == self.spec_matrix() && c.spec_space() == new_state_space@
                && c.spec_index() == self.spec_index(),
    {
        let n = self.state_space.len();
        if new_state_space.len() != n {
            return Err(ConstructionError::DimensionMismatch);
        }
        let mut i: usize = 1;
        while i < n
            invariant
                n == new_state_space@.len(),
                1 <= i || n == 0,
                i <= n || (i == 1 && n == 0),
                forall|a: int, b: int|
                    0 <= a < b < i ==> !(#[trigger] new_state_space@[a]).eq_spec(
                        #[trigger] &new_state_space@[b],
                    ),
            decreases n - i,
        {
            let mut j: usize = 0;
            while j < i
                invariant
                    i < n,
                    n == new_state_space@.len(),
                    j <= i,
                    forall|a: int, b: int|
                        0 <= a < b < i ==> !(#[trigger] new_state_space@[a]).eq_spec(
                            #[trigger] &new_state_space@[b],
                        ),
                    forall|a: int|
                        0 <= a < j ==> !(#[trigger] new_state_space@[a]).eq_spec(
                            &new_state_space@[i as int],
                        ),
                decreases i - j,
            {
                if new_state_space[j] == new_state_space[i] {
                    return Err(ConstructionError::DuplicateState);
                }
                j = j + 1;
            }
            i = i + 1;
        }
        assert(distinct_space(new_state_space@));
        Ok(
            FiniteMarkovChain {
                state_index: self.state_index,
                transition_matrix: self.transition_matrix,
                transition_matrix_variables: self.transition_matrix_variables,
                state_space: new_state_space,
                rng: self.rng,
            },
        )
    }
}

impl<T> FiniteMarkovChain<T> {
    /// Converts the chain into a directed weighted graph plus a pointer to
    /// the node of the current state: one node per state index, and one
    /// edge per positive weight of the table, in row-major order. The
    /// graph view suits external graph-analysis tooling.
    #[verifier::loop_isolation(false)]
    pub fn into_graph(self) -> (r: (
        petgraph::graph::DiGraph<usize, u64>,
        petgraph::graph::NodeIndex<u32>,
    ))
        requires
            self.well_formed(),
            self.spec_nstates() < u32::MAX,
            table_edges(self.spec_matrix(), self.spec_nstates()).len() < u32::MAX,
        ensures
            graph_payloads(r.0) == Seq::new(self.spec_nstates() as nat, |i: int| i as usize),
            graph_edge_list(r.0) == table_edges(self.spec_matrix(), self.spec_nstates()),
            node_id(r.1) == self.spec_index(),
    {
        let ghost m = self.spec_matrix();
        let n = self.state_space.len();
        let mut graph = digraph_new();
        let mut vertices: Vec<petgraph::graph::NodeIndex<u32>> = Vec::new();
        let mut i: usize = 0;
        proof {
            assert(graph_payloads(graph) =~= Seq::new(0nat, |k: int| k as usize));
        }
        while i < n
            invariant
                i <= n,
                vertices@.len() == i,
                graph_payloads(graph) == Seq::new(i as nat, |k: int| k as usize),
                graph_edge_list(graph) == Seq::<(usize, usize, u64)>::empty(),
                forall|k: int| 0 <= k < i ==> node_id(#[trigger] vertices@[k]) == k,
            decreases n - i,
        {
            let vertex = digraph_add_node(&mut graph, i);
            vertices.push(vertex);
            proof {
                assert(graph_payloads(graph) =~= Seq::new((i + 1) as nat, |k: int| k as usize));
            }
            i = i + 1;
        }
        let mut i: usize = 0;
        while i < n
            invariant
                i <= n,
                vertices@.len() == n,
                graph_payloads(graph) == Seq::new(n as nat, |k: int| k as usize),
                graph_edge_list(graph) == table_edges(m, i as int),
                forall|k: int| 0 <= k < n ==> node_id(#[trigger] vertices@[k]) == k,
            decreases n - i,
        {
            let mut j: usize = 0;
            proof {
                assert(m[i as int] == self.transition_matrix@[i as int]@);
                assert(row_edges(m[i as int], i, 0) =~= Seq::<(usize, usize, u64)>::empty());
                assert(graph_edge_list(graph) =~= table_edges(m, i as int) + row_edges(
                    m[i as int],
                    i,
                    0,
                ));
            }
            while j < n
                invariant
                    i < n,
                    j <= n,
                    vertices@.len() == n,
                    graph_payloads(graph) == Seq::new(n as nat, |k: int| k as usize),
                    graph_edge_list(graph) == table_edges(m, i as int) + row_edges(
                        m[i as int],
                        i,
                        j as int,
                    ),
                    forall|k: int| 0 <= k < n ==> node_id(#[trigger] vertices@[k]) == k,
                decreases n - j,
            {
                let weight = self.transition_matrix[i][j];
                if weight > 0 {
                    proof {
                        lemma_row_edges_mono(m[i as int], i, j + 1);
                        lemma_table_edges_mono(m, i + 1);
                        assert(table_edges(m, i + 1) == table_edges(m, i as int) + row_edges(
                            m[i as int],
                            i,
                            m[i as int].len() as int,
                        ));
                    }
                    digraph_add_edge(&mut graph, vertices[i], vertices[j], weight);
                    proof {
                        assert(graph_edge_list(graph) =~= table_edges(m, i as int) + row_edges(
                            m[i as int],
                            i,
                            j + 1,
                        ));
                    }
                }
                j = j + 1;
            }
            proof {
                assert(graph_edge_list(graph) =~= table_edges(m, i + 1));
            }
            i = i + 1;
        }
        let pointer = vertices[self.state_index];
        (graph, pointer)
    }
}

/// Every listed absorbing index lies inside the table.
proof fn lemma_absorbing_below_in_range(m: Seq<Seq<u64>>, k: int)
    ensures
        forall|a: int|
            0 <= a < absorbing_indices_below(m, k).len() ==> 0 <= #[trigger] absorbing_indices_below(
                m,
                k,
            )[a] < k,
    decreases k,
{
    if k > 0 {
        lemma_absorbing_below_in_range(m, k - 1);
        let prev = absorbing_indices_below(m, k - 1);
        let cur = absorbing_indices_below(m, k);
        assert forall|a: int| 0 <= a < cur.len() implies 0 <= #[trigger] cur[a] < k by {
            if a < prev.len() {
                assert(cur[a] == prev[a]);
            } else {
                assert(cur[a] == k - 1);
            }
        }
    }
}

impl<T: PartialEq + PartialEqSpec> FiniteMarkovChain<T> {
    /// Returns `true` if the Markov chain may reach the state `query` from
    /// the current state, or rejects a value that is not a recognized
    /// state.
    #[verifier::loop_isolation(false)]
    pub fn may_achieve(&self, query: T) -> (r: Result<bool, InvalidState<T>>)
        requires
            self.well_formed(),
            distinct_space(self.spec_space()),
            T::obeys_eq_spec(),
        ensures
            r is Ok <==> exists|j: int|
                0 <= j < self.spec_nstates() && (#[trigger] self.spec_space()[j]).eq_spec(&query),
            r matches Ok(b) ==> exists|j: int|
                0 <= j < self.spec_nstates() && (#[trigger] self.spec_space()[j]).eq_spec(&query)
                    && b == reachable(self.spec_matrix(), self.spec_index(), j),
            r matches Err(e) ==> e.spec_state() == query,
    {
        let n = self.state_space.len();
        let mut j: usize = 0;
        while j < n
            invariant
                n == self.spec_nstates(),
                j <= n,
                forall|a: int|
                    0 <= a < j ==> !(#[trigger] self.spec_space()[a]).eq_spec(&query),
            decreases n - j,
        {
            if self.state_space[j] == query {
                return Ok(self.may_achieve_index(j));
            }
            j = j + 1;
        }
        Err(InvalidState::new(query))
    }
}

} // verus!
