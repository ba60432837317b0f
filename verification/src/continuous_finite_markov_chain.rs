//! Finite state Markov Chain in continuous time.
//!
//! Weights are exit rates: the chain jumps along a positive-weight edge
//! chosen in proportion to the rates, and waits in each state for a period
//! governed by the state's total exit rate. The engine yields that total
//! rate with each jump; turning a rate into a random waiting period is the
//! caller's clock's business.
//!
//! # Costs
//!
//! Construction: O(n^2), where n is the size of the state space.
//! Sampling a transition: O(1), through precomputed alias tables.

use crate::alias::{alias_weights, row_total, valid_alias_row, AliasTable};
use crate::errors::{ConstructionError, InvalidState};
use crate::finite_markov_chain::{construction_error, construction_ok, distinct_space};
use crate::random::Pcg32Source;
use crate::reachability::{is_square, table_view};
use crate::traits::{CMarkovChainTrait, RandomIterator, State, StateIterator};
use vstd::prelude::*;
use vstd::std_specs::cmp::PartialEqSpec;

verus! {

/// A prefix of a row never weighs more than the row, and never less than
/// nothing.
proof fn lemma_row_total_take(s: Seq<u64>, k: int)
    requires
        0 <= k <= s.len(),
    ensures
        0 <= row_total(s.take(k)),
        row_total(s.take(k)) <= row_total(s),
    decreases s.len() - k,
{
    crate::alias::lemma_row_total_bound(s.take(k), u64::MAX as int);
    if k < s.len() {
        lemma_row_total_take_succ(s, k);
        lemma_row_total_take(s, k + 1);
    } else {
        assert(s.take(k) =~= s);
    }
}

/// Taking one more entry adds exactly that entry's weight.
proof fn lemma_row_total_take_succ(s: Seq<u64>, k: int)
    requires
        0 <= k < s.len(),
    ensures
        row_total(s.take(k + 1)) == row_total(s.take(k)) + s[k],
    decreases k,
{
    if k == 0 {
        assert(s.take(1) =~= seq![s[0]]);
        assert(s.take(1).drop_first() =~= Seq::<u64>::empty());
        assert(s.take(0) =~= Seq::<u64>::empty());
    } else {
        lemma_row_total_take_succ(s.drop_first(), k - 1);
        assert(s.take(k + 1).drop_first() =~= s.drop_first().take(k));
        assert(s.take(k).drop_first() =~= s.drop_first().take(k - 1));
        assert(s.take(k + 1)[0] == s[0]);
        assert(s.take(k)[0] == s[0]);
    }
}

/// A valid row's total fits the weight type: every weight stays under the
/// row's normalising bound `u64::MAX / len`.
proof fn lemma_valid_row_total_fits(s: Seq<u64>)
    requires
        valid_alias_row(s),
    ensures
        0 < row_total(s) <= u64::MAX,
{
    crate::alias::lemma_row_total_bound(s, (u64::MAX as int) / (s.len() as int));
    vstd::arithmetic::div_mod::lemma_fundamental_div_mod(u64::MAX as int, s.len() as int);
    vstd::arithmetic::div_mod::lemma_mod_bound(u64::MAX as int, s.len() as int);
}

/// Adds up one row of exit rates; the total fits because the alias
/// sampler already accepted the row.
#[verifier::loop_isolation(false)]
fn sum_row(row: &Vec<u64>) -> (r: u64)
    requires
        valid_alias_row(row@),
    ensures
        r == row_total(row@),
{
    let n = row.len();
    let mut acc: u64 = 0;
    let mut j: usize = 0;
    proof {
        assert(row@.take(0) =~= Seq::<u64>::empty());
    }
    while j < n
        invariant
            j <= n,
            acc == row_total(row@.take(j as int)),
        decreases n - j,
    {
        proof {
            lemma_row_total_take_succ(row@, j as int);
            lemma_row_total_take(row@, j + 1);
            lemma_valid_row_total_fits(row@);
        }
        acc = acc + row[j];
        j = j + 1;
    }
    proof {
        assert(row@.take(n as int) =~= row@);
    }
    acc
}

/// Finite state Markov Chain in continuous time.
///
/// Bundles a current state index, a table of exit rates, one precomputed
/// alias structure and one total exit rate per row, a positionally indexed
/// state space and a randomness source.
pub struct ContFiniteMarkovChain<T> {
    state_index: usize,
    transition_matrix: Vec<Vec<u64>>,
    transition_matrix_variables: Vec<AliasTable>,
    transition_clock: Vec<u64>,
    state_space: Vec<T>,
    rng: Pcg32Source,
}

impl<T> ContFiniteMarkovChain<T> {
    /// The table of exit rates, one row per state.
    pub closed spec fn spec_matrix(&self) -> Seq<Seq<u64>> {
        table_view(self.transition_matrix)
    }

    /// The state space, positionally indexed.
    pub closed spec fn spec_space(&self) -> Seq<T> {
        self.state_space@
    }

    /// The current state index.
    pub closed spec fn spec_index(&self) -> int {
        self.state_index as int
    }

    /// The number of states.
    pub open spec fn spec_nstates(&self) -> int {
        self.spec_space().len() as int
    }

    /// The structural invariant: like the discrete finite chain's, plus
    /// one stored total exit rate per row.
    pub closed spec fn well_formed(&self) -> bool {
        &&& self.transition_matrix@.len() == self.spec_space().len()
        &&& self.transition_matrix_variables@.len() == self.spec_space().len()
        &&& self.transition_clock@.len() == self.spec_space().len()
        &&& is_square(self.spec_matrix())
        &&& forall|i: int|
            0 <= i < self.spec_nstates() ==> valid_alias_row(#[trigger] self.spec_matrix()[i])
        &&& forall|i: int|
            0 <= i < self.spec_nstates() ==> alias_weights(
                #[trigger] self.transition_matrix_variables@[i],
            ) == self.spec_matrix()[i]
        &&& forall|i: int|
            0 <= i < self.spec_nstates() ==> #[trigger] self.transition_clock@[i] == row_total(
                self.spec_matrix()[i],
            )
        &&& 0 <= self.spec_index() < self.spec_nstates()
    }

    /// Two chains with the same tables; only the current index and the
    /// randomness source may differ.
    pub closed spec fn same_tables(&self, other: &Self) -> bool {
        &&& self.transition_matrix == other.transition_matrix
        &&& self.transition_matrix_variables == other.transition_matrix_variables
        &&& self.transition_clock == other.transition_clock
        &&& self.state_space == other.state_space
    }
}

impl<T: PartialEq + PartialEqSpec> ContFiniteMarkovChain<T> {
    /// Constructs a new `ContFiniteMarkovChain`, under exactly the checks
    /// of the discrete finite chain: matching dimensions, a duplicate-free
    /// state space, an initial index in range and rows the alias sampler
    /// accepts.
    #[verifier::loop_isolation(false)]
    pub fn new(
        state_index: usize,
        transition_weights: Vec<Vec<u64>>,
        state_space: Vec<T>,
        rng: Pcg32Source,
    ) -> (r: Result<Self, ConstructionError>)
        requires
            T::obeys_eq_spec(),
        ensures
            r is Ok <==> construction_ok(
                state_index as int,
                table_view(transition_weights),
                state_space@,
            ),
            r matches Ok(c) ==> c.well_formed() && distinct_space(c.spec_space())
                && c.spec_matrix() == table_view(transition_weights) && c.spec_space()
                == state_space@ && c.spec_index() == state_index,
            r matches Err(e) ==> e == construction_error(
                state_index as int,
                table_view(transition_weights),
                state_space@,
            ),
    {
        let ghost m = table_view(transition_weights);
        let inner = crate::FiniteMarkovChain::new(state_index, transition_weights, state_space, rng);
        match inner {
            Ok(chain) => {
                let (state_index, transition_matrix, variables, state_space, rng) =
                    chain.into_parts();
                let mut clock: Vec<u64> = Vec::new();
                let n = transition_matrix.len();
                let mut i: usize = 0;
                while i < n
                    invariant
                        n == transition_matrix@.len(),
                        clock@.len() == i,
                        i <= n,
                        forall|k: int|
                            0 <= k < n ==> valid_alias_row(
                                #[trigger] table_view(transition_matrix)[k],
                            ),
                        forall|k: int|
                            0 <= k < i ==> #[trigger] clock@[k] == row_total(
                                table_view(transition_matrix)[k],
                            ),
                    decreases n - i,
                {
                    proof {
                        assert(table_view(transition_matrix)[i as int] == transition_matrix@[i as int]@);
                    }
                    let total = sum_row(&transition_matrix[i]);
                    clock.push(total);
                    i = i + 1;
                }
                Ok(
                    ContFiniteMarkovChain {
                        state_index,
                        transition_matrix,
                        transition_matrix_variables: variables,
                        transition_clock: clock,
                        state_space,
                        rng,
                    },
                )
            },
            Err(e) => Err(e),
        }
    }

    /// Samples a possible index for the next state, in proportion to the
    /// current row's exit rates.
    pub fn sample_index(&mut self) -> (r: usize)
        requires
            old(self).well_formed(),
        ensures
            final(self).well_formed(),
            final(self).same_tables(old(self)),
            final(self).spec_matrix() == old(self).spec_matrix(),
            final(self).spec_space() == old(self).spec_space(),
            final(self).spec_index() == old(self).spec_index(),
            r < old(self).spec_nstates(),
            old(self).spec_matrix()[old(self).spec_index()][r as int] > 0,
    {
        self.transition_matrix_variables[self.state_index].sample(&mut self.rng)
    }

    /// The total exit rate of the current state: what governs the waiting
    /// period before the next jump.
    pub fn sample_clock_rate(&self) -> (r: u64)
        requires
            self.well_formed(),
        ensures
            r == row_total(self.spec_matrix()[self.spec_index()]),
    {
        self.transition_clock[self.state_index]
    }
}

impl<T: Clone + PartialEq + PartialEqSpec> State for ContFiniteMarkovChain<T> {
    type Item = T;

    /// Structurally well-formed, with a duplicate-free space over a type
    /// whose equality agrees with its specification.
    open spec fn spec_wf(&self) -> bool {
        &&& self.well_formed()
        &&& distinct_space(self.spec_space())
        &&& T::obeys_eq_spec()
    }

    open spec fn spec_state(&self) -> Option<T> {
        Some(self.spec_space()[self.spec_index()])
    }

    /// Legal assignments are exactly the values of the state space.
    open spec fn spec_valid_state(&self, value: T) -> bool {
        exists|j: int| 0 <= j < self.spec_nstates() && (#[trigger] self.spec_space()[j]).eq_spec(
            &value,
        )
    }

    fn state(&self) -> (r: Option<&T>)
        ensures
            r is Some,
    {
        Some(&self.state_space[self.state_index])
    }

    fn state_mut(&mut self) -> Option<&mut T> {
        Some(&mut self.state_space[self.state_index])
    }

    /// Looks the value up in the state space; moves the current index to
    /// the first match and hands the previous state back, or rejects the
    /// value untouched.
    #[verifier::loop_isolation(false)]
    fn set_state(&mut self, new_state: T) -> (r: Result<Option<T>, InvalidState<T>>)
        ensures
            final(self).same_tables(old(self)),
            final(self).spec_matrix() == old(self).spec_matrix(),
            final(self).spec_space() == old(self).spec_space(),
            0 <= final(self).spec_index() < final(self).spec_nstates(),
            r matches Ok(prev) ==> prev matches Some(p) && cloned::<T>(
                old(self).spec_space()[old(self).spec_index()],
                p,
            ) && final(self).spec_space()[final(self).spec_index()].eq_spec(&new_state),
    {
        let n = self.state_space.len();
        let mut j: usize = 0;
        while j < n
            invariant
                self == old(self),
                n == self.spec_space().len(),
                j <= n,
                T::obeys_eq_spec(),
                forall|a: int|
                    0 <= a < j ==> !(#[trigger] self.spec_space()[a]).eq_spec(&new_state),
            decreases n - j,
        {
            if self.state_space[j] == new_state {
                let previous = self.state_space[self.state_index].clone();
                self.state_index = j;
                return Ok(Some(previous));
            }
            j = j + 1;
        }
        Err(InvalidState::new(new_state))
    }
}

impl<T: Clone + PartialEq + PartialEqSpec> StateIterator for ContFiniteMarkovChain<T> {
    type Item = (u64, T);

    /// One jump: samples the next index from the current row, moves there
    /// and yields the new state's total exit rate with a copy of the new
    /// state. A transition is always available.
    fn next(&mut self) -> (r: Option<(u64, T)>)
        ensures
            final(self).same_tables(old(self)),
            final(self).spec_matrix() == old(self).spec_matrix(),
            final(self).spec_space() == old(self).spec_space(),
            0 <= final(self).spec_index() < final(self).spec_nstates(),
            old(self).spec_matrix()[old(self).spec_index()][final(self).spec_index()] > 0,
            r matches Some(pv) ==> pv.0 == row_total(
                final(self).spec_matrix()[final(self).spec_index()],
            ) && cloned::<T>(final(self).spec_space()[final(self).spec_index()], pv.1),
            r is Some,
    {
        self.state_index = self.sample_index();
        let rate = self.sample_clock_rate();
        Some((rate, self.state_space[self.state_index].clone()))
    }

    /// The current state, paired with its total exit rate.
    fn state_as_item(&self) -> (r: Option<(u64, T)>)
        ensures
            r matches Some(pv) ==> cloned::<T>(self.spec_space()[self.spec_index()], pv.1),
            r is Some,
    {
        let rate = self.sample_clock_rate();
        Some((rate, self.state_space[self.state_index].clone()))
    }

    /// The current state first, then the next `steps` jumps in order.
    #[verifier::loop_isolation(false)]
    fn trajectory(&mut self, steps: usize) -> (r: Vec<(u64, T)>)
        ensures
            r@.len() == steps + 1,
            final(self).same_tables(old(self)),
            final(self).spec_matrix() == old(self).spec_matrix(),
            final(self).spec_space() == old(self).spec_space(),
            cloned::<T>(old(self).spec_space()[old(self).spec_index()], r@[0].1),
    {
        let mut out: Vec<(u64, T)> = Vec::new();
        let rate = self.sample_clock_rate();
        out.push((rate, self.state_space[self.state_index].clone()));
        let mut i: usize = 0;
        while i < steps
            invariant
                out@.len() == i + 1,
                i <= steps,
                self.spec_wf(),
                self.same_tables(old(self)),
                cloned::<T>(old(self).spec_space()[old(self).spec_index()], out@[0].1),
            decreases steps - i,
        {
            match self.next() {
                Some(item) => {
                    out.push(item);
                },
                None => {
                },
            }
            i = i + 1;
        }
        out
    }
}

impl<T: Clone + PartialEq + PartialEqSpec> CMarkovChainTrait for ContFiniteMarkovChain<T> {

}

impl<T: Clone + PartialEq + PartialEqSpec> RandomIterator<Pcg32Source> for ContFiniteMarkovChain<
    T,
> {
    type Item = (u64, T);

    /// Samples a possible jump without moving the chain itself: a
    /// well-formed chain always produces a member of its state space,
    /// together with that state's total exit rate.
    fn sample_next(&self, rng: &mut Pcg32Source) -> (r: Option<(u64, T)>)
        ensures
            self.well_formed() ==> r is Some,
            r matches Some(pv) ==> exists|k: int|
                0 <= k < self.spec_space().len() && cloned::<T>(
                    #[trigger] self.spec_space()[k],
                    pv.1,
                ),
    {
        if self.state_index < self.transition_matrix_variables.len() {
            let k = self.transition_matrix_variables[self.state_index].sample(rng);
            if k < self.state_space.len() && k < self.transition_clock.len() {
                let rate = self.transition_clock[k];
                let value = self.state_space[k].clone();
                proof {
                    assert(cloned::<T>(self.spec_space()[k as int], value));
                }
                return Some((rate, value));
            }
        }
        None
    }
}

} // verus!
