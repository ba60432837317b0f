//! Branching process in the natural numbers 0, 1, 2, ...
//!
//! A branching process is characterized by an offspring density p over the
//! naturals. It can be thought of as the size of a population: at each time
//! step every individual leaves a number of descendants drawn independently
//! from p and dies, and the descendants form the next generation. The
//! resulting process is a Markov chain in the naturals.

use crate::distributions::Raw;
use crate::errors::InvalidState;
use crate::random::UniformSource;
use crate::traits::{MarkovChainTrait, RandomIterator, State, StateIterator};
use vstd::arithmetic::power::{lemma_pow_increases, pow};
use vstd::prelude::*;

verus! {

/// The first `k` terms of the generating function numerator: the sum of
/// `w * z^v` over the leading entries `(w, v)` of an offspring density,
/// with weights in parts of [`crate::random::PROB_SCALE`].
pub open spec fn gf_terms(s: Seq<(u64, u64)>, z: int, k: int) -> int
    decreases k,
{
    if k <= 0 {
        0
    } else {
        gf_terms(s, z, k - 1) + s[k - 1].0 * pow(z, s[k - 1].1 as nat)
    }
}

proof fn lemma_gf_terms_nonneg(s: Seq<(u64, u64)>, z: int, k: int)
    requires
        z >= 0,
        k <= s.len(),
    ensures
        gf_terms(s, z, k) >= 0,
    decreases k,
{
    if k > 0 {
        lemma_gf_terms_nonneg(s, z, k - 1);
        lemma_pow_nonneg(z, s[k - 1].1 as nat);
        vstd::arithmetic::mul::lemma_mul_nonnegative(s[k - 1].0 as int, pow(z, s[k - 1].1 as nat));
    }
}

proof fn lemma_pow_nonneg(z: int, e: nat)
    requires
        z >= 0,
    ensures
        pow(z, e) >= 0,
    decreases e,
{
    reveal(pow);
    if e > 0 {
        lemma_pow_nonneg(z, (e - 1) as nat);
        vstd::arithmetic::mul::lemma_mul_nonnegative(z, pow(z, (e - 1) as nat));
    }
}

/// Each single term is bounded by any later partial sum.
proof fn lemma_gf_terms_ge_term(s: Seq<(u64, u64)>, z: int, k: int, j: int)
    requires
        z >= 0,
        0 <= j < k <= s.len(),
    ensures
        gf_terms(s, z, k) >= s[j].0 * pow(z, s[j].1 as nat),
    decreases k,
{
    if j == k - 1 {
        lemma_gf_terms_nonneg(s, z, k - 1);
    } else {
        lemma_gf_terms_ge_term(s, z, k - 1, j);
        lemma_pow_nonneg(z, s[k - 1].1 as nat);
        vstd::arithmetic::mul::lemma_mul_nonnegative(s[k - 1].0 as int, pow(z, s[k - 1].1 as nat));
    }
}

/// Branching process in the natural numbers.
///
/// Bundles a population count, an offspring distribution and a randomness
/// source. Each step draws one offspring count per current individual and
/// replaces the population by their sum; a population of zero stays zero
/// forever.
#[derive(Clone, Debug)]
pub struct BranchingProcess<D, R> {
    state: u64,
    base_distribution: D,
    rng: R,
}

impl<D, R> BranchingProcess<D, R> {
    /// The current population count.
    pub closed spec fn spec_current(&self) -> u64 {
        self.state
    }

    /// The offspring distribution.
    pub closed spec fn spec_base(&self) -> D {
        self.base_distribution
    }
}

impl<D, R> BranchingProcess<D, R> where D: RandomIterator<R, Item = u64>, R: UniformSource {
    pub fn new(state: u64, base_distribution: D, rng: R) -> (r: Self)
        ensures
            r.spec_current() == state,
            r.spec_base() == base_distribution,
    {
        BranchingProcess { state, base_distribution, rng }
    }

    /// Draws `count` offspring counts and adds them up, or reports that a
    /// draw failed or that the sum left the naturals the machine has.
    fn sum_of_draws(&mut self, count: u64) -> (r: Option<u64>)
        ensures
            final(self).spec_current() == old(self).spec_current(),
            final(self).spec_base() == old(self).spec_base(),
            count == 0 ==> r == Some(0u64),
    {
        let mut drawn: u64 = 0;
        let mut acc: u64 = 0;
        while drawn < count
            invariant
                drawn <= count,
                count == 0 ==> acc == 0,
                self.spec_current() == old(self).spec_current(),
                self.spec_base() == old(self).spec_base(),
            decreases count - drawn,
        {
            match self.base_distribution.sample_next(&mut self.rng) {
                Some(offspring) => {
                    match acc.checked_add(offspring) {
                        Some(sum) => {
                            acc = sum;
                        },
                        None => {
                            return None;
                        },
                    }
                },
                None => {
                    return None;
                },
            }
            drawn = drawn + 1;
        }
        Some(acc)
    }
}

impl<D, R> State for BranchingProcess<D, R> {
    type Item = u64;

    /// The branching process has no internal invariant.
    open spec fn spec_wf(&self) -> bool {
        true
    }

    open spec fn spec_state(&self) -> Option<u64> {
        Some(self.spec_current())
    }

    /// Every natural number is a legal population count.
    open spec fn spec_valid_state(&self, value: u64) -> bool {
        true
    }

    fn state(&self) -> (r: Option<&u64>)
        ensures
            r is Some,
    {
        Some(&self.state)
    }

    fn state_mut(&mut self) -> Option<&mut u64> {
        Some(&mut self.state)
    }

    fn set_state(&mut self, new_state: u64) -> (r: Result<Option<u64>, InvalidState<u64>>)
        ensures
            final(self).spec_current() == new_state,
            final(self).spec_base() == old(self).spec_base(),
            r == Result::<Option<u64>, InvalidState<u64>>::Ok(Some(old(self).spec_current())),
    {
        let previous = self.state;
        self.state = new_state;
        Ok(Some(previous))
    }
}

impl<D, R> StateIterator for BranchingProcess<D, R> where
    D: RandomIterator<R, Item = u64>,
    R: UniformSource,
 {
    type Item = u64;

    /// One generation: the sum of one offspring draw per current
    /// individual becomes the new population. A population of zero stays
    /// zero. `None` reports a failed draw or an overflowing sum, and
    /// leaves the population unchanged.
    fn next(&mut self) -> (r: Option<u64>)
        ensures
            final(self).spec_base() == old(self).spec_base(),
            old(self).spec_current() == 0 ==> r == Some(0u64),
            r matches Some(v) ==> final(self).spec_current() == v,
            r is None ==> final(self).spec_current() == old(self).spec_current(),
    {
        let count = self.state;
        match self.sum_of_draws(count) {
            Some(total) => {
                self.state = total;
                Some(total)
            },
            None => None,
        }
    }

    fn state_as_item(&self) -> (r: Option<u64>)
        ensures
            r == Some(self.spec_current()),
    {
        Some(self.state)
    }

    /// The current population first, then the next `steps` generation
    /// sizes in order, cut short only if a draw fails.
    #[verifier::loop_isolation(false)]
    fn trajectory(&mut self, steps: usize) -> (r: Vec<u64>)
        ensures
            1 <= r@.len() <= steps + 1,
            r@[0] == old(self).spec_current(),
            final(self).spec_base() == old(self).spec_base(),
    {
        let mut out: Vec<u64> = Vec::new();
        out.push(self.state);
        let mut i: usize = 0;
        while i < steps
            invariant
                1 <= out@.len() <= i + 1,
                i <= steps,
                out@[0] == old(self).spec_current(),
                self.spec_base() == old(self).spec_base(),
            decreases steps - i,
        {
            match self.next() {
                Some(item) => {
                    out.push(item);
                },
                None => {
                    return out;
                },
            }
            i = i + 1;
        }
        out
    }
}

impl<D, R> MarkovChainTrait for BranchingProcess<D, R> where
    D: RandomIterator<R, Item = u64>,
    R: UniformSource,
 {

}

impl<D, R> RandomIterator<R> for BranchingProcess<D, R> where
    D: RandomIterator<R, Item = u64>,
    R: UniformSource,
 {
    type Item = u64;

    /// Samples a possible next population without moving the process: the
    /// sum of one offspring draw per current individual, so an extinct
    /// population always yields zero.
    fn sample_next(&self, rng: &mut R) -> (r: Option<u64>)
        ensures
            self.spec_current() == 0 ==> r == Some(0u64),
    {
        let count = self.state;
        let mut drawn: u64 = 0;
        let mut acc: u64 = 0;
        while drawn < count
            invariant
                drawn <= count,
                count == self.spec_current(),
                count == 0 ==> acc == 0,
            decreases count - drawn,
        {
            match self.base_distribution.sample_next(rng) {
                Some(offspring) => {
                    match acc.checked_add(offspring) {
                        Some(sum) => {
                            acc = sum;
                        },
                        None => {
                            return None;
                        },
                    }
                },
                None => {
                    return None;
                },
            }
            drawn = drawn + 1;
        }
        Some(acc)
    }
}

/// Raises `z` to the power `e`, or reports that the result does not fit.
#[verifier::loop_isolation(false)]
fn pow_u128_checked(z: u64, e: u64) -> (r: Option<u128>)
    ensures
        r matches Some(v) ==> v as int == pow(z as int, e as nat),
        r is None ==> pow(z as int, e as nat) > u128::MAX,
{
    let mut result: u128 = 1;
    let mut k: u64 = 0;
    proof {
        vstd::arithmetic::power::lemma_pow0(z as int);
    }
    while k < e
        invariant
            k <= e,
            result as int == pow(z as int, k as nat),
        decreases e - k,
    {
        match result.checked_mul(z as u128) {
            Some(next) => {
                proof {
                    assert(pow(z as int, (k + 1) as nat) == pow(z as int, k as nat) * (
                    z as int)) by {
                        vstd::arithmetic::power::lemma_pow_adds(z as int, k as nat, 1nat);
                        vstd::arithmetic::power::lemma_pow1(z as int);
                    }
                }
                result = next;
            },
            None => {
                proof {
                    assert(result * (z as int) > u128::MAX);
                    if z == 0 {
                        assert(result * (0int) == 0);
                    }
                    if z == 1 {
                        assert(result * (1int) == result);
                    }
                    assert(pow(z as int, (k + 1) as nat) == pow(z as int, k as nat) * (
                    z as int)) by {
                        vstd::arithmetic::power::lemma_pow_adds(z as int, k as nat, 1nat);
                        vstd::arithmetic::power::lemma_pow1(z as int);
                    }
                    lemma_pow_increases(z as nat, (k + 1) as nat, e as nat);
                }
                return None;
            },
        }
        k = k + 1;
    }
    Some(result)
}

impl<R> BranchingProcess<Raw<u64>, R> {
    /// Uses the first `approx_level` listed terms of the offspring density
    /// to evaluate the generating function sum of `w * z^v` at the natural
    /// number `z`, in parts of [`crate::random::PROB_SCALE`].
    ///
    /// The approximation converges to the true generating function value
    /// as `approx_level` grows and is exact once the level covers the
    /// density's full support. `None` reports a value that does not fit
    /// the machine's integers.
    #[verifier::loop_isolation(false)]
    pub fn approx_generating_fun(&self, z: u64, approx_level: usize) -> (r: Option<u128>)
        ensures
            ({
                let terms = if approx_level <= self.spec_base()@.len() {
                    approx_level as int
                } else {
                    self.spec_base()@.len() as int
                };
                &&& (r matches Some(v) ==> v as int == gf_terms(self.spec_base()@, z as int, terms))
                &&& (r is None ==> gf_terms(self.spec_base()@, z as int, terms) > u128::MAX)
            }),
    {
        let ghost s = self.spec_base()@;
        let len = self.base_distribution.len();
        let limit = if approx_level <= len {
            approx_level
        } else {
            len
        };
        let ghost terms = limit as int;
        let mut acc: u128 = 0;
        let mut k: usize = 0;
        while k < limit
            invariant
                k <= limit,
                acc as int == gf_terms(s, z as int, k as int),
            decreases limit - k,
        {
            let entry = *self.base_distribution.entry(k);
            let (weight, value) = entry;
            if weight > 0 {
                match pow_u128_checked(z, value) {
                    Some(power_of_z) => {
                        match (weight as u128).checked_mul(power_of_z) {
                            Some(term) => {
                                match acc.checked_add(term) {
                                    Some(sum) => {
                                        acc = sum;
                                    },
                                    None => {
                                        proof {
                                            lemma_gf_overflow_partial(s, z as int, terms, k as int);
                                        }
                                        return None;
                                    },
                                }
                            },
                            None => {
                                proof {
                                    lemma_gf_overflow(s, z as int, terms, k as int);
                                }
                                return None;
                            },
                        }
                    },
                    None => {
                        proof {
                            lemma_pow_nonneg(z as int, value as nat);
                            assert((weight as int) * pow(z as int, value as nat) >= pow(
                                z as int,
                                value as nat,
                            )) by {
                                vstd::arithmetic::mul::lemma_mul_inequality(
                                    1,
                                    weight as int,
                                    pow(z as int, value as nat),
                                );
                            }
                            lemma_gf_overflow(s, z as int, terms, k as int);
                        }
                        return None;
                    },
                }
            } else {
                proof {
                    assert(s[k as int].0 == 0);
                    assert((0int) * pow(z as int, s[k as int].1 as nat) == 0);
                    assert(gf_terms(s, z as int, k + 1) == gf_terms(s, z as int, k as int));
                }
            }
            k = k + 1;
        }
        Some(acc)
    }
}

/// If the term at `k` is too large for the machine, so is the whole sum.
proof fn lemma_gf_overflow(s: Seq<(u64, u64)>, z: int, terms: int, k: int)
    requires
        z >= 0,
        0 <= k < terms <= s.len(),
    ensures
        gf_terms(s, z, terms) >= s[k].0 * pow(z, s[k].1 as nat),
{
    lemma_gf_terms_ge_term(s, z, terms, k);
}

/// If a partial sum with one more term is too large, so is the whole sum.
proof fn lemma_gf_overflow_partial(s: Seq<(u64, u64)>, z: int, terms: int, k: int)
    requires
        z >= 0,
        0 <= k < terms <= s.len(),
    ensures
        gf_terms(s, z, terms) >= gf_terms(s, z, k + 1),
    decreases terms,
{
    if terms > k + 1 {
        lemma_gf_overflow_partial(s, z, terms - 1, k);
        lemma_pow_nonneg(z, s[terms - 1].1 as nat);
        vstd::arithmetic::mul::lemma_mul_nonnegative(s[terms - 1].0 as int, pow(z, s[terms - 1].1 as nat));
    }
}

} // verus!
