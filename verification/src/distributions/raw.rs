//! Distribution given by an explicit list of (probability, value) pairs.

use crate::random::{UniformSource, PROB_SCALE};
use crate::traits::{DistributionOnce, RandomIterator, Transition};
use vstd::prelude::*;

verus! {

/// The total probability mass of a list of (probability, value) pairs, in
/// parts of [`PROB_SCALE`].
pub open spec fn total_mass<T>(s: Seq<(u64, T)>) -> int
    decreases s.len(),
{
    if s.len() == 0 {
        0
    } else {
        s[0].0 + total_mass(s.drop_first())
    }
}

/// The entry a uniform draw with numerator `u` selects by a cumulative scan:
/// the first index whose cumulative mass exceeds `u`, or `None` if the list
/// is exhausted before the cumulative mass reaches `u`.
pub open spec fn sample_index_spec<T>(s: Seq<(u64, T)>, u: int) -> Option<int>
    decreases s.len(),
{
    if s.len() == 0 {
        None
    } else if u < s[0].0 {
        Some(0)
    } else {
        match sample_index_spec(s.drop_first(), u - s[0].0) {
            Some(k) => Some(k + 1),
            None => None,
        }
    }
}

/// The scan selects an entry if and only if the draw lies under the total
/// mass: a list whose probabilities cover the unit interval never exhausts.
pub proof fn lemma_sample_index_iff<T>(s: Seq<(u64, T)>, u: int)
    requires
        u >= 0,
    ensures
        sample_index_spec(s, u) is Some <==> u < total_mass(s),
    decreases s.len(),
{
    if s.len() > 0 {
        lemma_total_mass_bound(s.drop_first());
        if u >= s[0].0 {
            lemma_sample_index_iff(s.drop_first(), u - s[0].0);
        }
    }
}

/// A selected entry always lies inside the list and carries positive
/// probability: the scan never selects a value listed with mass zero.
pub proof fn lemma_sample_index_in_support<T>(s: Seq<(u64, T)>, u: int)
    requires
        u >= 0,
        sample_index_spec(s, u) is Some,
    ensures
        0 <= sample_index_spec(s, u)->0 < s.len(),
        s[sample_index_spec(s, u)->0].0 > 0,
    decreases s.len(),
{
    if s.len() > 0 && u >= s[0].0 {
        lemma_sample_index_in_support(s.drop_first(), u - s[0].0);
    }
}

/// Distribution over a finite list of values.
///
/// A random variable is represented by a list of pairs `(P, T)`, where `P`
/// is the probability of the realization `T`, as a numerator over
/// [`PROB_SCALE`]. Sampling draws a uniform numerator `u` and scans the list
/// cumulatively, returning the first value whose cumulative mass exceeds
/// `u`; if the listed probabilities do not cover the whole unit interval the
/// scan can exhaust the list, which is reported as `None` and signals a
/// broken probability model.
///
/// Sample cost: O(list length). Construction cost: O(1).
#[derive(Clone, Debug, PartialEq)]
pub struct Raw<T> {
    entries: Vec<(u64, T)>,
}

impl<T> View for Raw<T> {
    type V = Seq<(u64, T)>;

    closed spec fn view(&self) -> Seq<(u64, T)> {
        self.entries@
    }
}

impl<T> Raw<T> {
    pub fn new(entries: Vec<(u64, T)>) -> (r: Self)
        ensures
            r@ == entries@,
    {
        Raw { entries }
    }

    /// The number of listed (probability, value) pairs.
    pub fn len(&self) -> (r: usize)
        ensures
            r == self@.len(),
    {
        self.entries.len()
    }

    /// The listed pair at position `k`.
    pub fn entry(&self, k: usize) -> (r: &(u64, T))
        requires
            k < self@.len(),
        ensures
            *r == self@[k as int],
    {
        &self.entries[k]
    }

    /// The deterministic core of sampling: the entry that the uniform draw
    /// numerator `u` selects by the cumulative scan.
    pub fn sample_with(&self, u: u64) -> (r: Option<usize>)
        ensures
            match r {
                Some(k) => sample_index_spec(self@, u as int) == Some(k as int),
                None => sample_index_spec(self@, u as int) is None,
            },
    {
        let ghost s = self@;
        let mut k: usize = 0;
        let mut acc: u128 = 0;
        proof {
            assert(s.take(0) =~= Seq::<(u64, T)>::empty());
            assert(s.skip(0) =~= s);
        }
        while k < self.entries.len()
            invariant
                0 <= k <= s.len(),
                s == self@,
                acc == total_mass(s.take(k as int)),
                acc <= u,
                sample_index_spec(s, u as int) == match sample_index_spec(
                    s.skip(k as int),
                    u - total_mass(s.take(k as int)),
                ) {
                    Some(j) => Some(j + k),
                    None => None::<int>,
                },
            decreases s.len() - k,
        {
            proof {
                lemma_total_mass_bound(s);
                lemma_total_take_succ(s, k as int);
                assert(s.skip(k as int) =~= seq![s[k as int]] + s.skip(k + 1));
                assert(s.skip(k as int).drop_first() =~= s.skip(k + 1));
            }
            let w = self.entries[k].0;
            if (u as u128) < acc + (w as u128) {
                return Some(k);
            }
            acc = acc + (w as u128);
            k = k + 1;
        }
        proof {
            assert(s.skip(s.len() as int) =~= Seq::<(u64, T)>::empty());
        }
        None
    }
}

/// The total mass of a list of pairs is non-negative and bounded by the
/// list's length times the largest weight a single entry can carry.
pub proof fn lemma_total_mass_bound<T>(s: Seq<(u64, T)>)
    ensures
        0 <= total_mass(s) <= s.len() * (u64::MAX as int),
    decreases s.len(),
{
    if s.len() > 0 {
        lemma_total_mass_bound(s.drop_first());
        assert((s.len() - 1) * (u64::MAX as int) + (u64::MAX as int) == s.len() * (
        u64::MAX as int)) by (nonlinear_arith);
    }
}

/// Scanning one more entry adds exactly that entry's mass.
pub proof fn lemma_total_take_succ<T>(s: Seq<(u64, T)>, k: int)
    requires
        0 <= k < s.len(),
    ensures
        total_mass(s.take(k + 1)) == total_mass(s.take(k)) + s[k].0,
    decreases k,
{
    if k == 0 {
        assert(s.take(1) =~= seq![s[0]]);
        assert(s.take(1).drop_first() =~= Seq::<(u64, T)>::empty());
        assert(s.take(0) =~= Seq::<(u64, T)>::empty());
    } else {
        lemma_total_take_succ(s.drop_first(), k - 1);
        assert(s.take(k + 1).drop_first() =~= s.drop_first().take(k));
        assert(s.take(k).drop_first() =~= s.drop_first().take(k - 1));
        assert(s.take(k + 1)[0] == s[0]);
        assert(s.take(k)[0] == s[0]);
    }
}

/// What a sampling call may hand back for a given draw numerator `u`:
/// a clone of the selected value where the scan selects one, and `None`
/// exactly where it exhausts the list.
pub open spec fn draw_outcome<T: Clone>(s: Seq<(u64, T)>, u: int, r: Option<T>) -> bool {
    match sample_index_spec(s, u) {
        Some(k) => r matches Some(v) && cloned::<T>(s[k].1, v),
        None => r is None,
    }
}

impl<T: Clone> Raw<T> {
    /// Draws a uniform numerator from the source and scans the list.
    ///
    /// Whatever the draw was, the result is a clone of a listed value with
    /// positive probability, and a list whose mass covers the whole unit
    /// interval never fails.
    pub fn sample<R: UniformSource>(&self, rng: &mut R) -> (r: Option<T>)
        ensures
            exists|u: int| 0 <= u < PROB_SCALE && #[trigger] draw_outcome(self@, u, r),
            total_mass(self@) >= PROB_SCALE ==> r is Some,
            r matches Some(v) ==> exists|k: int|
                0 <= k < self@.len() && (#[trigger] self@[k]).0 > 0 && cloned::<T>(self@[k].1, v),
    {
        let u = rng.next_draw();
        proof {
            lemma_sample_index_iff(self@, u as int);
            if sample_index_spec(self@, u as int) is Some {
                lemma_sample_index_in_support(self@, u as int);
            }
        }
        let r = match self.sample_with(u) {
            Some(k) => Some(self.entries[k].1.clone()),
            None => None,
        };
        proof {
            assert(draw_outcome(self@, u as int, r));
        }
        r
    }
}

impl<S, T: Clone, R: UniformSource> Transition<S, T, R> for Raw<T> {
    /// A state-independent transition policy: whatever the current state,
    /// the next output is drawn from this fixed list.
    fn sample_from(&self, state: &S, rng: &mut R) -> (r: Option<T>)
        ensures
            exists|u: int| 0 <= u < PROB_SCALE && #[trigger] draw_outcome(self@, u, r),
            total_mass(self@) >= PROB_SCALE ==> r is Some,
    {
        self.sample(rng)
    }
}

impl<T: Clone, R: UniformSource> DistributionOnce<T, R> for Raw<T> {
    /// A finite list can in fact be sampled repeatedly; consuming it for
    /// one draw is always sound.
    fn sample_once(self, rng: &mut R) -> (r: Option<T>)
        ensures
            exists|u: int| 0 <= u < PROB_SCALE && #[trigger] draw_outcome(self@, u, r),
            total_mass(self@) >= PROB_SCALE ==> r is Some,
    {
        self.sample(rng)
    }
}

impl<T: Clone, R: UniformSource> RandomIterator<R> for Raw<T> {
    type Item = T;

    /// Sampling leaves the list itself untouched; only the source advances.
    fn sample_next(&self, rng: &mut R) -> (r: Option<T>)
        ensures
            exists|u: int| 0 <= u < PROB_SCALE && #[trigger] draw_outcome(self@, u, r),
            total_mass(self@) >= PROB_SCALE ==> r is Some,
    {
        self.sample(rng)
    }
}

} // verus!
