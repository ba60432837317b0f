//! Distribution for the image of a pair of distributions under a function.

use crate::traits::RandomIterator;
use core::marker::PhantomData;
use vstd::prelude::*;

verus! {

/// `z` is an output the function's postcondition admits on some inputs.
pub open spec fn image_of_pair<S1, S2, T, F: Fn(S1, S2) -> T>(f: F, z: T) -> bool {
    exists|x: S1, y: S2| #[trigger] call_ensures(f, (x, y), z)
}

/// Applies a deterministic function to the paired outputs of two wrapped
/// distributions, each sampled independently from the same shared
/// randomness source.
///
/// Both operands are drawn from one source, so the order of sampling is
/// significant and fixed: the left operand is sampled before the right.
#[derive(Clone, Copy, Debug)]
#[verifier::reject_recursive_types(S1)]
#[verifier::reject_recursive_types(S2)]
#[verifier::reject_recursive_types(T)]
pub struct Binary<S1, S2, T, F, D1, D2> where F: Fn(S1, S2) -> T {
    func: F,
    distr_1: D1,
    distr_2: D2,
    phantom: PhantomData<(S1, S2, T)>,
}

impl<S1, S2, T, F, D1, D2> Binary<S1, S2, T, F, D1, D2> where F: Fn(S1, S2) -> T {
    /// The wrapped function.
    pub closed spec fn spec_func(&self) -> F {
        self.func
    }

    /// The left wrapped distribution, sampled first.
    pub closed spec fn spec_distr_1(&self) -> D1 {
        self.distr_1
    }

    /// The right wrapped distribution, sampled second.
    pub closed spec fn spec_distr_2(&self) -> D2 {
        self.distr_2
    }

    pub fn new(func: F, distr_1: D1, distr_2: D2) -> (r: Self)
        ensures
            r.spec_func() == func,
            r.spec_distr_1() == distr_1,
            r.spec_distr_2() == distr_2,
    {
        Binary { func, distr_1, distr_2, phantom: PhantomData }
    }

    /// Samples the left distribution, then the right, and applies the
    /// function to the pair; fails exactly when either draw does.
    pub fn sample<R>(&self, rng: &mut R) -> (r: Option<T>) where
        D1: RandomIterator<R, Item = S1>,
        D2: RandomIterator<R, Item = S2>,

        requires
            forall|x: S1, y: S2| call_requires(self.spec_func(), (x, y)),
        ensures
            r matches Some(z) ==> image_of_pair(self.spec_func(), z),
    {
        let left = self.distr_1.sample_next(rng);
        match left {
            Some(first) => {
                match self.distr_2.sample_next(rng) {
                    Some(second) => {
                        proof {
                            assert(call_requires(self.spec_func(), (first, second)));
                        }
                        let output = (self.func)(first, second);
                        proof {
                            assert(image_of_pair(self.spec_func(), output)) by {
                                assert(call_ensures(self.spec_func(), (first, second), output));
                            }
                        }
                        Some(output)
                    },
                    None => None,
                }
            },
            None => None,
        }
    }
}

} // verus!
