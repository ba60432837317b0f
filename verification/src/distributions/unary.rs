//! Distribution for the image of another distribution under a function.

use crate::traits::RandomIterator;
use core::marker::PhantomData;
use vstd::prelude::*;

verus! {

/// `y` is an output the function's postcondition admits on some input.
pub open spec fn image_of<S, T, F: Fn(S) -> T>(f: F, y: T) -> bool {
    exists|x: S| #[trigger] call_ensures(f, (x,), y)
}

/// Applies a deterministic function to the output of one wrapped
/// distribution.
#[derive(Clone, Copy, Debug)]
#[verifier::reject_recursive_types(S)]
#[verifier::reject_recursive_types(T)]
pub struct Unary<S, T, F, D> where F: Fn(S) -> T {
    func: F,
    distr: D,
    phantom: PhantomData<(S, T)>,
}

impl<S, T, F, D> Unary<S, T, F, D> where F: Fn(S) -> T {
    /// The wrapped function.
    pub closed spec fn spec_func(&self) -> F {
        self.func
    }

    /// The wrapped distribution.
    pub closed spec fn spec_distr(&self) -> D {
        self.distr
    }

    pub fn new(func: F, distr: D) -> (r: Self)
        ensures
            r.spec_func() == func,
            r.spec_distr() == distr,
    {
        Unary { func, distr, phantom: PhantomData }
    }

    /// Samples the wrapped distribution once and applies the function to
    /// the outcome; fails exactly when the wrapped distribution does.
    pub fn sample<R>(&self, rng: &mut R) -> (r: Option<T>) where D: RandomIterator<R, Item = S>
        requires
            forall|x: S| call_requires(self.spec_func(), (x,)),
        ensures
            r matches Some(y) ==> image_of(self.spec_func(), y),
    {
        match self.distr.sample_next(rng) {
            Some(input) => {
                proof {
                    assert(call_requires(self.spec_func(), (input,)));
                }
                let output = (self.func)(input);
                proof {
                    assert(image_of(self.spec_func(), output)) by {
                        assert(call_ensures(self.spec_func(), (input,), output));
                    }
                }
                Some(output)
            },
            None => None,
        }
    }
}

} // verus!
