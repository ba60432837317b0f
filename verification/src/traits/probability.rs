//! Probability marker.

use vstd::prelude::*;

verus! {

/// Marker for types that carry probability mass in this crate's fixed-point
/// representation: integer numerators over [`crate::random::PROB_SCALE`].
pub trait Probability {

}

impl Probability for u64 {

}

} // verus!
