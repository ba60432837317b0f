//! Bridge to the alias-method sampler of the `rand_distr` crate.
//!
//! A row of transition weights is preprocessed once into an alias structure
//! that supports O(1) sampling of the next index. The structure itself is
//! opaque here; [`alias_weights`] names the row it was built from, and the
//! wrappers state what construction and sampling do in terms of that row.

use crate::errors::ConstructionError;
use crate::random::Pcg32Source;
use rand_distr::weighted_alias::WeightedAliasIndex;
use vstd::prelude::*;

verus! {

/// A preprocessed row of transition weights, sampled in O(1) by the alias
/// method. The structure is opaque to verification; [`alias_weights`] names
/// the row it was built from.
#[verifier::external_body]
pub struct AliasTable {
    table: WeightedAliasIndex<u64>,
}

/// The row of weights an alias structure was built from.
pub uninterp spec fn alias_weights(v: AliasTable) -> Seq<u64>;

/// The total weight of a row.
pub open spec fn row_total(s: Seq<u64>) -> int
    decreases s.len(),
{
    if s.len() == 0 {
        0
    } else {
        s[0] + row_total(s.drop_first())
    }
}

/// A row the alias sampler accepts: non-empty, indexable by `u32`, with a
/// positive total, and with every weight small enough that normalising the
/// row cannot overflow.
pub open spec fn valid_alias_row(s: Seq<u64>) -> bool {
    &&& 1 <= s.len() <= u32::MAX
    &&& (forall|i: int| 0 <= i < s.len() ==> #[trigger] s[i] <= (u64::MAX as int) / (
    s.len() as int))
    &&& row_total(s) > 0
}

/// The error an invalid row is rejected with, in the order the sampler
/// checks its conditions.
pub open spec fn row_error(s: Seq<u64>) -> ConstructionError {
    if s.len() == 0 {
        ConstructionError::EmptyRow
    } else if s.len() > u32::MAX {
        ConstructionError::TooManyColumns
    } else if exists|i: int| 0 <= i < s.len() && #[trigger] s[i] > (u64::MAX as int) / (
    s.len() as int) {
        ConstructionError::WeightTooLarge
    } else {
        ConstructionError::ZeroRowSum
    }
}

impl AliasTable {
    /// Relies on `rand_distr::weighted_alias::WeightedAliasIndex::new`,
    /// which accepts exactly the rows of [`valid_alias_row`] and rejects
    /// the others in the order of [`row_error`]: empty rows, rows longer
    /// than `u32::MAX`, rows with a weight above `u64::MAX / len`, and
    /// rows of total zero.
    #[verifier::external_body]
    pub(crate) fn new(weights: &Vec<u64>) -> (r: Result<AliasTable, ConstructionError>)
        ensures
            r is Ok <==> valid_alias_row(weights@),
            r matches Ok(v) ==> alias_weights(v) == weights@,
            r matches Err(e) ==> e == row_error(weights@),
    {
        match WeightedAliasIndex::new(weights.clone()) {
            Ok(table) => Ok(AliasTable { table }),
            Err(rand::distributions::WeightedError::NoItem) => Err(ConstructionError::EmptyRow),
            Err(rand::distributions::WeightedError::TooMany) => Err(
                ConstructionError::TooManyColumns,
            ),
            Err(rand::distributions::WeightedError::InvalidWeight) => Err(
                ConstructionError::WeightTooLarge,
            ),
            Err(rand::distributions::WeightedError::AllWeightsZero) => Err(
                ConstructionError::ZeroRowSum,
            ),
        }
    }

    /// Relies on `WeightedAliasIndex`'s `sample`, which returns an index
    /// into the row it was built from, and only ever one whose weight is
    /// positive: with integer weights the alias table is exact, zero-weight
    /// entries keep zero odds and alias entries only point at entries of
    /// positive weight. [`AliasTable::new`] is the only way to build a
    /// table, so every table comes from a row the sampler accepted.
    #[verifier::external_body]
    pub(crate) fn sample(&self, src: &mut Pcg32Source) -> (r: usize)
        ensures
            r < alias_weights(*self).len(),
            alias_weights(*self)[r as int] > 0,
    {
        rand_distr::Distribution::sample(&self.table, &mut src.rng)
    }
}

/// Every weight of a valid row stays under its row's normalising bound, so
/// the row's total fits the weight type.
pub proof fn lemma_row_total_bound(s: Seq<u64>, cap: int)
    requires
        forall|i: int| 0 <= i < s.len() ==> #[trigger] s[i] <= cap,
        cap >= 0,
    ensures
        0 <= row_total(s) <= s.len() * cap,
    decreases s.len(),
{
    if s.len() > 0 {
        assert(forall|i: int|
            0 <= i < s.drop_first().len() ==> #[trigger] s.drop_first()[i] <= cap);
        lemma_row_total_bound(s.drop_first(), cap);
        assert((s.len() - 1) * cap + cap == s.len() * cap) by (nonlinear_arith);
    }
}

} // verus!
