//! Distributions: ways to describe how one realization is produced from a
//! randomness source.

pub use self::binary::image_of_pair;
pub use self::binary::Binary;
pub use self::raw::draw_outcome;
pub use self::raw::lemma_sample_index_iff;
pub use self::raw::lemma_sample_index_in_support;
pub use self::raw::lemma_total_mass_bound;
pub use self::raw::lemma_total_take_succ;
pub use self::raw::sample_index_spec;
pub use self::raw::total_mass;
pub use self::raw::Raw;
pub use self::unary::image_of;
pub use self::unary::Unary;

mod binary;
mod raw;
mod unary;
