//! A growable vector that is statically guaranteed to hold at least one
//! element.
//!
//! [`Vec1<T>`] owns an ordinary `Vec<T>` and re-exposes its operations so
//! that the length can never be observed below one: operations that cannot
//! shrink the vector are forwarded unchanged, while every operation that
//! could empty it is offered only in a checked `try_` form returning
//! [`Size0Error`] instead of committing the mutation.

mod ascii;
mod container;
mod convert;
mod dedup;
mod fallible;
mod laws;
mod mapping;
mod ranges;
mod splice;

pub use ascii::ascii_lower;
pub use ascii::ascii_upper;
pub use container::Size0Error;
pub use container::Vec1;
pub use container::spec_try_from;
pub use dedup::dedup_seq;
pub use dedup::is_dedup_by_key_of;
pub use dedup::is_dedup_by_of;
pub use dedup::is_subseq_of;
pub use dedup::key_dup_possible;
pub use laws::lemma_dedup_by_key_never_empties;
pub use laws::lemma_dedup_by_never_empties;
pub use laws::lemma_dedup_never_empties;
pub use laws::lemma_round_trip;
pub use mapping::some_call_errs;
pub use ranges::IdxRange;
pub use ranges::RangeBound;
pub use ranges::range_covers_vec1;
pub use ranges::range_covers_vec_end;
pub use ranges::range_covers_vec_start;
pub use splice::Splice;
