//! Index ranges over the container, and the range-coverage predicate that
//! decides whether a range spans every index of a sequence of a given
//! length. Splicing consults it to detect upfront that removing a range
//! and inserting nothing would empty the container.

use vstd::prelude::*;

verus! {

/// One end of an index range: a bound that is inclusive, exclusive, or
/// absent.
#[derive(Clone, Copy, Debug, Eq, Hash, PartialEq, Structural)]
pub enum RangeBound {
    /// The bounded index itself belongs to the range.
    Included(usize),
    /// Everything strictly beyond the bounded index belongs to the range.
    Excluded(usize),
    /// The range extends to the end of the sequence on this side.
    Unbounded,
}

/// A half-open-or-unbounded index range, described by a start and an end
/// bound. Mirrors the range expressions `..`, `a..`, `..b`, `..=b` and
/// `a..b`.
#[derive(Clone, Copy, Debug, Eq, Hash, PartialEq, Structural)]
pub struct IdxRange {
    /// Where the range begins.
    pub start: RangeBound,
    /// Where the range ends.
    pub end: RangeBound,
}

impl IdxRange {
    /// The first index the range addresses.
    pub open spec fn spec_first_index(self) -> int {
        match self.start {
            RangeBound::Included(i) => i as int,
            RangeBound::Excluded(i) => i + 1,
            RangeBound::Unbounded => 0,
        }
    }

    /// One past the last index the range addresses, in a sequence of
    /// length `len`.
    pub open spec fn spec_end_index(self, len: int) -> int {
        match self.end {
            RangeBound::Included(i) => i + 1,
            RangeBound::Excluded(i) => i as int,
            RangeBound::Unbounded => len,
        }
    }

    /// Whether the range addresses a well-formed interval inside a
    /// sequence of length `len`; indexing with a range that is not is the
    /// backing vector's own out-of-bounds failure, not a refused
    /// operation.
    pub open spec fn spec_valid_for(self, len: int) -> bool {
        0 <= self.spec_first_index() <= self.spec_end_index(len) <= len
    }

    /// Whether the start bound covers index zero.
    pub open spec fn spec_covers_start(self) -> bool {
        match self.start {
            RangeBound::Included(i) => i == 0,
            RangeBound::Excluded(_) => false,
            RangeBound::Unbounded => true,
        }
    }

    /// Whether the end bound reaches the last index of a sequence of
    /// length `len`.
    pub open spec fn spec_covers_end(self, len: int) -> bool {
        match self.end {
            RangeBound::Included(i) => i >= len - 1,
            RangeBound::Excluded(i) => i >= len,
            RangeBound::Unbounded => true,
        }
    }

    /// Whether the range addresses every index of a sequence of length
    /// `len`.
    pub open spec fn spec_covers_all(self, len: int) -> bool {
        self.spec_covers_start() && self.spec_covers_end(len)
    }

    /// The full range `..`.
    pub fn full() -> (r: Self)
        ensures
            r.start == RangeBound::Unbounded,
            r.end == RangeBound::Unbounded,
    {
        IdxRange { start: RangeBound::Unbounded, end: RangeBound::Unbounded }
    }

    /// The range `start..`.
    pub fn starting_at(start: usize) -> (r: Self)
        ensures
            r.start == RangeBound::Included(start),
            r.end == RangeBound::Unbounded,
    {
        IdxRange { start: RangeBound::Included(start), end: RangeBound::Unbounded }
    }

    /// The range `..end`.
    pub fn up_to(end: usize) -> (r: Self)
        ensures
            r.start == RangeBound::Unbounded,
            r.end == RangeBound::Excluded(end),
    {
        IdxRange { start: RangeBound::Unbounded, end: RangeBound::Excluded(end) }
    }

    /// The range `..=end`.
    pub fn up_to_incl(end: usize) -> (r: Self)
        ensures
            r.start == RangeBound::Unbounded,
            r.end == RangeBound::Included(end),
    {
        IdxRange { start: RangeBound::Unbounded, end: RangeBound::Included(end) }
    }

    /// The range `start..end`.
    pub fn span(start: usize, end: usize) -> (r: Self)
        ensures
            r.start == RangeBound::Included(start),
            r.end == RangeBound::Excluded(end),
    {
        IdxRange { start: RangeBound::Included(start), end: RangeBound::Excluded(end) }
    }
}

/// Whether the start bound of `range` covers index zero: an exclusive
/// start bound never does, since no index precedes zero.
pub fn range_covers_vec_start(range: &IdxRange) -> (r: bool)
    ensures
        r == range.spec_covers_start(),
{
    match range.start {
        RangeBound::Included(idx) => idx == 0,
        RangeBound::Excluded(_) => false,
        RangeBound::Unbounded => true,
    }
}

/// Whether the end bound of `range` reaches the last index of a sequence
/// of length `len`. The container's invariant keeps `len` at one or more,
/// so the degenerate `len == 0` case never arises.
pub fn range_covers_vec_end(range: &IdxRange, len: usize) -> (r: bool)
    requires
        len >= 1,
    ensures
        r == range.spec_covers_end(len as int),
{
    match range.end {
        RangeBound::Included(idx) => idx >= len - 1,
        RangeBound::Excluded(idx) => idx >= len,
        RangeBound::Unbounded => true,
    }
}

/// Whether `range` addresses every index of a sequence of length `len`.
pub fn range_covers_vec1(range: &IdxRange, len: usize) -> (r: bool)
    requires
        len >= 1,
    ensures
        r == range.spec_covers_all(len as int),
{
    range_covers_vec_start(range) && range_covers_vec_end(range, len)
}

} // verus!
