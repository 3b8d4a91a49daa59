//! Replace-range: removes the elements a range addresses and inserts
//! replacement elements in their place, refusing upfront — before any
//! mutation — exactly when the range covers the whole container and the
//! replacement is empty.

use vstd::prelude::*;

use crate::container::Size0Error;
use crate::container::Vec1;
use crate::ranges::IdxRange;
use crate::ranges::RangeBound;
use crate::ranges::range_covers_vec1;

verus! {

/// The elements removed by a successful [`Vec1::splice`], consumable from
/// either end.
#[derive(Debug)]
pub struct Splice<T> {
    pub(crate) removed: Vec<T>,
}

impl<T> View for Splice<T> {
    type V = Seq<T>;

    open(crate) spec fn view(&self) -> Seq<T> {
        self.removed@
    }
}

impl<T> Splice<T> {
    /// Takes the next removed element from the front, if any is left.
    pub fn next(&mut self) -> (r: Option<T>)
        ensures
            old(self)@.len() > 0 ==> r == Some(old(self)@.first()) && final(self)@ == old(
                self,
            )@.drop_first(),
            old(self)@.len() == 0 ==> r == None::<T> && final(self)@ == old(self)@,
    {
        if self.removed.len() > 0 {
            let v = self.removed.remove(0);
            assert(self.removed@ =~= old(self)@.drop_first());
            Some(v)
        } else {
            None
        }
    }

    /// Takes the next removed element from the back, if any is left.
    pub fn next_back(&mut self) -> (r: Option<T>)
        ensures
            old(self)@.len() > 0 ==> r == Some(old(self)@.last()) && final(self)@ == old(
                self,
            )@.drop_last(),
            old(self)@.len() == 0 ==> r == None::<T> && final(self)@ == old(self)@,
    {
        self.removed.pop()
    }

    /// How many removed elements are left: an exact count, given as the
    /// usual lower-and-upper-bound pair.
    pub fn size_hint(&self) -> (r: (usize, Option<usize>))
        ensures
            r.0 == self@.len(),
            r.1 == Some(r.0),
    {
        (self.removed.len(), Some(self.removed.len()))
    }

    /// How many removed elements are left.
    pub fn len(&self) -> (r: usize)
        ensures
            r == self@.len(),
    {
        self.removed.len()
    }

    /// All removed elements that are left, in order, as a plain `Vec`.
    pub fn into_vec(self) -> (r: Vec<T>)
        ensures
            r@ == self@,
    {
        self.removed
    }
}

impl<T> Vec1<T> {
    /// Removes the elements addressed by `range` and inserts the elements
    /// of `replace_with` in their place, returning the removed elements.
    ///
    /// Fails, changing nothing, if and only if the range covers the whole
    /// container and the replacement is empty, since committing would
    /// leave a length of zero.
    pub fn splice(&mut self, range: IdxRange, replace_with: Vec<T>) -> (r: Result<
        Splice<T>,
        Size0Error,
    >)
        requires
            old(self).wf(),
            range.spec_covers_all(old(self)@.len() as int) && replace_with@.len() == 0
                || range.spec_valid_for(old(self)@.len() as int),
        ensures
            final(self).wf(),
            r matches Err(_) <==> range.spec_covers_all(old(self)@.len() as int)
                && replace_with@.len() == 0,
            r matches Err(_) ==> final(self)@ == old(self)@,
            r matches Ok(s) ==> {
                &&& s@ == old(self)@.subrange(
                    range.spec_first_index(),
                    range.spec_end_index(old(self)@.len() as int),
                )
                &&& final(self)@ == old(self)@.subrange(0, range.spec_first_index())
                    + replace_with@ + old(self)@.subrange(
                    range.spec_end_index(old(self)@.len() as int),
                    old(self)@.len() as int,
                )
            },
    {
        let len = self.0.len();
        let covers_all = range_covers_vec1(&range, len);
        if covers_all && replace_with.is_empty() {
            return Err(Size0Error);
        }
        let start: usize = match range.start {
            RangeBound::Included(i) => i,
            RangeBound::Excluded(i) => i + 1,
            RangeBound::Unbounded => 0,
        };
        let end: usize = match range.end {
            RangeBound::Included(i) => i + 1,
            RangeBound::Excluded(i) => i,
            RangeBound::Unbounded => len,
        };
        let mut tail = self.0.split_off(end);
        let removed = self.0.split_off(start);
        let mut repl = replace_with;
        self.0.append(&mut repl);
        self.0.append(&mut tail);
        assert(self.0@.len() >= 1);
        Ok(Splice { removed })
    }
}

} // verus!
