//! The fallible mutation surface: every operation that could reduce the
//! length to zero is exposed only in a checked form. The mutation is
//! committed if and only if the length stays at least one afterwards;
//! otherwise nothing is changed and [`Size0Error`] is returned.

use vstd::prelude::*;

use crate::container::Size0Error;
use crate::container::Vec1;

verus! {

impl<T> Vec1<T> {
    /// Truncates to the given length. Fails, changing nothing, if and only
    /// if `len` is zero; lengths above the current one leave the vector
    /// unchanged, as on `Vec`.
    pub fn try_truncate(&mut self, len: usize) -> (r: Result<(), Size0Error>)
        requires
            old(self).wf(),
        ensures
            final(self).wf(),
            r matches Ok(()) <==> len >= 1,
            r matches Ok(()) && len <= old(self)@.len() ==> final(self)@ == old(self)@.subrange(
                0,
                len as int,
            ),
            r matches Ok(()) && len > old(self)@.len() ==> final(self)@ == old(self)@,
            r matches Err(_) ==> final(self)@ == old(self)@,
    {
        if len > 0 {
            self.0.truncate(len);
            Ok(())
        } else {
            Err(Size0Error)
        }
    }

    /// Removes the element at `index` and returns it, moving the last
    /// element into its place. Fails, changing nothing, if and only if the
    /// length is one.
    pub fn try_swap_remove(&mut self, index: usize) -> (r: Result<T, Size0Error>)
        requires
            old(self).wf(),
            old(self)@.len() > 1 ==> index < old(self)@.len(),
        ensures
            final(self).wf(),
            r matches Ok(v) <==> old(self)@.len() > 1,
            r matches Ok(v) ==> v == old(self)@[index as int] && final(self)@ == old(
                self,
            )@.update(index as int, old(self)@.last()).drop_last(),
            r matches Err(_) ==> final(self)@ == old(self)@,
    {
        if self.0.len() > 1 {
            Ok(self.0.swap_remove(index))
        } else {
            Err(Size0Error)
        }
    }

    /// Removes the element at `index` and returns it, shifting everything
    /// after it to the left. Fails, changing nothing, if and only if the
    /// length is one.
    pub fn try_remove(&mut self, index: usize) -> (r: Result<T, Size0Error>)
        requires
            old(self).wf(),
            old(self)@.len() > 1 ==> index < old(self)@.len(),
        ensures
            final(self).wf(),
            r matches Ok(v) <==> old(self)@.len() > 1,
            r matches Ok(v) ==> v == old(self)@[index as int] && final(self)@ == old(
                self,
            )@.remove(index as int),
            r matches Err(_) ==> final(self)@ == old(self)@,
    {
        if self.0.len() > 1 {
            Ok(self.0.remove(index))
        } else {
            Err(Size0Error)
        }
    }

    /// Splits into two containers at `at`: `self` keeps `[0, at)`, the
    /// returned container holds `[at, len)`. Fails, changing nothing, if
    /// and only if either half would be empty.
    pub fn try_split_off(&mut self, at: usize) -> (r: Result<Vec1<T>, Size0Error>)
        requires
            old(self).wf(),
        ensures
            final(self).wf(),
            r matches Ok(v) <==> 0 < at < old(self)@.len(),
            r matches Ok(v) ==> {
                &&& v.wf()
                &&& final(self)@ == old(self)@.subrange(0, at as int)
                &&& v@ == old(self)@.subrange(at as int, old(self)@.len() as int)
            },
            r matches Err(_) ==> final(self)@ == old(self)@,
    {
        if at == 0 || at >= self.0.len() {
            Err(Size0Error)
        } else {
            let out = self.0.split_off(at);
            Ok(Vec1(out))
        }
    }

    /// Removes the last element and returns it. Fails, changing nothing,
    /// if and only if the length is one.
    pub fn try_pop(&mut self) -> (r: Result<T, Size0Error>)
        requires
            old(self).wf(),
        ensures
            final(self).wf(),
            r matches Ok(v) <==> old(self)@.len() > 1,
            r matches Ok(v) ==> v == old(self)@.last() && final(self)@ == old(self)@.drop_last(),
            r matches Err(_) ==> final(self)@ == old(self)@,
    {
        if self.0.len() > 1 {
            match self.0.pop() {
                Some(v) => Ok(v),
                None => Err(Size0Error),
            }
        } else {
            Err(Size0Error)
        }
    }

    /// Splits off the first element, consuming the container: the element
    /// together with the rest as a plain (possibly empty) `Vec`.
    pub fn split_off_first(self) -> (r: (T, Vec<T>))
        requires
            self.wf(),
        ensures
            r.0 == self@[0],
            r.1@ == self@.drop_first(),
    {
        let mut vec = self.0;
        let first = vec.remove(0);
        (first, vec)
    }

    /// Splits off the last element, consuming the container: the rest as a
    /// plain (possibly empty) `Vec` together with the element.
    pub fn split_off_last(self) -> (r: (Vec<T>, T))
        requires
            self.wf(),
        ensures
            r.0@ == self@.drop_last(),
            r.1 == self@.last(),
    {
        let mut vec = self.0;
        let i = vec.len() - 1;
        let last = vec.remove(i);
        assert(vec@ =~= self@.drop_last());
        (vec, last)
    }
}

impl<T: Clone> Vec1<T> {
    /// Resizes to `new_len`, cloning `value` into every newly created
    /// slot. Fails, changing nothing, if and only if `new_len` is zero.
    pub fn try_resize(&mut self, new_len: usize, value: T) -> (r: Result<(), Size0Error>)
        requires
            old(self).wf(),
        ensures
            final(self).wf(),
            r matches Ok(()) <==> new_len >= 1,
            r matches Ok(()) && new_len <= old(self)@.len() ==> final(self)@ == old(
                self,
            )@.subrange(0, new_len as int),
            r matches Ok(()) && new_len > old(self)@.len() ==> {
                &&& final(self)@.len() == new_len
                &&& final(self)@.subrange(0, old(self)@.len() as int) == old(self)@
                &&& forall|i: int|
                    #![all_triggers]
                    old(self)@.len() <= i < new_len ==> cloned::<T>(value, final(self)@[i])
            },
            r matches Err(_) ==> final(self)@ == old(self)@,
    {
        if new_len >= 1 {
            self.0.resize(new_len, value);
            Ok(())
        } else {
            Err(Size0Error)
        }
    }
}

} // verus!
