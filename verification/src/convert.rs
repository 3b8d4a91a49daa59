//! Fallible constructors from other sequence-like sources, and infallible
//! conversions out. Every fallible constructor fails with [`Size0Error`]
//! if and only if the source holds no data.

use vstd::prelude::*;
use vstd::slice::slice_to_vec;
use vstd::utf8::encode_utf8;

use crate::container::Size0Error;
use crate::container::Vec1;

verus! {

impl<T> Vec1<T> {
    /// Tries to convert a `Vec<T>`; fails if and only if it is empty.
    pub fn try_from(vec: Vec<T>) -> (r: Result<Self, Size0Error>)
        ensures
            match r {
                Ok(v) => v.wf() && v@ == vec@ && vec@.len() >= 1,
                Err(_) => vec@.len() == 0,
            },
    {
        Vec1::try_from_vec(vec)
    }

    /// Tries to convert a boxed slice, adopting its storage; fails if and
    /// only if it is empty.
    pub fn try_from_boxed_slice(slice: Box<[T]>) -> (r: Result<Self, Size0Error>)
        ensures
            match r {
                Ok(v) => v.wf() && v@ == slice@ && slice@.len() >= 1,
                Err(_) => slice@.len() == 0,
            },
    {
        Vec1::try_from_vec(slice.into_vec())
    }

    /// Turns this `Vec1` into a boxed slice.
    pub fn into_boxed_slice(self) -> (r: Box<[T]>)
        ensures
            r@ == self@,
    {
        vec_into_boxed_slice(self.0)
    }

    /// Tries to convert a double-ended queue, keeping its front-to-back
    /// order; fails if and only if it is empty.
    pub fn try_from_vec_deque(deque: std::collections::VecDeque<T>) -> (r: Result<
        Self,
        Size0Error,
    >)
        ensures
            match r {
                Ok(v) => v.wf() && v@ == deque@ && deque@.len() >= 1,
                Err(_) => deque@.len() == 0,
            },
    {
        let mut src = deque;
        let mut out: Vec<T> = Vec::new();
        loop
            invariant
                out@ + src@ == deque@,
            ensures
                out@ == deque@,
            decreases src@.len(),
        {
            match src.pop_front() {
                Some(x) => out.push(x),
                None => {
                    proof {
                        assert(out@ + src@ =~= out@);
                    }
                    break ;
                },
            }
            proof {
                assert(out@ + src@ =~= deque@);
            }
        }
        Vec1::try_from_vec(out)
    }
}

impl<T: Clone> Vec1<T> {
    /// Tries to convert a borrowed slice, cloning every element; fails if
    /// and only if it is empty.
    pub fn try_from_slice(slice: &[T]) -> (r: Result<Self, Size0Error>)
        ensures
            match r {
                Ok(v) => {
                    &&& v.wf()
                    &&& v@.len() == slice@.len()
                    &&& slice@.len() >= 1
                    &&& forall|i: int|
                        #![trigger v@[i]]
                        0 <= i < slice@.len() ==> cloned::<T>(slice@[i], v@[i])
                },
                Err(_) => slice@.len() == 0,
            },
    {
        let mut out: Vec<T> = Vec::new();
        out.extend_from_slice(slice);
        Vec1::try_from_vec(out)
    }
}

impl Vec1<u8> {
    /// Tries to convert a string slice into its UTF-8 bytes; fails if and
    /// only if the string is empty.
    pub fn try_from_str(s: &str) -> (r: Result<Self, Size0Error>)
        ensures
            match r {
                Ok(v) => v.wf() && v@ == encode_utf8(s@) && encode_utf8(s@).len() >= 1,
                Err(_) => encode_utf8(s@).len() == 0,
            },
    {
        Vec1::try_from_vec(slice_to_vec(s.as_bytes()))
    }

    /// Tries to convert an owned string into its UTF-8 bytes; fails if and
    /// only if the string is empty.
    pub fn try_from_string(s: String) -> (r: Result<Self, Size0Error>)
        ensures
            match r {
                Ok(v) => v.wf() && v@ == encode_utf8(s@) && encode_utf8(s@).len() >= 1,
                Err(_) => encode_utf8(s@).len() == 0,
            },
    {
        Vec1::try_from_str(s.as_str())
    }
}

/// Relies on `Vec::into_boxed_slice`: it keeps the elements and their
/// order, only shedding excess capacity.
#[verifier::external_body]
fn vec_into_boxed_slice<T>(v: Vec<T>) -> (r: Box<[T]>)
    ensures
        r@ == v@,
{
    v.into_boxed_slice()
}

} // verus!
