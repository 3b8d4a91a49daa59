//! ASCII case mapping on byte containers, elementwise and
//! length-preserving.

use vstd::prelude::*;

use crate::container::Vec1;

verus! {

/// The ASCII uppercase of a byte: letters `a` to `z` move to `A` to `Z`,
/// everything else is unchanged.
pub open spec fn ascii_upper(b: u8) -> u8 {
    if 97 <= b <= 122 {
        (b - 32) as u8
    } else {
        b
    }
}

/// The ASCII lowercase of a byte: letters `A` to `Z` move to `a` to `z`,
/// everything else is unchanged.
pub open spec fn ascii_lower(b: u8) -> u8 {
    if 65 <= b <= 90 {
        (b + 32) as u8
    } else {
        b
    }
}

impl Vec1<u8> {
    /// Works like `<[u8]>::to_ascii_uppercase` but returns a `Vec1<u8>`
    /// instead of a `Vec<u8>`.
    pub fn to_ascii_uppercase(&self) -> (r: Vec1<u8>)
        requires
            self.wf(),
        ensures
            r.wf(),
            r@.len() == self@.len(),
            forall|i: int| #![trigger r@[i]] 0 <= i < self@.len() ==> r@[i] == ascii_upper(self@[i]),
    {
        let mut out: Vec<u8> = Vec::new();
        let mut j: usize = 0;
        while j < self.0.len()
            invariant
                j <= self@.len(),
                out@.len() == j,
                forall|i: int| #![trigger out@[i]] 0 <= i < j ==> out@[i] == ascii_upper(self@[i]),
            decreases self@.len() - j,
        {
            let b = self.0[j];
            if 97 <= b && b <= 122 {
                out.push(b - 32);
            } else {
                out.push(b);
            }
            j += 1;
        }
        Vec1(out)
    }

    /// Works like `<[u8]>::to_ascii_lowercase` but returns a `Vec1<u8>`
    /// instead of a `Vec<u8>`.
    pub fn to_ascii_lowercase(&self) -> (r: Vec1<u8>)
        requires
            self.wf(),
        ensures
            r.wf(),
            r@.len() == self@.len(),
            forall|i: int| #![trigger r@[i]] 0 <= i < self@.len() ==> r@[i] == ascii_lower(self@[i]),
    {
        let mut out: Vec<u8> = Vec::new();
        let mut j: usize = 0;
        while j < self.0.len()
            invariant
                j <= self@.len(),
                out@.len() == j,
                forall|i: int| #![trigger out@[i]] 0 <= i < j ==> out@[i] == ascii_lower(self@[i]),
            decreases self@.len() - j,
        {
            let b = self.0[j];
            if 65 <= b && b <= 90 {
                out.push(b + 32);
            } else {
                out.push(b);
            }
            j += 1;
        }
        Vec1(out)
    }
}

} // verus!
