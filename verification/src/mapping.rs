//! Mapping every element into a new container. These keep the knowledge
//! that the length is at least one, which is lost when the container is
//! turned into an iterator and collected again.

use vstd::prelude::*;

use crate::container::Vec1;

verus! {

/// Some element of `s` is one on which `map_fn` may answer `Err(e)`: the
/// shape of a failed fallible mapping.
pub open spec fn some_call_errs<T, N, E, F: Fn(T) -> Result<N, E>>(
    map_fn: F,
    s: Seq<T>,
    e: E,
) -> bool {
    exists|i: int| 0 <= i < s.len() && #[trigger] call_ensures(map_fn, (s[i],), Err(e))
}

impl<T> Vec1<T> {
    /// Creates a new `Vec1` by consuming `self` and mapping each element.
    pub fn mapped<N, F: Fn(T) -> N>(self, map_fn: F) -> (r: Vec1<N>)
        requires
            self.wf(),
            forall|i: int| 0 <= i < self@.len() ==> call_requires(map_fn, (self@[i],)),
        ensures
            r.wf(),
            r@.len() == self@.len(),
            forall|i: int|
                #![trigger r@[i]]
                0 <= i < self@.len() ==> call_ensures(map_fn, (self@[i],), r@[i]),
    {
        let ghost orig: Seq<T> = self@;
        let mut src = self.0;
        let mut out: Vec<N> = Vec::new();
        while src.len() > 0
            invariant
                out@.len() + src@.len() == orig.len(),
                src@ == orig.subrange(out@.len() as int, orig.len() as int),
                forall|i: int| 0 <= i < orig.len() ==> call_requires(map_fn, (orig[i],)),
                forall|i: int|
                    #![trigger out@[i]]
                    0 <= i < out@.len() ==> call_ensures(map_fn, (orig[i],), out@[i]),
            decreases src@.len(),
        {
            let ghost done = out@.len() as int;
            let x = src.remove(0);
            assert(x == orig[done]);
            out.push(map_fn(x));
            assert(src@ =~= orig.subrange(out@.len() as int, orig.len() as int));
        }
        Vec1(out)
    }

    /// Creates a new `Vec1` by mapping references to the elements of
    /// `self`.
    pub fn mapped_ref<N, F: Fn(&T) -> N>(&self, map_fn: F) -> (r: Vec1<N>)
        requires
            self.wf(),
            forall|i: int| 0 <= i < self@.len() ==> call_requires(map_fn, (&self@[i],)),
        ensures
            r.wf(),
            r@.len() == self@.len(),
            forall|i: int|
                #![trigger r@[i]]
                0 <= i < self@.len() ==> call_ensures(map_fn, (&self@[i],), r@[i]),
    {
        let mut out: Vec<N> = Vec::new();
        let mut j: usize = 0;
        while j < self.0.len()
            invariant
                j <= self@.len(),
                out@.len() == j,
                forall|i: int| 0 <= i < self@.len() ==> call_requires(map_fn, (&self@[i],)),
                forall|i: int|
                    #![trigger out@[i]]
                    0 <= i < j ==> call_ensures(map_fn, (&self@[i],), out@[i]),
            decreases self@.len() - j,
        {
            out.push(map_fn(&self.0[j]));
            j += 1;
        }
        Vec1(out)
    }

    /// Creates a new `Vec1` by consuming `self` and mapping each element
    /// to a `Result`; the first error a call returns is handed back and
    /// the container is dropped.
    #[verifier::loop_isolation(false)]
    pub fn try_mapped<N, E, F: Fn(T) -> Result<N, E>>(self, map_fn: F) -> (r: Result<Vec1<N>, E>)
        requires
            self.wf(),
            forall|i: int| 0 <= i < self@.len() ==> call_requires(map_fn, (self@[i],)),
        ensures
            r matches Ok(v) ==> {
                &&& v.wf()
                &&& v@.len() == self@.len()
                &&& forall|i: int|
                    #![trigger v@[i]]
                    0 <= i < self@.len() ==> call_ensures(map_fn, (self@[i],), Ok(v@[i]))
            },
            r matches Err(e) ==> some_call_errs(map_fn, self@, e),
    {
        let ghost orig: Seq<T> = self@;
        let mut src = self.0;
        let mut out: Vec<N> = Vec::new();
        while src.len() > 0
            invariant
                out@.len() + src@.len() == orig.len(),
                src@ == orig.subrange(out@.len() as int, orig.len() as int),
                forall|i: int| 0 <= i < orig.len() ==> call_requires(map_fn, (orig[i],)),
                forall|i: int|
                    #![trigger out@[i]]
                    0 <= i < out@.len() ==> call_ensures(map_fn, (orig[i],), Ok(out@[i])),
            decreases src@.len(),
        {
            let ghost done = out@.len() as int;
            let x = src.remove(0);
            assert(x == orig[done]);
            match map_fn(x) {
                Ok(n) => out.push(n),
                Err(e) => {
                    proof {
                        assert(call_ensures(map_fn, (orig[done],), Err::<N, E>(e)));
                        assert(some_call_errs(map_fn, orig, e));
                    }
                    return Err(e);
                },
            }
            assert(src@ =~= orig.subrange(out@.len() as int, orig.len() as int));
        }
        Ok(Vec1(out))
    }

    /// Creates a new `Vec1` by mapping references to the elements of
    /// `self` to `Result`s; the first error a call returns is handed back.
    pub fn try_mapped_ref<N, E, F: Fn(&T) -> Result<N, E>>(&self, map_fn: F) -> (r: Result<
        Vec1<N>,
        E,
    >)
        requires
            self.wf(),
            forall|i: int| 0 <= i < self@.len() ==> call_requires(map_fn, (&self@[i],)),
        ensures
            r matches Ok(v) ==> {
                &&& v.wf()
                &&& v@.len() == self@.len()
                &&& forall|i: int|
                    #![trigger v@[i]]
                    0 <= i < self@.len() ==> call_ensures(map_fn, (&self@[i],), Ok(v@[i]))
            },
            r matches Err(e) ==> exists|i: int|
                #![trigger self@[i]]
                0 <= i < self@.len() && call_ensures(map_fn, (&self@[i],), Err(e)),
    {
        let mut out: Vec<N> = Vec::new();
        let mut j: usize = 0;
        while j < self.0.len()
            invariant
                j <= self@.len(),
                out@.len() == j,
                forall|i: int| 0 <= i < self@.len() ==> call_requires(map_fn, (&self@[i],)),
                forall|i: int|
                    #![trigger out@[i]]
                    0 <= i < j ==> call_ensures(map_fn, (&self@[i],), Ok(out@[i])),
            decreases self@.len() - j,
        {
            match map_fn(&self.0[j]) {
                Ok(n) => out.push(n),
                Err(e) => {
                    proof {
                        assert(call_ensures(map_fn, (&self@[j as int],), Err::<N, E>(e)));
                    }
                    return Err(e);
                },
            }
            j += 1;
        }
        Ok(Vec1(out))
    }
}

} // verus!
