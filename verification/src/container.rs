//! The container type itself, its invariant, and the operations that can
//! never reduce its length.

use vstd::prelude::*;
use vstd::std_specs::cmp::PartialEqSpec;

verus! {

/// Error returned by operations which would cause [`Vec1`] to have a length
/// of zero. It carries no payload: it always means "this operation was
/// refused because it would have produced an empty vector".
#[derive(Clone, Copy, Debug, Eq, Hash, PartialEq, Structural)]
pub struct Size0Error;

impl Size0Error {
    /// A human-readable description of the error.
    pub fn message(&self) -> (r: String)
        ensures
            r@ == "Cannot produce a Vec1 with a length of zero."@,
    {
        "Cannot produce a Vec1 with a length of zero.".to_owned()
    }
}

/// What the fallible from-sequence conversion yields, as a function of the
/// source's content alone: the content itself, or [`Size0Error`] for an
/// empty source.
pub open spec fn spec_try_from<T>(s: Seq<T>) -> Result<Seq<T>, Size0Error> {
    if s.len() == 0 {
        Err(Size0Error)
    } else {
        Ok(s)
    }
}

/// A `Vec<T>` wrapper which guarantees to hold at least one element.
///
/// Methods of `Vec` which cannot reduce the length (`push`, `insert`,
/// `len`, `capacity`, ...) are exposed through wrappers with the same
/// signature. Methods which could reduce the length to zero exist only
/// with a `try_` prefix and return a `Result` ([`Size0Error`] on refusal).
/// Methods which on `Vec` return an `Option` that is `None` only for an
/// empty vector (`first`, `last`, ...) return the value directly.
#[derive(Clone, Debug, Hash)]
pub struct Vec1<T>(pub(crate) Vec<T>);

impl<T> View for Vec1<T> {
    type V = Seq<T>;

    open(crate) spec fn view(&self) -> Seq<T> {
        self.0@
    }
}

impl<T> Vec1<T> {
    /// The standing invariant: the backing vector is never empty.
    pub open spec fn wf(&self) -> bool {
        self@.len() >= 1
    }

    /// Creates a new `Vec1` instance containing a single element.
    pub fn new(first: T) -> (r: Self)
        ensures
            r.wf(),
            r@.len() == 1,
            r@[0] == first,
    {
        let mut v: Vec<T> = Vec::new();
        v.push(first);
        Vec1(v)
    }

    /// Tries to create a `Vec1<T>` from a `Vec<T>`, handing the input back
    /// as the error if it is empty.
    pub fn from_vec(vec: Vec<T>) -> (r: Result<Self, Vec<T>>)
        ensures
            match r {
                Ok(v) => v.wf() && v@ == vec@ && vec@.len() >= 1,
                Err(e) => e@ == vec@ && vec@.len() == 0,
            },
    {
        if vec.is_empty() {
            Err(vec)
        } else {
            Ok(Vec1(vec))
        }
    }

    /// Tries to create a `Vec1<T>` from a normal `Vec<T>`; fails with
    /// [`Size0Error`] if and only if the input is empty.
    pub fn try_from_vec(vec: Vec<T>) -> (r: Result<Self, Size0Error>)
        ensures
            match r {
                Ok(v) => v.wf() && v@ == vec@ && spec_try_from(vec@) == Ok::<Seq<T>, Size0Error>(
                    v@,
                ),
                Err(e) => spec_try_from(vec@) == Err::<Seq<T>, Size0Error>(e),
            },
    {
        if vec.is_empty() {
            Err(Size0Error)
        } else {
            Ok(Vec1(vec))
        }
    }

    /// Creates a new `Vec1` with a given capacity and a given "first"
    /// element.
    pub fn with_capacity(first: T, capacity: usize) -> (r: Self)
        ensures
            r.wf(),
            r@.len() == 1,
            r@[0] == first,
    {
        let mut vec: Vec<T> = Vec::with_capacity(capacity);
        vec.push(first);
        Vec1(vec)
    }

    /// Turns this `Vec1` into a `Vec`.
    pub fn into_vec(self) -> (r: Vec<T>)
        ensures
            r@ == self@,
    {
        self.0
    }

    /// Returns a reference to the underlying `Vec`.
    pub fn as_vec(&self) -> (r: &Vec<T>)
        ensures
            r@ == self@,
    {
        &self.0
    }

    /// The number of elements, always at least one.
    pub fn len(&self) -> (r: usize)
        ensures
            r == self@.len(),
    {
        self.0.len()
    }

    /// Appends an element to the back.
    pub fn push(&mut self, value: T)
        ensures
            final(self)@ == old(self)@.push(value),
            old(self).wf() ==> final(self).wf(),
    {
        self.0.push(value);
    }

    /// Inserts an element at position `idx`, shifting everything after it
    /// to the right.
    pub fn insert(&mut self, idx: usize, val: T)
        requires
            idx <= old(self)@.len(),
        ensures
            final(self)@ == old(self)@.insert(idx as int, val),
            final(self).wf(),
    {
        self.0.insert(idx, val);
    }

    /// Moves all elements of `other` into `self`, leaving `other` empty.
    pub fn append(&mut self, other: &mut Vec<T>)
        ensures
            final(self)@ == old(self)@ + old(other)@,
            final(other)@ == Seq::<T>::empty(),
            old(self).wf() ==> final(self).wf(),
    {
        self.0.append(other);
    }

    /// Appends every element drawn from `other`, in order.
    pub fn extend(&mut self, other: Vec<T>)
        ensures
            final(self)@ == old(self)@ + other@,
            old(self).wf() ==> final(self).wf(),
    {
        let mut tail = other;
        self.0.append(&mut tail);
    }

    /// Reserves capacity for at least `additional` more elements.
    pub fn reserve(&mut self, additional: usize)
        ensures
            final(self)@ == old(self)@,
    {
        self.0.reserve(additional);
    }

    /// Reserves the minimum capacity for exactly `additional` more
    /// elements.
    pub fn reserve_exact(&mut self, additional: usize)
        ensures
            final(self)@ == old(self)@,
    {
        vec_reserve_exact(&mut self.0, additional);
    }

    /// Shrinks the capacity as much as possible.
    pub fn shrink_to_fit(&mut self)
        ensures
            final(self)@ == old(self)@,
    {
        vec_shrink_to_fit(&mut self.0);
    }

    /// The number of elements the backing vector can hold without
    /// reallocating; never below the length.
    pub fn capacity(&self) -> (r: usize)
        ensures
            r >= self@.len(),
    {
        vec_capacity(&self.0)
    }

    /// A read-only view of all elements.
    pub fn as_slice(&self) -> (r: &[T])
        ensures
            r@ == self@,
    {
        self.0.as_slice()
    }

    /// A mutable view of all elements; a slice cannot change its length,
    /// so the invariant is safe.
    pub fn as_mut_slice(&mut self) -> (r: &mut [T])
        ensures
            r@ == old(self)@,
            final(r)@ == final(self)@,
    {
        self.0.as_mut_slice()
    }

    /// Returns a reference to the first element. As `Vec1` always contains
    /// at least one element there is always a first element.
    pub fn first(&self) -> (r: &T)
        requires
            self.wf(),
        ensures
            *r == self@[0],
    {
        &self.0[0]
    }

    /// Returns a mutable reference to the first element.
    pub fn first_mut(&mut self) -> (r: &mut T)
        requires
            old(self).wf(),
        ensures
            *r == old(self)@[0],
            final(self)@ == old(self)@.update(0, *final(r)),
            final(self).wf(),
    {
        &mut self.0[0]
    }

    /// Returns a reference to the last element. As `Vec1` always contains
    /// at least one element there is always a last element.
    pub fn last(&self) -> (r: &T)
        requires
            self.wf(),
        ensures
            *r == self@[self@.len() - 1],
    {
        let i = self.0.len() - 1;
        &self.0[i]
    }

    /// Returns a mutable reference to the last element.
    pub fn last_mut(&mut self) -> (r: &mut T)
        requires
            old(self).wf(),
        ensures
            *r == old(self)@[old(self)@.len() - 1],
            final(self)@ == old(self)@.update(old(self)@.len() - 1, *final(r)),
            final(self).wf(),
    {
        let i = self.0.len() - 1;
        &mut self.0[i]
    }
}

impl<T: Clone> Vec1<T> {
    /// Clones and appends every element of `other`, in order.
    pub fn extend_from_slice(&mut self, other: &[T])
        ensures
            final(self)@.len() == old(self)@.len() + other@.len(),
            forall|i: int|
                #![trigger final(self)@[i]]
                0 <= i < final(self)@.len() ==> if i < old(self)@.len() {
                    final(self)@[i] == old(self)@[i]
                } else {
                    cloned::<T>(other@[i - old(self)@.len()], final(self)@[i])
                },
            old(self).wf() ==> final(self).wf(),
    {
        self.0.extend_from_slice(other);
    }
}

impl<T: Default> Default for Vec1<T> {
    /// A container holding exactly one default element.
    fn default() -> (r: Self)
        ensures
            r.wf(),
            r@.len() == 1,
            T::default.ensures((), r@[0]),
    {
        Vec1::new(T::default())
    }
}

impl<T: PartialEqSpec> PartialEq for Vec1<T> {
    /// Structural equality: the elements compare equal pairwise in order.
    fn eq(&self, other: &Vec1<T>) -> (r: bool) {
        self.0 == other.0
    }
}

impl<T: PartialEqSpec> vstd::std_specs::cmp::PartialEqSpecImpl for Vec1<T> {
    open spec fn obeys_eq_spec() -> bool {
        T::obeys_eq_spec()
    }

    open spec fn eq_spec(&self, other: &Vec1<T>) -> bool {
        &&& self@.len() == other@.len()
        &&& forall|i: int| #![auto] 0 <= i < self@.len() ==> self@[i].eq_spec(&other@[i])
    }
}

impl<T: PartialEqSpec + Eq> Eq for Vec1<T> {

}

/// Relies on `Vec::reserve_exact`: it only changes capacity, never the
/// elements.
#[verifier::external_body]
fn vec_reserve_exact<T>(v: &mut Vec<T>, additional: usize)
    ensures
        final(v)@ == old(v)@,
{
    v.reserve_exact(additional)
}

/// Relies on `Vec::shrink_to_fit`: it only changes capacity, never the
/// elements.
#[verifier::external_body]
fn vec_shrink_to_fit<T>(v: &mut Vec<T>)
    ensures
        final(v)@ == old(v)@,
{
    v.shrink_to_fit()
}

/// Relies on `Vec::capacity`: a vector's capacity is documented to be at
/// least its length.
#[verifier::external_body]
fn vec_capacity<T>(v: &Vec<T>) -> (r: usize)
    ensures
        r >= v@.len(),
{
    v.capacity()
}

} // verus!
