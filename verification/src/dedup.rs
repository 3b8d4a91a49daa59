//! Removal of consecutive duplicate elements. Deduplication only ever
//! removes an element that duplicates a retained neighbour, and the first
//! element is never a duplicate of anything before it, so a non-empty
//! vector can never become empty through it: a structural guarantee, not a
//! runtime check.

use vstd::prelude::*;
use vstd::std_specs::cmp::PartialEqSpec;

use crate::container::Vec1;

verus! {

/// `a` is a subsequence of `b`: every element of `a` appears in `b`, in
/// the same order.
pub open spec fn is_subseq_of<T>(a: Seq<T>, b: Seq<T>) -> bool
    decreases b.len(),
{
    if a.len() == 0 {
        true
    } else if b.len() == 0 {
        false
    } else {
        (a.last() == b.last() && is_subseq_of(a.drop_last(), b.drop_last())) || is_subseq_of(
            a,
            b.drop_last(),
        )
    }
}

/// Consecutive deduplication of `s` under the equality `T` declares: each
/// element equal to its most recently retained predecessor is dropped.
pub open spec fn dedup_seq<T: PartialEqSpec>(s: Seq<T>) -> Seq<T>
    decreases s.len(),
{
    if s.len() <= 1 {
        s
    } else {
        let prefix = dedup_seq(s.drop_last());
        if s.last().eq_spec(&prefix.last()) {
            prefix
        } else {
            prefix.push(s.last())
        }
    }
}

/// `output` is a possible result of deduplicating `input` with the
/// predicate `f`, where `f` judges each element against its most recently
/// retained predecessor and `true` means "duplicate, drop it".
pub open spec fn is_dedup_by_of<T, F: Fn(&T, &T) -> bool>(
    f: F,
    input: Seq<T>,
    output: Seq<T>,
) -> bool
    decreases input.len(),
{
    if input.len() <= 1 {
        output == input
    } else {
        exists|prev: Seq<T>|
            #![trigger is_dedup_by_of(f, input.drop_last(), prev)]
            #![trigger prev.len()]
            {
                &&& is_dedup_by_of(f, input.drop_last(), prev)
                &&& prev.len() >= 1
                &&& (call_ensures(f, (&input.last(), &prev.last()), true) && output == prev
                    || call_ensures(f, (&input.last(), &prev.last()), false) && output
                    == prev.push(input.last()))
            }
    }
}

/// `dup` is a possible answer to "do `a` and `b` map to equal keys under
/// `key`": some pair of keys the closure may return compares that way,
/// provided the key type's equality obeys its specification.
pub open spec fn key_dup_possible<T, K: PartialEqSpec, F: Fn(&T) -> K>(
    key: F,
    a: T,
    b: T,
    dup: bool,
) -> bool {
    exists|ka: K, kb: K|
        {
            &&& #[trigger] call_ensures(key, (&a,), ka)
            &&& #[trigger] call_ensures(key, (&b,), kb)
            &&& (K::obeys_eq_spec() ==> dup == ka.eq_spec(&kb))
        }
}

/// `output` is a possible result of deduplicating `input` by the keys
/// `key` derives: each element whose key equals its most recently retained
/// predecessor's key is dropped.
pub open spec fn is_dedup_by_key_of<T, K: PartialEqSpec, F: Fn(&T) -> K>(
    key: F,
    input: Seq<T>,
    output: Seq<T>,
) -> bool
    decreases input.len(),
{
    if input.len() <= 1 {
        output == input
    } else {
        exists|prev: Seq<T>|
            #![trigger is_dedup_by_key_of(key, input.drop_last(), prev)]
            #![trigger prev.len()]
            {
                &&& is_dedup_by_key_of(key, input.drop_last(), prev)
                &&& prev.len() >= 1
                &&& (key_dup_possible(key, input.last(), prev.last(), true) && output == prev
                    || key_dup_possible(key, input.last(), prev.last(), false) && output
                    == prev.push(input.last()))
            }
    }
}

/// Pushing the same element onto a subsequence and its supersequence keeps
/// the subsequence relation.
proof fn lemma_subseq_push<T>(a: Seq<T>, b: Seq<T>, x: T)
    requires
        is_subseq_of(a, b),
    ensures
        is_subseq_of(a.push(x), b.push(x)),
{
    assert(a.push(x).drop_last() =~= a);
    assert(b.push(x).drop_last() =~= b);
}

/// Extending the supersequence keeps the subsequence relation.
proof fn lemma_subseq_extend<T>(a: Seq<T>, b: Seq<T>, x: T)
    requires
        is_subseq_of(a, b),
    ensures
        is_subseq_of(a, b.push(x)),
{
    assert(b.push(x).drop_last() =~= b);
}

impl<T: PartialEq> Vec1<T> {
    /// Removes consecutive duplicate elements, judged by `==`. Never
    /// empties the container: the first element is always retained.
    pub fn dedup(&mut self)
        requires
            old(self).wf(),
        ensures
            final(self).wf(),
            final(self)@[0] == old(self)@[0],
            is_subseq_of(final(self)@, old(self)@),
            T::obeys_eq_spec() ==> final(self)@ == dedup_seq(old(self)@),
    {
        let ghost orig: Seq<T> = self@;
        let total = self.0.len();
        let mut src = self.0.split_off(0);
        let first = src.remove(0);
        self.0.push(first);
        let mut k: usize = 1;
        proof {
            assert(src@ =~= orig.subrange(1, orig.len() as int));
            assert(self.0@ =~= orig.take(1));
            assert(is_subseq_of(self.0@.drop_last(), orig.take(1).drop_last()));
            assert(is_subseq_of(self.0@, orig.take(1)));
        }
        while src.len() > 0
            invariant
                total == orig.len(),
                1 <= k <= total,
                k + src@.len() == total,
                src@ == orig.subrange(k as int, orig.len() as int),
                self.0@.len() >= 1,
                self.0@[0] == orig[0],
                is_subseq_of(self.0@, orig.take(k as int)),
                T::obeys_eq_spec() ==> self.0@ == dedup_seq(orig.take(k as int)),
            decreases src@.len(),
        {
            let ghost pre = self.0@;
            let x = src.remove(0);
            assert(x == orig[k as int]);
            let last_i = self.0.len() - 1;
            let dup = x.eq(&self.0[last_i]);
            if !dup {
                self.0.push(x);
            }
            proof {
                assert(orig.take(k + 1).drop_last() =~= orig.take(k as int));
                assert(orig.take(k + 1).last() == orig[k as int]);
                if dup {
                    lemma_subseq_extend(pre, orig.take(k as int), orig[k as int]);
                    assert(orig.take(k as int).push(orig[k as int]) =~= orig.take(k + 1));
                } else {
                    lemma_subseq_push(pre, orig.take(k as int), orig[k as int]);
                    assert(orig.take(k as int).push(orig[k as int]) =~= orig.take(k + 1));
                }
                assert(src@ =~= orig.subrange(k + 1, orig.len() as int));
            }
            k = k + 1;
        }
        proof {
            assert(orig.take(orig.len() as int) =~= orig);
        }
    }

    /// The same operation under its historical name; kept so existing
    /// callers of either spelling find it.
    pub fn dedub(&mut self)
        requires
            old(self).wf(),
        ensures
            final(self).wf(),
            final(self)@[0] == old(self)@[0],
            is_subseq_of(final(self)@, old(self)@),
            T::obeys_eq_spec() ==> final(self)@ == dedup_seq(old(self)@),
    {
        self.dedup()
    }
}

impl<T> Vec1<T> {
    /// Removes consecutive elements that `same_bucket` judges duplicates
    /// of their most recently retained predecessor. Never empties the
    /// container: the first element is always retained.
    pub fn dedup_by<F: Fn(&T, &T) -> bool>(&mut self, same_bucket: F)
        requires
            old(self).wf(),
            forall|i: int, j: int|
                0 <= i < old(self)@.len() && 0 <= j < old(self)@.len() ==> call_requires(
                    same_bucket,
                    (&old(self)@[i], &old(self)@[j]),
                ),
        ensures
            final(self).wf(),
            final(self)@[0] == old(self)@[0],
            is_subseq_of(final(self)@, old(self)@),
            is_dedup_by_of(same_bucket, old(self)@, final(self)@),
    {
        let ghost orig: Seq<T> = self@;
        let total = self.0.len();
        let mut src = self.0.split_off(0);
        let first = src.remove(0);
        self.0.push(first);
        let mut k: usize = 1;
        proof {
            assert(src@ =~= orig.subrange(1, orig.len() as int));
            assert(self.0@ =~= orig.take(1));
            assert(is_subseq_of(self.0@.drop_last(), orig.take(1).drop_last()));
            assert(is_subseq_of(self.0@, orig.take(1)));
        }
        while src.len() > 0
            invariant
                total == orig.len(),
                1 <= k <= total,
                k + src@.len() == total,
                src@ == orig.subrange(k as int, orig.len() as int),
                self.0@.len() >= 1,
                self.0@[0] == orig[0],
                forall|i: int, j: int|
                    0 <= i < orig.len() && 0 <= j < orig.len() ==> call_requires(
                        same_bucket,
                        (&orig[i], &orig[j]),
                    ),
                forall|i: int|
                    0 <= i < self.0@.len() ==> exists|j: int|
                        0 <= j < k && #[trigger] self.0@[i] == orig[j],
                is_subseq_of(self.0@, orig.take(k as int)),
                is_dedup_by_of(same_bucket, orig.take(k as int), self.0@),
            decreases src@.len(),
        {
            let ghost pre = self.0@;
            let x = src.remove(0);
            assert(x == orig[k as int]);
            let last_i = self.0.len() - 1;
            assert(exists|j: int| 0 <= j < k && #[trigger] pre[last_i as int] == orig[j]);
            let dup = same_bucket(&x, &self.0[last_i]);
            proof {
                assert(call_ensures(same_bucket, (&orig[k as int], &pre.last()), dup));
            }
            if !dup {
                self.0.push(x);
            }
            proof {
                assert(orig.take(k + 1).drop_last() =~= orig.take(k as int));
                assert(orig.take(k + 1).last() == orig[k as int]);
                if dup {
                    lemma_subseq_extend(pre, orig.take(k as int), orig[k as int]);
                } else {
                    lemma_subseq_push(pre, orig.take(k as int), orig[k as int]);
                    assert(orig.take(k as int).push(orig[k as int]) =~= orig.take(k + 1));
                }
                assert(is_dedup_by_of(same_bucket, orig.take(k + 1), self.0@)) by {
                    assert(orig.take(k + 1).len() >= 2);
                    assert({
                        &&& is_dedup_by_of(same_bucket, orig.take(k + 1).drop_last(), pre)
                        &&& pre.len() >= 1
                        &&& (call_ensures(
                            same_bucket,
                            (&orig.take(k + 1).last(), &pre.last()),
                            true,
                        ) && self.0@ == pre || call_ensures(
                            same_bucket,
                            (&orig.take(k + 1).last(), &pre.last()),
                            false,
                        ) && self.0@ == pre.push(orig.take(k + 1).last()))
                    });
                }
                assert(src@ =~= orig.subrange(k + 1, orig.len() as int));
            }
            k = k + 1;
        }
        proof {
            assert(orig.take(orig.len() as int) =~= orig);
        }
    }
}

impl<T> Vec1<T> {
    /// Removes consecutive elements whose `key` equals the key of their
    /// most recently retained predecessor. Never empties the container:
    /// the first element is always retained.
    pub fn dedup_by_key<K: PartialEq, F: Fn(&T) -> K>(&mut self, key: F)
        requires
            old(self).wf(),
            forall|i: int|
                0 <= i < old(self)@.len() ==> call_requires(key, (&old(self)@[i],)),
        ensures
            final(self).wf(),
            final(self)@[0] == old(self)@[0],
            is_subseq_of(final(self)@, old(self)@),
            is_dedup_by_key_of(key, old(self)@, final(self)@),
    {
        let ghost orig: Seq<T> = self@;
        let total = self.0.len();
        let mut src = self.0.split_off(0);
        let first = src.remove(0);
        self.0.push(first);
        let mut k: usize = 1;
        proof {
            assert(src@ =~= orig.subrange(1, orig.len() as int));
            assert(self.0@ =~= orig.take(1));
            assert(is_subseq_of(self.0@.drop_last(), orig.take(1).drop_last()));
            assert(is_subseq_of(self.0@, orig.take(1)));
        }
        while src.len() > 0
            invariant
                total == orig.len(),
                1 <= k <= total,
                k + src@.len() == total,
                src@ == orig.subrange(k as int, orig.len() as int),
                self.0@.len() >= 1,
                self.0@[0] == orig[0],
                forall|i: int| 0 <= i < orig.len() ==> call_requires(key, (&orig[i],)),
                forall|i: int|
                    0 <= i < self.0@.len() ==> exists|j: int|
                        0 <= j < k && #[trigger] self.0@[i] == orig[j],
                is_subseq_of(self.0@, orig.take(k as int)),
                is_dedup_by_key_of(key, orig.take(k as int), self.0@),
            decreases src@.len(),
        {
            let ghost pre = self.0@;
            let x = src.remove(0);
            assert(x == orig[k as int]);
            let last_i = self.0.len() - 1;
            assert(exists|j: int| 0 <= j < k && #[trigger] pre[last_i as int] == orig[j]);
            let kx = key(&x);
            let kp = key(&self.0[last_i]);
            let dup = kx.eq(&kp);
            proof {
                assert(call_ensures(key, (&orig[k as int],), kx));
                assert(call_ensures(key, (&pre.last(),), kp));
                assert(key_dup_possible(key, x, pre.last(), dup));
            }
            if !dup {
                self.0.push(x);
            }
            proof {
                assert(orig.take(k + 1).drop_last() =~= orig.take(k as int));
                assert(orig.take(k + 1).last() == orig[k as int]);
                if dup {
                    lemma_subseq_extend(pre, orig.take(k as int), orig[k as int]);
                } else {
                    lemma_subseq_push(pre, orig.take(k as int), orig[k as int]);
                    assert(orig.take(k as int).push(orig[k as int]) =~= orig.take(k + 1));
                }
                assert(is_dedup_by_key_of(key, orig.take(k + 1), self.0@)) by {
                    assert(orig.take(k + 1).len() >= 2);
                    assert(key_dup_possible(key, orig.take(k + 1).last(), pre.last(), dup));
                    assert({
                        &&& is_dedup_by_key_of(key, orig.take(k + 1).drop_last(), pre)
                        &&& pre.len() >= 1
                        &&& (key_dup_possible(key, orig.take(k + 1).last(), pre.last(), true)
                            && self.0@ == pre || key_dup_possible(
                            key,
                            orig.take(k + 1).last(),
                            pre.last(),
                            false,
                        ) && self.0@ == pre.push(orig.take(k + 1).last()))
                    });
                }
                assert(src@ =~= orig.subrange(k + 1, orig.len() as int));
            }
            k = k + 1;
        }
        proof {
            assert(orig.take(orig.len() as int) =~= orig);
        }
    }
}

} // verus!
