//! Laws the container obeys across several operations, stated over its
//! mathematical model and proved once and for all.

use vstd::prelude::*;
use vstd::std_specs::cmp::PartialEqSpec;

use crate::container::Size0Error;
use crate::container::spec_try_from;
use crate::dedup::dedup_seq;
use crate::dedup::is_dedup_by_key_of;
use crate::dedup::is_dedup_by_of;
use crate::dedup::key_dup_possible;

verus! {

/// Round trip: converting any container's plain sequence back into a
/// container always succeeds and yields identical content, since the
/// invariant keeps that sequence non-empty.
pub proof fn lemma_round_trip<T>(s: Seq<T>)
    requires
        s.len() >= 1,
    ensures
        spec_try_from(s) == Ok::<Seq<T>, Size0Error>(s),
{
}

/// Deduplication never empties: deduplicating any non-empty sequence
/// leaves at least one element, and the first element is always retained.
pub proof fn lemma_dedup_never_empties<T: PartialEqSpec>(s: Seq<T>)
    requires
        s.len() >= 1,
    ensures
        dedup_seq(s).len() >= 1,
        dedup_seq(s)[0] == s[0],
    decreases s.len(),
{
    if s.len() > 1 {
        lemma_dedup_never_empties(s.drop_last());
    }
}

/// Deduplication by a predicate never empties either: whatever the
/// predicate answered, any possible output for a non-empty input holds at
/// least one element, and the first element is always retained.
pub proof fn lemma_dedup_by_never_empties<T, F: Fn(&T, &T) -> bool>(
    f: F,
    input: Seq<T>,
    output: Seq<T>,
)
    requires
        input.len() >= 1,
        is_dedup_by_of(f, input, output),
    ensures
        output.len() >= 1,
        output[0] == input[0],
    decreases input.len(),
{
    if input.len() > 1 {
        let prev = choose|prev: Seq<T>|
            #![trigger is_dedup_by_of(f, input.drop_last(), prev)]
            #![trigger prev.len()]
            {
                &&& is_dedup_by_of(f, input.drop_last(), prev)
                &&& prev.len() >= 1
                &&& (call_ensures(f, (&input.last(), &prev.last()), true) && output == prev
                    || call_ensures(f, (&input.last(), &prev.last()), false) && output
                    == prev.push(input.last()))
            };
        lemma_dedup_by_never_empties(f, input.drop_last(), prev);
    }
}

/// Deduplication by a derived key never empties either: whatever keys the
/// closure produced, any possible output for a non-empty input holds at
/// least one element, and the first element is always retained.
pub proof fn lemma_dedup_by_key_never_empties<T, K: PartialEqSpec, F: Fn(&T) -> K>(
    key: F,
    input: Seq<T>,
    output: Seq<T>,
)
    requires
        input.len() >= 1,
        is_dedup_by_key_of(key, input, output),
    ensures
        output.len() >= 1,
        output[0] == input[0],
    decreases input.len(),
{
    if input.len() > 1 {
        let prev = choose|prev: Seq<T>|
            #![trigger is_dedup_by_key_of(key, input.drop_last(), prev)]
            #![trigger prev.len()]
            {
                &&& is_dedup_by_key_of(key, input.drop_last(), prev)
                &&& prev.len() >= 1
                &&& (key_dup_possible(key, input.last(), prev.last(), true) && output == prev
                    || key_dup_possible(key, input.last(), prev.last(), false) && output
                    == prev.push(input.last()))
            };
        lemma_dedup_by_key_never_empties(key, input.drop_last(), prev);
    }
}

} // verus!
