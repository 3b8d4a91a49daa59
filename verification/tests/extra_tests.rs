use std::collections::VecDeque;

use vec1::IdxRange;
use vec1::RangeBound;
use vec1::Size0Error;
use vec1::Vec1;
use vec1::range_covers_vec_end;
use vec1::range_covers_vec_start;

#[test]
fn try_pop_on_single_element_fails_closed() {
    let mut vec = Vec1::new(2);
    assert_eq!(vec.try_pop(), Err(Size0Error));
    assert_eq!(vec.as_slice(), &[2]);
}

#[test]
fn new_first_last() {
    let mut vec = Vec1::new(7u8);
    assert_eq!(*vec.first(), 7);
    assert_eq!(*vec.last(), 7);
    vec.push(9);
    assert_eq!(*vec.first(), 7);
    assert_eq!(*vec.last(), 9);
    *vec.first_mut() = 1;
    *vec.last_mut() = 2;
    assert_eq!(vec.as_slice(), &[1, 2]);
}

#[test]
fn from_vec_hands_the_input_back_on_failure() {
    let empty: Vec<u8> = vec![];
    assert_eq!(Vec1::from_vec(empty), Err(vec![]));
    let vec = Vec1::from_vec(vec![5u8, 6]).unwrap();
    assert_eq!(vec.as_slice(), &[5, 6]);
}

#[test]
fn try_from_vec_rejects_empty() {
    let empty: Vec<u8> = vec![];
    assert_eq!(Vec1::try_from_vec(empty), Err(Size0Error));
}

#[test]
fn as_vec_and_into_vec_expose_the_content() {
    let vec = Vec1::try_from_vec(vec![1, 2, 3]).unwrap();
    assert_eq!(vec.as_vec(), &vec![1, 2, 3]);
    assert_eq!(vec.into_vec(), vec![1, 2, 3]);
}

#[test]
fn mapped_doubles_every_element() {
    let data = Vec1::try_from_vec(vec![1u8, 2, 3]).unwrap();
    let data = data.mapped(|x| x * 2);
    assert_eq!(data.as_slice(), &[2, 4, 6]);
}

#[test]
fn mapped_ref_keeps_the_source() {
    let data = Vec1::try_from_vec(vec![1u8, 2, 3]).unwrap();
    let doubled = data.mapped_ref(|x: &u8| *x * 2);
    assert_eq!(doubled.as_slice(), &[2, 4, 6]);
    assert_eq!(data.as_slice(), &[1, 2, 3]);
}

#[test]
fn try_mapped_returns_the_first_error() {
    let data = Vec1::try_from_vec(vec![1, 2, 3]).unwrap();
    let data: Result<Vec1<u8>, &'static str> = data.try_mapped(|_| Err("failed"));
    assert_eq!(data, Err("failed"));
}

#[test]
fn try_mapped_collects_successes() {
    let data = Vec1::try_from_vec(vec![1u8, 2, 3]).unwrap();
    let data: Result<Vec1<u8>, &'static str> = data.try_mapped(|x| Ok(x + 1));
    assert_eq!(data.unwrap().as_slice(), &[2, 3, 4]);
}

#[test]
fn try_mapped_ref_returns_the_first_error() {
    let data = Vec1::try_from_vec(vec![1u8, 2, 3]).unwrap();
    let res: Result<Vec1<u8>, u8> = data.try_mapped_ref(|x: &u8| {
        if *x >= 2 {
            Err(*x)
        } else {
            Ok(*x * 10)
        }
    });
    assert_eq!(res, Err(2));
    assert_eq!(data.as_slice(), &[1, 2, 3]);
}

#[test]
fn split_off_first_returns_head_and_rest() {
    assert_eq!((0, vec![]), Vec1::new(0).split_off_first());
    let vec = Vec1::try_from_vec(vec![0, 1, 2, 3]).unwrap();
    assert_eq!((0, vec![1, 2, 3]), vec.split_off_first());
}

#[test]
fn split_off_last_returns_rest_and_tail() {
    assert_eq!((vec![], 0), Vec1::new(0).split_off_last());
    let vec = Vec1::try_from_vec(vec![0, 1, 2, 3]).unwrap();
    assert_eq!((vec![0, 1, 2], 3), vec.split_off_last());
}

#[test]
fn ascii_case_mapping_gives_exact_bytes() {
    let vec = Vec1::try_from_vec(b"aBc!z".to_vec()).unwrap();
    assert_eq!(vec.to_ascii_uppercase().as_slice(), b"ABC!Z");
    assert_eq!(vec.to_ascii_lowercase().as_slice(), b"abc!z");
}

#[test]
fn dedup_removes_consecutive_duplicates_only() {
    let mut vec = Vec1::try_from_vec(vec![1, 1, 2, 2, 3, 1]).unwrap();
    vec.dedup();
    assert_eq!(vec.as_slice(), &[1, 2, 3, 1]);
}

#[test]
fn dedup_never_empties_all_equal_input() {
    let mut vec = Vec1::try_from_vec(vec![4, 4, 4, 4]).unwrap();
    vec.dedup();
    assert_eq!(vec.as_slice(), &[4]);
    let mut vec2 = Vec1::try_from_vec(vec![4, 4, 4, 4]).unwrap();
    vec2.dedup_by(|l: &i32, r: &i32| l == r);
    assert_eq!(vec2.as_slice(), &[4]);
    let mut vec3 = Vec1::try_from_vec(vec![4, 4, 4, 4]).unwrap();
    vec3.dedup_by_key(|k: &i32| *k);
    assert_eq!(vec3.as_slice(), &[4]);
}

#[test]
fn splice_middle_range_replaces_in_place() {
    let mut vec = Vec1::try_from_vec(vec![1, 2, 3, 4, 5]).unwrap();
    let removed: Vec<_> = vec.splice(IdxRange::span(1, 3), vec![9, 9, 9]).unwrap().into_vec();
    assert_eq!(removed, vec![2, 3]);
    assert_eq!(vec.as_slice(), &[1, 9, 9, 9, 4, 5]);
}

#[test]
fn splice_result_iterates_from_both_ends() {
    let mut vec = Vec1::try_from_vec(vec![1, 2, 3, 4, 5]).unwrap();
    let mut removed = vec.splice(IdxRange::span(1, 4), vec![]).unwrap();
    assert_eq!(removed.size_hint(), (3, Some(3)));
    assert_eq!(removed.next(), Some(2));
    assert_eq!(removed.next_back(), Some(4));
    assert_eq!(removed.len(), 1);
    assert_eq!(removed.next(), Some(3));
    assert_eq!(removed.next(), None);
    assert_eq!(removed.next_back(), None);
    assert_eq!(vec.as_slice(), &[1, 5]);
}

#[test]
fn splice_inclusive_end_covers_everything() {
    let mut vec = Vec1::try_from_vec(vec![1, 2, 3]).unwrap();
    let range = IdxRange { start: RangeBound::Unbounded, end: RangeBound::Included(2) };
    assert_eq!(vec.splice(range, vec![]).map(|s| s.into_vec()), Err(Size0Error));
    assert_eq!(vec.as_slice(), &[1, 2, 3]);
}

#[test]
fn range_cover_helpers_judge_each_bound() {
    assert!(range_covers_vec_start(&IdxRange::full()));
    assert!(!range_covers_vec_start(&IdxRange::starting_at(1)));
    assert!(!range_covers_vec_start(&IdxRange {
        start: RangeBound::Excluded(0),
        end: RangeBound::Unbounded,
    }));
    assert!(range_covers_vec_end(&IdxRange::up_to(3), 3));
    assert!(range_covers_vec_end(&IdxRange::up_to_incl(2), 3));
    assert!(!range_covers_vec_end(&IdxRange::up_to_incl(1), 3));
}

#[test]
fn try_from_str_takes_the_utf8_bytes() {
    let vec = Vec1::try_from_str("abc").unwrap();
    assert_eq!(vec.as_slice(), b"abc");
    assert_eq!(Vec1::try_from_str(""), Err(Size0Error));
}

#[test]
fn try_from_string_takes_the_utf8_bytes() {
    let vec = Vec1::try_from_string(String::from("hi!")).unwrap();
    assert_eq!(vec.as_slice(), b"hi!");
    assert_eq!(Vec1::try_from_string(String::new()), Err(Size0Error));
}

#[test]
fn try_from_slice_clones_the_elements() {
    let vec = Vec1::try_from_slice(&[1u8, 2]).unwrap();
    assert_eq!(vec.as_slice(), &[1, 2]);
    let empty: &[u8] = &[];
    assert_eq!(Vec1::try_from_slice(empty), Err(Size0Error));
}

#[test]
fn try_from_vec_deque_keeps_the_order() {
    let mut deque = VecDeque::new();
    deque.push_back(1);
    deque.push_back(2);
    deque.push_front(0);
    let vec = Vec1::try_from_vec_deque(deque).unwrap();
    assert_eq!(vec.as_slice(), &[0, 1, 2]);
    let empty: VecDeque<u8> = VecDeque::new();
    assert_eq!(Vec1::try_from_vec_deque(empty), Err(Size0Error));
}

#[test]
fn try_from_boxed_slice_rejects_empty() {
    let empty: Box<[u8]> = vec![].into();
    assert_eq!(Vec1::try_from_boxed_slice(empty), Err(Size0Error));
}

#[test]
fn into_boxed_slice_keeps_the_content() {
    let vec = Vec1::try_from_vec(vec![1u8, 2]).unwrap();
    let boxed = vec.into_boxed_slice();
    assert_eq!(&*boxed, &[1u8, 2]);
}

#[test]
fn try_resize_grows_with_the_given_value() {
    let mut vec = Vec1::new(1u8);
    assert!(vec.try_resize(4, 9).is_ok());
    assert_eq!(vec.as_slice(), &[1, 9, 9, 9]);
}

#[test]
fn equality_is_structural() {
    let a = Vec1::try_from_vec(vec![1, 2]).unwrap();
    let b = Vec1::try_from_vec(vec![1, 2]).unwrap();
    let c = Vec1::try_from_vec(vec![1, 3]).unwrap();
    assert_eq!(a, b);
    assert_ne!(a, c);
}

#[test]
fn size0_error_describes_itself() {
    assert_eq!(
        Size0Error.message(),
        "Cannot produce a Vec1 with a length of zero."
    );
}

#[test]
fn with_capacity_holds_the_first_element() {
    let vec = Vec1::with_capacity(5u8, 8);
    assert_eq!(vec.as_slice(), &[5]);
}

#[test]
fn round_trip_through_plain_vec() {
    let vec = Vec1::try_from_vec(vec![1u8, 2, 3]).unwrap();
    let back = Vec1::try_from_vec(vec.clone().into_vec());
    assert_eq!(back, Ok(vec));
}
