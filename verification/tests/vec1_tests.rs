use vec1::IdxRange;
use vec1::Size0Error;
use vec1::Vec1;
use vec1::range_covers_vec1;

#[derive(Default)]
struct Example {
    field: Vec1<u8>,
}

#[test]
fn range_covers_vec() {
    let len = 3;
    // common slices
    assert!(range_covers_vec1(&IdxRange::full(), len));
    assert!(range_covers_vec1(&IdxRange::up_to(3), len));
    assert!(!range_covers_vec1(&IdxRange::up_to(2), len));
    assert!(!range_covers_vec1(&IdxRange::span(1, 3), len));
    assert!(range_covers_vec1(&IdxRange::span(0, 3), len));
    assert!(range_covers_vec1(&IdxRange::starting_at(0), len));
    assert!(!range_covers_vec1(&IdxRange::starting_at(1), len));
    assert!(!range_covers_vec1(&IdxRange::starting_at(len), len));

    // unusual slices
    assert!(!range_covers_vec1(&IdxRange::up_to(0), len));
    assert!(!range_covers_vec1(&IdxRange::span(2, 1), len));
}

#[test]
fn deref_slice() {
    let vec = Vec1::new(1u8);
    let _: &[u8] = vec.as_slice();
}

#[test]
fn deref_slice_mut() {
    let mut vec = Vec1::new(1u8);
    let _: &mut [u8] = vec.as_mut_slice();
}

#[test]
fn provided_all_ro_functions() {
    let vec = Vec1::new(1u8);
    assert_eq!(vec.len(), 1);
    assert!(vec.capacity() > 0);
    assert_eq!(vec.as_slice(), &[1]);
}

#[test]
fn provides_some_safe_mut_functions() {
    let mut vec = Vec1::new(1u8);
    vec.reserve(12);
    assert!(vec.capacity() >= 13);
    vec.reserve_exact(31);
    assert!(vec.capacity() >= 31);
    vec.shrink_to_fit();
    let _: &mut [u8] = vec.as_mut_slice();
    vec.insert(1, 31u8);
    vec.insert(1, 2u8);
    assert_eq!(vec.as_slice(), &[1, 2, 31]);
    vec.dedup_by_key(|k: &u8| *k / 3);
    assert_eq!(vec.as_slice(), &[1, 31]);
    vec.push(31);
    assert_eq!(vec.as_slice(), &[1, 31, 31]);
    vec.dedup_by(|l: &u8, r: &u8| l == r);
    assert_eq!(vec.as_slice(), &[1, 31]);
    vec.extend_from_slice(&[31, 2, 3]);
    assert_eq!(vec.as_slice(), &[1, 31, 31, 2, 3]);
    vec.dedub();
    assert_eq!(vec.as_slice(), &[1, 31, 2, 3]);
    // as the passed in vec is emptied this won't work with a vec1 as parameter
    vec.append(&mut vec![1, 2, 3]);
    assert_eq!(vec.as_slice(), &[1, 31, 2, 3, 1, 2, 3])
}

#[test]
fn provides_other_methos_in_failible_form() {
    let mut vec = Vec1::try_from_vec(vec![1u8, 2, 3, 4]).unwrap();
    assert!(vec.try_truncate(3).is_ok());
    assert!(vec.try_truncate(0).is_err());
    assert_eq!(vec.as_slice(), &[1, 2, 3]);

    assert!(vec.try_swap_remove(0).is_ok());
    assert_eq!(vec.as_slice(), &[3, 2]);
    assert!(vec.try_remove(0).is_ok());
    assert_eq!(vec.as_slice(), &[2]);
    assert!(vec.try_swap_remove(0).is_err());
    assert!(vec.try_remove(0).is_err());
    vec.push(12);

    assert_eq!(vec.try_pop(), Ok(12));
    assert_eq!(vec.try_pop(), Err(Size0Error));
    assert_eq!(vec.as_slice(), &[2]);
}

#[test]
fn try_split_of() {
    let mut vec = Vec1::try_from_vec(vec![1, 2, 3, 4]).unwrap();
    assert!(vec.try_split_off(0).is_err());
    let len = vec.len();
    assert!(vec.try_split_off(len).is_err());
    let nvec = vec.try_split_off(len - 1).unwrap();
    assert_eq!(vec.as_slice(), &[1, 2, 3]);
    assert_eq!(nvec.as_slice(), &[4]);
}

#[test]
fn try_resize() {
    let mut vec = Vec1::new(1u8);
    assert!(vec.try_resize(10, 2u8).is_ok());
    assert_eq!(vec.len(), 10);
    assert!(vec.try_resize(1, 2u8).is_ok());
    assert_eq!(vec.as_slice(), &[1]);
    assert!(vec.try_resize(0, 2u8).is_err());
}

#[test]
fn with_capacity() {
    let vec = Vec1::with_capacity(1u8, 16);
    assert!(vec.capacity() >= 16);
}

#[test]
fn impl_index() {
    let vec = Vec1::try_from_vec(vec![1, 2, 3, 3]).unwrap();
    assert_eq!(&vec.as_slice()[..2], &[1, 2]);
}

#[test]
fn impl_index_mut() {
    let mut vec = Vec1::try_from_vec(vec![1, 2, 3, 3]).unwrap();
    assert_eq!(&mut vec.as_mut_slice()[..2], &mut [1, 2]);
}

#[test]
fn impl_extend() {
    let mut vec = Vec1::new(1u8);
    vec.extend(vec![2, 3]);
    assert_eq!(vec.as_slice(), &[1, 2, 3]);
}

#[test]
fn impl_extend_ref_copy() {
    let mut vec = Vec1::new(1u8);
    vec.extend_from_slice(&[2, 3]);
    assert_eq!(vec.as_slice(), &[1, 2, 3]);
}

#[test]
fn impl_into_iter() {
    let vec = Vec1::try_from_vec(vec![1, 2, 3]).unwrap();
    assert_eq!(6, vec.into_vec().into_iter().sum::<u8>());
}

#[test]
fn impl_into_iter_on_ref() {
    let vec = Vec1::try_from_vec(vec![1, 2, 3]).unwrap();
    assert_eq!(6, vec.as_slice().iter().sum::<u8>());
}

#[test]
fn impl_into_iter_on_ref_mut() {
    let mut vec = Vec1::try_from_vec(vec![1, 2, 3]).unwrap();
    assert_eq!(
        3,
        vec.as_mut_slice().iter_mut().fold(0u8, |x, m| {
            *m = *m + 1;
            x + 1
        })
    );
    assert_eq!(vec.as_slice(), &[2, 3, 4]);
}

#[test]
fn non_slice_indexing_works() {
    let mut vec = Vec1::new("a");
    assert_eq!(vec.first_mut(), &mut "a");
}

#[test]
fn splice_with_full_range_and_no_replace_values_fails() {
    let mut vec = Vec1::try_from_vec(vec![1, 2, 3, 4, 5]).unwrap();
    let res = vec.splice(IdxRange::full(), vec![]);
    assert!(res.is_err());
}

#[test]
fn splice_with_full_range_but_non_empty_iter_works() {
    let mut vec = Vec1::try_from_vec(vec![1, 2, 3, 4, 5]).unwrap();
    let res: Vec<_> = vec.splice(IdxRange::full(), vec![11]).unwrap().into_vec();
    assert_eq!(res, vec![1, 2, 3, 4, 5]);
    assert_eq!(vec.as_slice(), &[11]);
}

#[test]
fn splice_with_non_full_range_but_empty_iter_works() {
    let mut vec = Vec1::try_from_vec(vec![1, 2, 3, 4, 5]).unwrap();
    let res: Vec<_> = vec.splice(IdxRange::starting_at(1), vec![]).unwrap().into_vec();

    assert_eq!(res, vec![2, 3, 4, 5]);
    assert_eq!(vec.as_slice(), &[1]);
}

#[test]
fn deriving_default_works() {
    let example = Example::default();
    assert_eq!(example.field.as_slice(), &[0]);
}

#[test]
fn has_a_try_from_impl() {
    let vec = Vec1::<u8>::try_from(vec![]);
    assert_eq!(vec, Err(Size0Error));

    let vec = Vec1::try_from(vec![1u8, 12]).unwrap();
    assert_eq!(vec.as_slice(), &[1u8, 12]);
}

#[test]
fn has_a_try_from_boxed_slice() {
    let bs: Box<[u8]> = vec![1, 2, 3].into();
    let vec = Vec1::<u8>::try_from_boxed_slice(bs).unwrap();
    assert_eq!(vec.as_slice(), &[1u8, 2, 3]);
}
