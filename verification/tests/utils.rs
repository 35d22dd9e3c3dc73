use async_hid::utils::{copy_prefix, try_flatten, TryFlattenIter, TryIterExt};

#[test]
fn test_try_flatten_iter() {
    let iter = TryFlattenIter::<i32, i32>::new(vec![
        Err(0),
        Ok(vec![1, 2, 3]),
        Err(4),
        Ok(vec![5, 6, 7]),
        Err(8),
        Err(9),
    ]);
    assert_eq!(
        iter.collect(),
        vec![Err(0), Ok(1), Ok(2), Ok(3), Err(4), Ok(5), Ok(6), Ok(7), Err(8), Err(9)]
    );
}

#[test]
fn try_flatten_yields_item_by_item() {
    let mut iter = try_flatten::<u8, &str>(vec![Ok(vec![]), Ok(vec![1, 2]), Err("gone"), Ok(vec![3])]);
    assert_eq!(iter.next(), Some(Ok(1)));
    assert_eq!(iter.next(), Some(Ok(2)));
    assert_eq!(iter.next(), Some(Err("gone")));
    assert_eq!(iter.next(), Some(Ok(3)));
    assert_eq!(iter.next(), None);
    assert_eq!(iter.next(), None);
}

#[test]
fn try_flatten_of_nothing_is_empty() {
    let iter = TryFlattenIter::<i32, i32>::new(vec![]);
    assert_eq!(iter.collect(), vec![]);
    let iter = TryFlattenIter::<i32, i32>::new(vec![Ok(vec![]), Ok(vec![])]);
    assert_eq!(iter.collect(), vec![]);
}

#[test]
fn try_collect_vec_collects_successes() {
    let results: Vec<Result<i32, &str>> = vec![Ok(1), Ok(2), Ok(3)];
    assert_eq!(results.try_collect_vec(), Ok(vec![1, 2, 3]));
    let none: Vec<Result<i32, &str>> = vec![];
    assert_eq!(none.try_collect_vec(), Ok(vec![]));
}

#[test]
fn try_collect_vec_stops_at_the_first_error() {
    let results: Vec<Result<i32, &str>> = vec![Ok(1), Err("first"), Ok(3), Err("second")];
    assert_eq!(results.try_collect_vec(), Err("first"));
}

#[test]
fn copy_prefix_copies_what_fits() {
    let mut out = [9u8; 4];
    assert_eq!(copy_prefix(&mut out, &[1, 2]), 2);
    assert_eq!(out, [1, 2, 9, 9]);
    let mut out = [9u8; 2];
    assert_eq!(copy_prefix(&mut out, &[1, 2, 3]), 2);
    assert_eq!(out, [1, 2]);
    let mut out: [u8; 0] = [];
    assert_eq!(copy_prefix(&mut out, &[1, 2, 3]), 0);
}
