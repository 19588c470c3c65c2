use balancebeam::vecops::{add_n, add_n_inplace, dedup};

#[test]
fn test_add_n() {
    assert_eq!(add_n(vec![1], 2), vec![3]);
}

#[test]
fn test_add_n_inplace() {
    let mut v = vec![1];
    add_n_inplace(&mut v, 2);
    assert_eq!(v, vec![3]);
}

#[test]
fn test_dedup() {
    let mut v = vec![3, 1, 0, 1, 4, 4];
    dedup(&mut v);
    assert_eq!(v, vec![3, 1, 0, 4]);
}

#[test]
fn add_n_keeps_length_and_order() {
    let v = vec![-5, 0, 5, 100];
    assert_eq!(add_n(v, -10), vec![-15, -10, -5, 90]);
}

#[test]
fn dedup_keeps_first_occurrences() {
    let mut v = vec![2, 2, 2, 2];
    dedup(&mut v);
    assert_eq!(v, vec![2]);
    let mut w: Vec<i32> = vec![];
    dedup(&mut w);
    assert_eq!(w, Vec::<i32>::new());
}
