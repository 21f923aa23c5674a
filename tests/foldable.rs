use cats::Foldable;

#[test]
fn foldable_vec() {
    let v = vec![1, 2, 3, 4, 5];
    assert_eq!(v.clone().fold(), 15);
    assert_eq!(v.clone().fold_map(|x| x * 2), 30);
    assert_eq!(v.clone().fold_left(0, |a, b| a + b), 15);
    assert_eq!(v.fold_right(0, |a, b| a + b), 15);
}

#[test]
fn fold_order() {
    let v = vec!["a".to_string(), "b".to_string(), "c".to_string()];
    assert_eq!(v.clone().fold_left(String::new(), |acc, x| acc + &x), "abc");
    assert_eq!(v.clone().fold_right(String::new(), |x, acc| acc + &x), "cba");
    assert_eq!(v.clone().fold(), "abc");
    assert_eq!(v.fold_map(|x| x + "!"), "a!b!c!");
}

#[test]
fn fold_empty() {
    let v: Vec<i32> = Vec::new();
    assert_eq!(v.clone().fold(), 0);
    assert_eq!(v.clone().fold_left(7, |a, b| a + b), 7);
    assert_eq!(v.clone().fold_right(7, |a, b| a + b), 7);
    assert_eq!(v.fold_map(|x| x), 0);
}

#[test]
fn fold_left_right_agree_when_commutative() {
    let v = vec![3, 9, 27];
    assert_eq!(
        v.clone().fold_left(1, |a, b| a * b),
        v.fold_right(1, |a, b| a * b)
    );
}

#[test]
fn fold_map_identity_is_fold() {
    let v = vec![Some(1), None, Some(4)];
    assert_eq!(v.clone().fold_map(|x| x), v.fold());
}
