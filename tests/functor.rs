use cats::{lift, Functor};

#[test]
fn functor_test_functor() {
    // test Option
    let x = Some(1);
    let y = x.fmap(|x| x as f64 / 2.0);
    assert_eq!(y, Some(0.5));

    let f = lift::<Option<i32>, _, _, _>(|x: i32| x as f64 / 2.0);
    assert_eq!(f(Some(1)), Some(0.5));

    // test Vec
    let x = vec![1, 2, 3];
    let y = x.fmap(|x| x as f64 / 2.0);
    assert_eq!(y, vec![0.5, 1.0, 1.5]);

    let f = lift::<Vec<i32>, _, _, _>(|x: i32| x as f64 / 2.0);
    assert_eq!(f(vec![1, 2, 3]), vec![0.5, 1.0, 1.5]);
}

#[test]
fn map_identity_keeps_container() {
    assert_eq!(Some(4).fmap(|x| x), Some(4));
    assert_eq!(None::<i32>.fmap(|x| x), None);
    assert_eq!(vec![1, 2, 3].fmap(|x| x), vec![1, 2, 3]);
    assert_eq!(Vec::<i32>::new().fmap(|x| x + 1), Vec::<i32>::new());
}

#[test]
fn map_composition() {
    let f = |x: i32| x + 1;
    let g = |x: i32| x * 10;
    assert_eq!(Some(2).fmap(f).fmap(g), Some(2).fmap(|a| g(f(a))));
    assert_eq!(vec![1, 2].fmap(f).fmap(g), vec![20, 30]);
    assert_eq!(vec![1, 2].fmap(|a| g(f(a))), vec![20, 30]);
}

#[test]
fn map_changes_inner_type() {
    assert_eq!(vec![1, 2].fmap(|x| x.to_string()), vec!["1".to_string(), "2".to_string()]);
    assert_eq!(Some(3).map(|x: i32| x > 2), Some(true));
}
