use cats::{AlgebraError, Magma, MagmaK, Semigroup, SemigroupK};

fn test_semigroup_helper<T: Semigroup + PartialEq + Clone + std::fmt::Debug>(
    x: T,
    n: usize,
    y: T,
) {
    assert_eq!(x.clone().combine_n(n), y.clone());
    assert_eq!(x.clone().combine_n(n + 1), y.clone().combine(x.clone()));
    assert_eq!(x.clone().combine_n(n + 1), x.clone().combine(y.clone()));

    let xs = vec![x.clone(); n];
    assert_eq!(T::combine_all_option(xs), Some(y.clone()));

    let xs: Vec<T> = vec![];
    assert_eq!(T::combine_all_option(xs), None);
}

#[test]
fn semigroup_test_semigroup() {
    test_semigroup_helper(1, 1, 1);
    test_semigroup_helper(1, 3, 3);
    test_semigroup_helper("a".to_string(), 3, "aaa".to_string());
    test_semigroup_helper(Some(1), 3, Some(3));
}

fn test_semigroupk_helper<T: SemigroupK + PartialEq + Clone + std::fmt::Debug>(
    x: T,
    n: usize,
    y: T,
) {
    assert_eq!(x.clone().combine_n_k(n), y.clone());
    assert_eq!(x.clone().combine_n_k(n + 1), y.clone().combine_k(x.clone()));
    assert_eq!(x.clone().combine_n_k(n + 1), x.clone().combine_k(y.clone()));

    let xs = vec![x.clone(); n];
    assert_eq!(T::combine_all_option_k(xs), Some(y.clone()));

    let xs: Vec<T> = vec![];
    assert_eq!(T::combine_all_option_k(xs), None);
}

#[test]
fn semigroup_test_semigroupk() {
    test_semigroupk_helper(Some(1), 3, Some(1));

    let xs = vec![Some(1), Some(2), Some(3)];
    assert_eq!(Option::<i32>::combine_all_option_k(xs), Some(Some(1)));
}

#[test]
fn test_semigroup_instance() {
    assert_eq!(i32::combine(1, 2), 3);
    assert_eq!(i32::combine_n(2, 3), 6);
    assert_eq!(i32::combine_all_option(vec![1, 2, 3]), Some(6));
}

#[test]
fn combine_n_scenario() {
    assert_eq!(1.combine_n(3), 3);
    assert_eq!(1.try_combine_n(0), Err(AlgebraError::InvalidArgument));
    assert_eq!(1.try_combine_n(3), Ok(3));
    assert_eq!("ab".to_string().try_combine_n(2), Ok("abab".to_string()));
}

#[test]
fn combine_n_of_one_is_the_value() {
    assert_eq!(7_u16.combine_n(1), 7);
    assert_eq!("x".to_string().combine_n(1), "x");
}

#[test]
fn combine_all_option_folds_from_the_left() {
    let xs = vec!["a".to_string(), "b".to_string(), "c".to_string()];
    assert_eq!(String::combine_all_option(xs), Some("abc".to_string()));
    assert_eq!(i32::combine_all_option(vec![5]), Some(5));
    assert_eq!(
        Option::<i32>::combine_all_option(vec![None, Some(2), None, Some(3)]),
        Some(Some(5))
    );
}

#[test]
fn try_combine_n_k_reports_zero() {
    assert_eq!(Some(1).try_combine_n_k(0), Err(AlgebraError::InvalidArgument));
    assert_eq!(Some(1).try_combine_n_k(4), Ok(Some(1)));
    assert_eq!(vec![7].try_combine_n_k(2), Ok(vec![7, 7]));
}

#[test]
fn combine_n_k_repeats_vectors() {
    assert_eq!(vec![1].combine_n_k(5), vec![1, 1, 1, 1, 1]);
    assert_eq!(
        Vec::<i32>::combine_all_option_k(vec![vec![1], vec![2, 3]]),
        Some(vec![1, 2, 3])
    );
}

#[test]
fn associativity_on_values() {
    let (x, y, z) = (100_i8, 50_i8, -7_i8);
    assert_eq!(x.combine(y).combine(z), x.combine(y.combine(z)));
    let (a, b, c) = ("p".to_string(), "q".to_string(), "r".to_string());
    assert_eq!(
        a.clone().combine(b.clone()).combine(c.clone()),
        a.combine(b.combine(c))
    );
}
