use cats::{Identity, Magma, Monoid, MonoidK, Monoidal, Semigroup, SemigroupK};

#[test]
fn monoid_test_monoid() {
    assert_eq!(1.combine_n(3), 3);
    assert_eq!(i32::combine_all(vec![1, 2, 3]), 6);
    assert_eq!(i32::combine_all(vec![]), 0);
    assert_eq!(1.combine_n_or_id(0), 0);
    assert_eq!(1.combine_n_or_id(3), 3);
}

#[test]
fn monoid_test_monoidk() {
    assert_eq!(Some(1).combine_n_k(3), Some(1));
    assert_eq!(
        Option::<i32>::combine_all_k(vec![Some(1), Some(2), Some(3)]),
        Some(1)
    );
    assert_eq!(Option::<i32>::combine_all_k(vec![]), None);
    assert_eq!(Some(1).combine_n_or_id_k(0), None);
    assert_eq!(Some(1).combine_n_or_id_k(3), Some(1));
}

#[test]
fn test_monoidal() {
    assert_eq!(Option::<i32>::unit(), Some(()));
}

#[test]
fn identity_law_on_values() {
    assert_eq!(5_i32.combine(i32::identity()), 5);
    assert_eq!(i32::identity().combine(5), 5);
    assert_eq!("s".to_string().combine(String::identity()), "s");
    assert_eq!(Option::<i32>::identity().combine(Some(4)), Some(4));
    assert!(i32::is_identity(0));
    assert!(!i32::is_identity(1));
    assert!(String::is_identity(String::new()));
    assert!(!String::is_identity("a".to_string()));
    assert!(Option::<i32>::is_identity(None));
}

#[test]
fn combine_all_of_strings_and_vectors() {
    assert_eq!(
        String::combine_all(vec!["x".to_string(), "y".to_string()]),
        "xy"
    );
    assert_eq!(String::combine_all(vec![]), "");
    assert_eq!(
        Vec::combine_all_k(vec![vec![1], vec![1], vec![1]]),
        vec![1, 1, 1]
    );
    assert_eq!(Vec::<u8>::combine_all_k(vec![]), Vec::<u8>::new());
    assert_eq!(vec![2].combine_n_or_id_k(0), Vec::<i32>::new());
}
