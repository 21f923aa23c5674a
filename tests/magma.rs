use cats::{Magma, MagmaK, Magmoidal};

fn test_magma_helper<T: Magma + PartialEq + Clone + std::fmt::Debug>(x: T, y: T, z: T) {
    assert_eq!(x.clone().combine(y.clone()), z.clone());
    assert_eq!(
        x.clone().combine(y.clone()).combine(y.clone()),
        z.clone().combine(y.clone())
    );
    assert_eq!(
        x.clone().combine(y.clone()).combine(y.clone()),
        x.clone().combine(y.clone().square())
    );
    assert_eq!(
        x.clone().combine(y.clone()).combine(x.clone()),
        z.clone().combine(x.clone())
    );
    assert_eq!(
        x.clone().combine(y.clone()).combine(x.clone()),
        x.clone().combine(y.clone().combine(x.clone()))
    );
}

#[test]
fn magma_test_magma() {
    test_magma_helper(1_i8, 2_i8, 3_i8);
    test_magma_helper(
        "Hello".to_string(),
        "World".to_string(),
        "HelloWorld".to_string(),
    );
    test_magma_helper(Some(1_i8), Some(2_i8), Some(3_i8));
    test_magma_helper(None, Some(2_i8), Some(2_i8));
    test_magma_helper(Some(1_i8), None, Some(1_i8));
    test_magma_helper(None::<i8>, None, None);

    assert_eq!(i32::combine(1, 2), 3);
    assert_eq!(Option::combine(Some(1), Some(2)), Some(3));
}

fn test_magma_k_helper<T: MagmaK + PartialEq + Clone + std::fmt::Debug>(x: T, y: T, z: T) {
    assert_eq!(x.clone().combine_k(y.clone()), z.clone());
    assert_eq!(
        x.clone().combine_k(y.clone()).combine_k(y.clone()),
        z.clone().combine_k(y.clone())
    );
    assert_eq!(
        x.clone().combine_k(y.clone()).combine_k(x.clone()),
        z.clone().combine_k(x.clone())
    );
    assert_eq!(
        x.clone().combine_k(y.clone()).combine_k(x.clone()),
        x.clone().combine_k(y.clone().combine_k(x.clone()))
    );
}

#[test]
fn test_magma_k() {
    test_magma_k_helper(Some(1_i8), Some(2_i8), Some(1_i8));
    test_magma_k_helper(None, Some(2_i8), Some(2_i8));
    test_magma_k_helper(Some(1_i8), None, Some(1_i8));
    test_magma_k_helper(None::<i8>, None, None);
}

#[test]
fn test_magmoidal() {
    let x = Some(1);
    let y = Some(2.0);
    let z = x.product(y);
    assert_eq!(z, Some((1, 2.0)));

    let x = Some(1);
    let y = None::<f64>;
    let z = x.product(y);
    assert_eq!(z, None);

    let x = None::<i32>;
    let y = Some(2.0);
    let z = x.product(y);
    assert_eq!(z, None);
}

#[test]
fn test_magmak() {
    assert_eq!(Option::combine_k(Some(1), Some(2)), Some(1));
    assert_eq!(Option::combine_k(Some(1), None), Some(1));
    assert_eq!(Option::combine_k(None, Some(2)), Some(2));
    assert_eq!(Option::<i32>::combine_k(None, None), None);

    assert_eq!(Vec::combine_k(vec![1], vec![2]), vec![1, 2]);
}

#[test]
fn combine_option_of_numbers() {
    assert_eq!(Some(1).combine(Some(2)), Some(3));
    assert_eq!(Some(1).combine(None), Some(1));
    assert_eq!(None.combine(Some(2)), Some(2));
    assert_eq!(None::<i32>.combine(None), None);
}

#[test]
fn combine_k_keeps_first_present() {
    assert_eq!(Some(1).combine_k(Some(2)), Some(1));
    assert_eq!(None.combine_k(Some(2)), Some(2));
}

#[test]
fn combine_wraps_on_overflow() {
    assert_eq!(127_i8.combine(1), -128);
    assert_eq!(u8::MAX.combine(1), 0);
    assert_eq!(usize::MAX.combine(2), 1);
    assert_eq!(i64::MIN.combine(-1), i64::MAX);
}

#[test]
fn combine_concatenates_strings() {
    assert_eq!("ab".to_string().combine("cd".to_string()), "abcd");
    assert_eq!("ab".to_string().square(), "abab");
    assert_eq!(String::new().combine("x".to_string()), "x");
}

#[test]
fn square_doubles_numbers() {
    assert_eq!(1.square(), 2);
    assert_eq!(Some(1).square(), Some(2));
}

#[test]
fn combine_k_concatenates_vectors() {
    assert_eq!(Vec::<i32>::new().combine_k(vec![3]), vec![3]);
    assert_eq!(vec![1, 2].combine_k(Vec::new()), vec![1, 2]);
}

#[test]
fn product_with_one_side_absent() {
    assert_eq!(Some(1).product(None::<u8>), None);
    assert_eq!(None::<u8>.product(Some(1)), None);
    assert_eq!(Some("a").product(Some(2_u8)), Some(("a", 2_u8)));
}
