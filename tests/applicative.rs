use cats::{Applicative, Apply, Apply2, Magmoidal};

#[test]
fn test_apply() {
    let x = Some(1);
    let y = Some(|x: i32| x as f64 / 2.0);
    let z = x.ap(y);
    assert_eq!(z, Some(0.5));
}

#[test]
fn applicative_test_applicative() {
    let x = Option::pure(1);
    assert_eq!(x, Some(1));

    let x = Some(1);
    let y = Some(2.0);
    let z = x.product(y);
    assert_eq!(z, Some((1, 2.0)));

    let x = Some(1);
    let y = Some(|x: i32| x as f64 / 2.0);
    let z = x.ap(y);
    assert_eq!(z, Some(0.5));

    let x = None;
    let y = Some(|x: i32| x as f64 / 2.0);
    let z = x.ap(y);
    assert_eq!(z, None);

    let x = Some(1);
    let y = Some(2.0);
    let z = Some(|a: i32, b: f64| a as f64 + b);
    let w = x.ap2(y, z);
    assert_eq!(w, Some(3.0));
}

#[test]
fn pure_then_ap() {
    let x = Option::pure(1);
    let y = Option::pure(|x: i32| x * 3);
    assert_eq!(x.ap(y), Some(3));
}

#[test]
fn ap_with_absent_function() {
    let f: Option<fn(i32) -> i32> = None;
    assert_eq!(Some(1).ap(f), None);
    let g: Option<fn(i32, i32) -> i32> = None;
    assert_eq!(Some(1).ap2(Some(2), g), None);
    assert_eq!(None::<i32>.ap2(Some(2), Some(|a: i32, b: i32| a + b)), None);
    assert_eq!(Some(1).ap2(None::<i32>, Some(|a: i32, b: i32| a + b)), None);
}
