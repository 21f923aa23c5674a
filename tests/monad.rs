use cats::{Applicative, Monad};

#[test]
fn test_monad() {
    let x = Some(Some(1));
    let y = x.flat_map(|x| x);
    let z = <Option<Option<i32>> as Monad<Option<i32>, i32>>::flatten(x);
    assert_eq!(y, Some(1));
    assert_eq!(z, Some(1));
}

#[test]
fn test_flat_map() {
    let x = Some(1);
    let y = x.flat_map(|x| Some(x + 1));
    assert_eq!(y, Some(2));

    let x = Some(Some(1));
    let y = x.flat_map(|x| x);
    assert_eq!(y, Some(1));
    let z = <Option<Option<i32>> as Monad<Option<i32>, i32>>::flatten(x);
    assert_eq!(z, Some(1));
}

#[test]
fn monad_left_identity() {
    let f = |x: i32| if x > 0 { Some(x * 2) } else { None };
    assert_eq!(Option::pure(3).flat_map(f), f(3));
    assert_eq!(Option::pure(-3).flat_map(f), f(-3));
}

#[test]
fn monad_right_identity() {
    assert_eq!(Some(5).flat_map(|a| Some(a)), Some(5));
    assert_eq!(None::<i32>.flat_map(|a| Some(a)), None);
}

#[test]
fn monad_associativity() {
    let f = |x: i32| if x > 0 { Some(x - 1) } else { None };
    let g = |x: i32| Some(x * 10);
    for m in [Some(2), Some(0), None] {
        assert_eq!(m.flat_map(f).flat_map(g), m.flat_map(|a| f(a).flat_map(g)));
    }
}

#[test]
fn flatten_absent() {
    let x: Option<Option<i32>> = Some(None);
    assert_eq!(<Option<Option<i32>> as Monad<Option<i32>, i32>>::flatten(x), None);
    let y: Option<Option<i32>> = None;
    assert_eq!(<Option<Option<i32>> as Monad<Option<i32>, i32>>::flatten(y), None);
}
