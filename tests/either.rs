use cats::either::Either::{Left, Right};
use cats::{Applicative, Apply, Either, Functor, Magmoidal, Monad, Monoidal};

#[test]
fn test_either() {
    let s: Either<String, i32> = Left("foo".to_string());
    let n: Either<String, i32> = Right(3);

    assert_eq!(s.is_left(), true);
    assert_eq!(s.is_right(), false);
    assert_eq!(n.is_left(), false);
    assert_eq!(n.is_right(), true);

    let s = s.fmap(|x| x * 2);
    let n = n.fmap(|x| x * 2);

    assert_eq!(s, Left("foo".to_string()));
    assert_eq!(n, Right(6));
}

#[test]
fn either_defaults() {
    let l: Either<i32, &str> = Left(1);
    let r: Either<i32, &str> = Right("x");
    assert_eq!(l.clone().left_or(9), 1);
    assert_eq!(r.clone().left_or(9), 9);
    assert_eq!(l.right_or("d"), "d");
    assert_eq!(r.right_or("d"), "x");
}

#[test]
fn either_sequencing_passes_left_through() {
    let l: Either<&str, i32> = Left("err");
    let r: Either<&str, i32> = Right(2);
    assert_eq!(l.clone().flat_map(|x| Right(x + 1)), Left("err"));
    assert_eq!(r.clone().flat_map(|x| Right(x + 1)), Right(3));
    assert_eq!(r.clone().flat_map(|_| Left::<&str, i32>("late")), Left("late"));
    assert_eq!(r.clone().product(Right::<&str, char>('c')), Right((2, 'c')));
    assert_eq!(r.clone().product(Left::<&str, char>("no")), Left("no"));
    assert_eq!(l.clone().product(Right::<&str, char>('c')), Left("err"));
    assert_eq!(r.clone().ap(Right::<&str, _>(|x: i32| x * 5)), Right(10));
    assert_eq!(l.ap(Right::<&str, _>(|x: i32| x * 5)), Left("err"));
    assert_eq!(Either::<&str, i32>::unit(), Right(()));
    assert_eq!(Either::<&str, i32>::pure(4), Right(4));
    let nested: Either<&str, Either<&str, i32>> = Right(Right(1));
    assert_eq!(
        <Either<&str, Either<&str, i32>> as Monad<Either<&str, i32>, i32>>::flatten(nested),
        Right(1)
    );
}
