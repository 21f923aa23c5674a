//! A value that is one of two alternatives. Mapping and sequencing act on
//! the right alternative and pass the left one through unchanged.
use vstd::prelude::*;
use crate::applicative::{Applicative, Apply, Magmoidal, Monoidal};
use crate::functor::Functor;
use crate::hkt::{Hkt1, Id, WithInner};
use crate::monad::Monad;

verus! {

/// Either a `Left` or a `Right` value.
#[derive(Debug, Clone, PartialEq)]
pub enum Either<L, R> {
    Left(L),
    Right(R),
}

impl<L, R> Either<L, R> {
    /// Whether this is a `Left`.
    pub fn is_left(&self) -> (r: bool)
        ensures
            r == (*self is Left),
    {
        match self {
            Either::Left(_) => true,
            Either::Right(_) => false,
        }
    }

    /// Whether this is a `Right`.
    pub fn is_right(&self) -> (r: bool)
        ensures
            r == (*self is Right),
    {
        match self {
            Either::Left(_) => false,
            Either::Right(_) => true,
        }
    }

    /// The left value, or `default` for a `Right`.
    pub fn left_or(self, default: L) -> (r: L)
        ensures
            r == match self {
                Either::Left(l) => l,
                Either::Right(_) => default,
            },
    {
        match self {
            Either::Left(l) => l,
            Either::Right(_) => default,
        }
    }

    /// The right value, or `default` for a `Left`.
    pub fn right_or(self, default: R) -> (r: R)
        ensures
            r == match self {
                Either::Left(_) => default,
                Either::Right(x) => x,
            },
    {
        match self {
            Either::Left(_) => default,
            Either::Right(x) => x,
        }
    }
}

impl<L, R> Hkt1 for Either<L, R> {
    type Unwrapped = R;
}

impl<L, R, T> WithInner<T> for Either<L, R> {
    type Wrapped = Either<L, T>;

    open spec fn holds(w: Either<L, T>, t: T) -> bool {
        w == Either::<L, T>::Right(t)
    }

    open spec fn replaced(x: Either<L, R>, r: Either<L, T>, rel: spec_fn(R, T) -> bool) -> bool {
        match (x, r) {
            (Either::Left(l), Either::Left(m)) => l == m,
            (Either::Right(a), Either::Right(b)) => rel(a, b),
            _ => false,
        }
    }
}

/// `r` is what `flat_map` may give on `x`: a `Left` passes through, and
/// `Right(a)` gives an `r` with `rel(a, r)`.
pub open spec fn either_flat_mapped<L, A, B>(x: Either<L, A>, r: Either<L, B>, rel: spec_fn(A, Either<L, B>) -> bool) -> bool {
    match x {
        Either::Left(l) => r == Either::<L, B>::Left(l),
        Either::Right(a) => rel(a, r),
    }
}

impl<L, R, B> Functor<R, B> for Either<L, R> {
    fn map<F: Fn(R) -> B>(self, f: F) -> (r: Either<L, B>) {
        match self {
            Either::Left(l) => Either::Left(l),
            Either::Right(a) => Either::Right(f(a)),
        }
    }
}

/// A `Left` on either side passes through, the first one first; two
/// `Right`s pair up.
impl<L, R, B> Magmoidal<R, B> for Either<L, R> {
    open spec fn product_spec(x: Either<L, R>, b: Either<L, B>) -> Either<L, (R, B)> {
        match (x, b) {
            (Either::Left(l), _) => Either::Left(l),
            (Either::Right(_), Either::Left(l)) => Either::Left(l),
            (Either::Right(p), Either::Right(q)) => Either::Right((p, q)),
        }
    }

    fn product(self, b: Either<L, B>) -> (r: Either<L, (R, B)>) {
        match self {
            Either::Left(l) => Either::Left(l),
            Either::Right(x) => match b {
                Either::Left(l) => Either::Left(l),
                Either::Right(y) => Either::Right((x, y)),
            },
        }
    }
}

impl<L, R> Monoidal for Either<L, R> {
    open spec fn unit_spec() -> Either<L, ()> {
        Either::Right(())
    }

    fn unit() -> (r: Either<L, ()>) {
        Either::Right(())
    }
}

impl<L, R, B> Applicative<R, B> for Either<L, R> {
    open spec fn pure_spec(b: B) -> Either<L, B> {
        Either::Right(b)
    }

    fn pure(b: B) -> (r: Either<L, B>)
        where
            Self: Id<Either<L, B>>,
    {
        Either::Right(b)
    }
}

/// A `Left` on either side passes through, the value's first; otherwise the
/// function is applied.
impl<L, R, B, F> Apply<R, B, F> for Either<L, R> {
    open spec fn applied(x: Either<L, R>, ff: Either<L, F>, r: Either<L, B>, rel: spec_fn(F, R, B) -> bool) -> bool {
        match (x, ff) {
            (Either::Left(l), _) => r == Either::<L, B>::Left(l),
            (Either::Right(_), Either::Left(l)) => r == Either::<L, B>::Left(l),
            (Either::Right(a), Either::Right(f)) => r is Right && rel(f, a, r->Right_0),
        }
    }

    fn ap(self, ff: Either<L, F>) -> (r: Either<L, B>)
        where
            F: Fn(R) -> B,
    {
        match self {
            Either::Left(l) => Either::Left(l),
            Either::Right(a) => match ff {
                Either::Left(l) => Either::Left(l),
                Either::Right(f) => {
                    assert(<Either<L, R> as WithInner<F>>::holds(ff, f));
                    Either::Right(f(a))
                },
            },
        }
    }
}

impl<L, R, B> Monad<R, B> for Either<L, R> {
    open spec fn flat_mapped(x: Either<L, R>, r: Either<L, B>, rel: spec_fn(R, Either<L, B>) -> bool) -> bool {
        either_flat_mapped(x, r, rel)
    }

    fn flat_map<F: Fn(R) -> Either<L, B>>(self, f: F) -> (r: Either<L, B>) {
        match self {
            Either::Left(l) => Either::Left(l),
            Either::Right(a) => f(a),
        }
    }

    fn flatten(self) -> (r: Either<L, B>)
        where
            R: Id<Either<L, B>>,
    {
        match self {
            Either::Left(l) => Either::Left(l),
            Either::Right(a) => a.id(),
        }
    }
}

/// Mapping a function that returns its argument gives back the value.
pub proof fn lemma_either_map_identity<L, A>(x: Either<L, A>, r: Either<L, A>, rel: spec_fn(A, A) -> bool)
    requires
        <Either<L, A> as WithInner<A>>::replaced(x, r, rel),
        forall|a: A, b: A| #[trigger] rel(a, b) ==> b == a,
    ensures
        r == x,
{
}

/// Mapping `f` and then `g` gives what mapping their composition `h` may
/// give.
pub proof fn lemma_either_map_compose<L, A, B, C>(
    x: Either<L, A>,
    y: Either<L, B>,
    z: Either<L, C>,
    f: spec_fn(A, B) -> bool,
    g: spec_fn(B, C) -> bool,
    h: spec_fn(A, C) -> bool,
)
    requires
        <Either<L, A> as WithInner<B>>::replaced(x, y, f),
        <Either<L, B> as WithInner<C>>::replaced(y, z, g),
        forall|a: A, b: B, c: C| #[trigger] f(a, b) && #[trigger] g(b, c) ==> h(a, c),
    ensures
        <Either<L, A> as WithInner<C>>::replaced(x, z, h),
{
    if let (Either::Right(a), Either::Right(b), Either::Right(c)) = (x, y, z) {
        assert(f(a, b) && g(b, c));
    }
}

/// Left identity: `pure(a).flat_map(f)` gives what `f(a)` gives.
pub proof fn lemma_either_left_identity<L, A, B>(a: A, r: Either<L, B>, f: spec_fn(A, Either<L, B>) -> bool)
    ensures
        either_flat_mapped(<Either<L, A> as Applicative<A, A>>::pure_spec(a), r, f) == f(a, r),
{
}

/// Right identity: `m.flat_map(pure)` gives back `m`.
pub proof fn lemma_either_right_identity<L, A>(m: Either<L, A>, r: Either<L, A>, p: spec_fn(A, Either<L, A>) -> bool)
    requires
        either_flat_mapped(m, r, p),
        forall|a: A, e: Either<L, A>| #[trigger] p(a, e) ==> e == Either::<L, A>::Right(a),
    ensures
        r == m,
{
}

/// Associativity: `m.flat_map(f).flat_map(g)` gives what
/// `m.flat_map(|a| f(a).flat_map(g))` may give.
pub proof fn lemma_either_flat_map_associative<L, A, B, C>(
    m: Either<L, A>,
    y: Either<L, B>,
    z: Either<L, C>,
    f: spec_fn(A, Either<L, B>) -> bool,
    g: spec_fn(B, Either<L, C>) -> bool,
    h: spec_fn(A, Either<L, C>) -> bool,
)
    requires
        either_flat_mapped(m, y, f),
        either_flat_mapped(y, z, g),
        forall|a: A, u: Either<L, B>, v: Either<L, C>| #[trigger] f(a, u) && #[trigger] either_flat_mapped(u, v, g) ==> h(a, v),
    ensures
        either_flat_mapped(m, z, h),
{
    if let Either::Right(a) = m {
        assert(f(a, y) && either_flat_mapped(y, z, g));
    }
}

/// Composition law with equality: for a function `h` with one result for
/// each argument that `f` then `g` may give, `map(f)` then `map(g)` gives
/// exactly what `map(h)` gives.
pub proof fn lemma_either_map_compose_eq<L, A, B, C>(
    x: Either<L, A>,
    y: Either<L, B>,
    z: Either<L, C>,
    w: Either<L, C>,
    f: spec_fn(A, B) -> bool,
    g: spec_fn(B, C) -> bool,
    h: spec_fn(A, C) -> bool,
)
    requires
        <Either<L, A> as WithInner<B>>::replaced(x, y, f),
        <Either<L, B> as WithInner<C>>::replaced(y, z, g),
        <Either<L, A> as WithInner<C>>::replaced(x, w, h),
        forall|a: A, b: B, c: C| #[trigger] f(a, b) && #[trigger] g(b, c) ==> h(a, c),
        forall|a: A, c1: C, c2: C| #[trigger] h(a, c1) && #[trigger] h(a, c2) ==> c1 == c2,
    ensures
        z == w,
{
    lemma_either_map_compose(x, y, z, f, g, h);
    if let (Either::Right(a), Either::Right(c1), Either::Right(c2)) = (x, z, w) {
        assert(h(a, c1) && h(a, c2));
    }
}

/// Associativity with equality: when `h` has one result for each
/// argument, `m.flat_map(f).flat_map(g)` is exactly `m.flat_map(h)` for
/// `h = |a| f(a).flat_map(g)`.
pub proof fn lemma_either_flat_map_associative_eq<L, A, B, C>(
    m: Either<L, A>,
    y: Either<L, B>,
    z: Either<L, C>,
    w: Either<L, C>,
    f: spec_fn(A, Either<L, B>) -> bool,
    g: spec_fn(B, Either<L, C>) -> bool,
    h: spec_fn(A, Either<L, C>) -> bool,
)
    requires
        either_flat_mapped(m, y, f),
        either_flat_mapped(y, z, g),
        either_flat_mapped(m, w, h),
        forall|a: A, u: Either<L, B>, v: Either<L, C>| #[trigger] f(a, u) && #[trigger] either_flat_mapped(u, v, g) ==> h(a, v),
        forall|a: A, v1: Either<L, C>, v2: Either<L, C>| #[trigger] h(a, v1) && #[trigger] h(a, v2) ==> v1 == v2,
    ensures
        z == w,
{
    lemma_either_flat_map_associative(m, y, z, f, g, h);
    if let Either::Right(a) = m {
        assert(h(a, z) && h(a, w));
    }
}

/// Left identity with equality: when `f` has one result for each argument,
/// `pure(a).flat_map(f)` is exactly `f(a)`.
pub proof fn lemma_either_left_identity_eq<L, A, B>(a: A, r: Either<L, B>, q: Either<L, B>, f: spec_fn(A, Either<L, B>) -> bool)
    requires
        either_flat_mapped(<Either<L, A> as Applicative<A, A>>::pure_spec(a), r, f),
        f(a, q),
        forall|x: A, e1: Either<L, B>, e2: Either<L, B>| #[trigger] f(x, e1) && #[trigger] f(x, e2) ==> e1 == e2,
    ensures
        r == q,
{
}

} // verus!
