//! Pairing containers, lifting bare values, and applying wrapped functions.
use vstd::prelude::*;
use crate::functor::Functor;
use crate::hkt::{Hkt1, Id, WithInner};

verus! {

/// Pairs the contents of two containers of one kind into a container of
/// pairs, with a shape that both inputs decide.
pub trait Magmoidal<A, B>: Hkt1<Unwrapped = A> + WithInner<B> + WithInner<(A, B)> {
    spec fn product_spec(x: Self, b: <Self as WithInner<B>>::Wrapped) -> <Self as WithInner<(A, B)>>::Wrapped;

    fn product(self, b: <Self as WithInner<B>>::Wrapped) -> (r: <Self as WithInner<(A, B)>>::Wrapped)
        ensures
            r == Self::product_spec(self, b),
    ;
}

/// A container kind with a unit: the container that holds `()`.
pub trait Monoidal: Hkt1 + WithInner<()> {
    spec fn unit_spec() -> <Self as WithInner<()>>::Wrapped;

    fn unit() -> (r: <Self as WithInner<()>>::Wrapped)
        ensures
            r == Self::unit_spec(),
    ;
}

/// A `Functor` that can lift a bare value into the smallest container that
/// holds it.
pub trait Applicative<A, B>: Functor<A, B> + Monoidal {
    spec fn pure_spec(b: B) -> <Self as WithInner<B>>::Wrapped;

    /// The container that holds `b` and nothing else. Called on the
    /// container type that it builds (`Option::pure(1)` is an `Option<i32>`).
    fn pure(b: B) -> (r: <Self as WithInner<B>>::Wrapped)
        where
            Self: Id<<Self as WithInner<B>>::Wrapped>,
        ensures
            r == Self::pure_spec(b),
    ;
}

/// Applies the functions of one container to the values of another.
///
/// `applied(x, ff, r, rel)` says that `r` is what applying the functions
/// held by `ff` to the values held by `x` gives, where applying `f` to `a`
/// may give any `b` with `rel(f, a, b)`.
pub trait Apply<A, B, F>: Functor<A, B> + WithInner<F> {
    spec fn applied(
        x: Self,
        ff: <Self as WithInner<F>>::Wrapped,
        r: <Self as WithInner<B>>::Wrapped,
        rel: spec_fn(F, A, B) -> bool,
    ) -> bool;

    fn ap(self, ff: <Self as WithInner<F>>::Wrapped) -> (r: <Self as WithInner<B>>::Wrapped)
        where
            F: Fn(A) -> B,
        requires
            forall|f: F, a: A| #[trigger] <Self as WithInner<F>>::holds(ff, f) ==> #[trigger] call_requires(f, (a,)),
        ensures
            Self::applied(self, ff, r, |f: F, a: A, b: B| call_ensures(f, (a,), b)),
    ;
}

/// Applies the two-argument functions of one container to the values of two
/// others.
///
/// `applied2(x, y, gg, r, rel)` says that `r` is what applying the
/// functions held by `gg` to the values held by `x` and `y` gives, where
/// applying `g` to `a` and `b` may give any `c` with `rel(g, a, b, c)`.
pub trait Apply2<A, B, C, G>: Hkt1<Unwrapped = A> + WithInner<B> + WithInner<G> + WithInner<C> {
    spec fn applied2(
        x: Self,
        y: <Self as WithInner<B>>::Wrapped,
        gg: <Self as WithInner<G>>::Wrapped,
        r: <Self as WithInner<C>>::Wrapped,
        rel: spec_fn(G, A, B, C) -> bool,
    ) -> bool;

    fn ap2(self, b: <Self as WithInner<B>>::Wrapped, g: <Self as WithInner<G>>::Wrapped) -> (r: <Self as WithInner<C>>::Wrapped)
        where
            G: Fn(A, B) -> C,
        requires
            forall|f: G, a: A, x: B| #[trigger] <Self as WithInner<G>>::holds(g, f) ==> #[trigger] call_requires(f, (a, x)),
        ensures
            Self::applied2(self, b, g, r, |f: G, a: A, x: B, c: C| call_ensures(f, (a, x), c)),
    ;
}

} // verus!
