//! Structure-preserving maps over containers.
use vstd::prelude::*;
use crate::hkt::{Hkt1, WithInner};

verus! {

/// A container whose inner values, of type `A`, can be mapped to values of
/// type `B` while its shape stays.
///
/// `map(f)` replaces each inner value `a` by a result of `f(a)`: the result
/// is `replaced` from `self` under the relation "`b` is a possible result of
/// `f(a)`".
pub trait Functor<A, B>: Hkt1<Unwrapped = A> + WithInner<B> {
    /// Applies `f` to every inner value.
    fn map<F: Fn(A) -> B>(self, f: F) -> (r: <Self as WithInner<B>>::Wrapped)
        requires
            forall|a: A| call_requires(f, (a,)),
        ensures
            <Self as WithInner<B>>::replaced(self, r, |a: A, b: B| call_ensures(f, (a,), b)),
    ;

    /// Another name for `map`, for types that already have a `map` of their own.
    fn fmap<F: Fn(A) -> B>(self, f: F) -> (r: <Self as WithInner<B>>::Wrapped)
        requires
            forall|a: A| call_requires(f, (a,)),
        ensures
            <Self as WithInner<B>>::replaced(self, r, |a: A, b: B| call_ensures(f, (a,), b)),
    {
        self.map(f)
    }
}

/// Turns `f` into a function on containers of type `X`. It stands outside
/// `Functor` because its result is a closure, whose type has no name.
pub fn lift<X, A, B, F>(f: F) -> (g: impl Fn(X) -> <X as WithInner<B>>::Wrapped)
    where
        X: Functor<A, B>,
        F: Fn(A) -> B,
    requires
        forall|a: A| call_requires(f, (a,)),
    ensures
        forall|x: X| call_requires(g, (x,)),
        forall|x: X, r: <X as WithInner<B>>::Wrapped|
            call_ensures(g, (x,), r) ==> <X as WithInner<B>>::replaced(x, r, |a: A, b: B| call_ensures(f, (a,), b)),
{
    move |x: X| -> (r: <X as WithInner<B>>::Wrapped)
        ensures
            <X as WithInner<B>>::replaced(x, r, |a: A, b: B| call_ensures(f, (a,), b)),
        {
            x.map(&f)
        }
}

} // verus!
