//! Sequencing container-producing steps.
use vstd::prelude::*;
use crate::applicative::Applicative;
use crate::hkt::{Id, WithInner};

verus! {

/// An `Applicative` whose steps can depend on earlier results: `flat_map`
/// runs a container-producing function on each inner value and flattens
/// the nested result.
///
/// `flat_mapped(x, r, rel)` says that `r` is what flattening gives when
/// each inner value `a` of `x` is replaced by a container `w` with
/// `rel(a, w)`.
pub trait Monad<A, B>: Applicative<A, B> {
    spec fn flat_mapped(
        x: Self,
        r: <Self as WithInner<B>>::Wrapped,
        rel: spec_fn(A, <Self as WithInner<B>>::Wrapped) -> bool,
    ) -> bool;

    fn flat_map<F: Fn(A) -> <Self as WithInner<B>>::Wrapped>(self, f: F) -> (r: <Self as WithInner<B>>::Wrapped)
        requires
            forall|a: A| call_requires(f, (a,)),
        ensures
            Self::flat_mapped(self, r, |a: A, w: <Self as WithInner<B>>::Wrapped| call_ensures(f, (a,), w)),
    ;

    /// Flattens a nested container: `flat_map` with the identity.
    fn flatten(self) -> (r: <Self as WithInner<B>>::Wrapped)
        where
            A: Id<<Self as WithInner<B>>::Wrapped>,
        ensures
            Self::flat_mapped(self, r, |a: A, w: <Self as WithInner<B>>::Wrapped| w == a.as_same()),
    ;
}

} // verus!
