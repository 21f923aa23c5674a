//! Markers that certify the laws of a `Magma`'s operation.
//!
//! Each marker carries its law as a proof obligation: an impl exists only
//! where the law has been proved.
use vstd::prelude::*;
use crate::magma::Magma;

verus! {

/// `combine` is defined on every pair of values: it asks nothing of its
/// arguments.
pub trait Totality: Magma {
    proof fn lemma_closed(x: Self, y: Self)
        ensures
            call_requires(Self::combine, (x, y)),
    {
    }
}

/// Every `Magma` is total.
impl<M: Magma> Totality for M {
}

/// Regrouping a chain of `combine`s does not change the result.
pub trait Associativity: Magma {
    proof fn lemma_associative(x: Self::V, y: Self::V, z: Self::V)
        ensures
            Self::op(Self::op(x, y), z) == Self::op(x, Self::op(y, z)),
    ;
}

/// The order of the operands does not change the result.
pub trait Commutativity: Magma {
    proof fn lemma_commutative(x: Self::V, y: Self::V)
        ensures
            Self::op(x, y) == Self::op(y, x),
    ;
}

/// There is an element that leaves every value unchanged when combined with
/// it, on either side.
pub trait Identity: Magma {
    spec fn identity_spec() -> Self::V;

    proof fn lemma_identity(x: Self::V)
        ensures
            Self::op(x, Self::identity_spec()) == x,
            Self::op(Self::identity_spec(), x) == x,
    ;

    /// The identity element.
    fn identity() -> (r: Self)
        ensures
            r.deep_view() == Self::identity_spec(),
    ;

    /// Whether `x` is the identity element.
    fn is_identity(x: Self) -> (r: bool)
        ensures
            r == (x.deep_view() == Self::identity_spec()),
    ;
}

/// Every value has an inverse: combined with it, on either side, it gives
/// the identity.
pub trait Inverse: Identity {
    spec fn inverse_spec(x: Self::V) -> Self::V;

    proof fn lemma_inverse(x: Self::V)
        ensures
            Self::op(x, Self::inverse_spec(x)) == Self::identity_spec(),
            Self::op(Self::inverse_spec(x), x) == Self::identity_spec(),
    ;

    /// The inverse of `x`.
    fn inverse(x: Self) -> (r: Self)
        ensures
            r.deep_view() == Self::inverse_spec(x.deep_view()),
    ;
}

} // verus!
