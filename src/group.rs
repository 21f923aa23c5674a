//! Monoids in which every value has an inverse.
use vstd::prelude::*;
use crate::monoid::Monoid;
use crate::property::Inverse;

verus! {

/// A `Monoid` in which every value has an inverse.
pub trait Group: Monoid + Inverse {
    /// Whether `y` undoes `x`: their combination is the identity.
    fn is_inverse(x: Self, y: Self) -> (r: bool)
        ensures
            r == (Self::op(x.deep_view(), y.deep_view()) == Self::identity_spec()),
    {
        Self::is_identity(x.combine(y))
    }

    /// `x` combined with the inverse of `y`.
    fn remove(x: Self, y: Self) -> (r: Self)
        ensures
            r.deep_view() == Self::op(x.deep_view(), Self::inverse_spec(y.deep_view())),
    {
        x.combine(Self::inverse(y))
    }
}

/// The inverse law, for every `Group`: a value combined with its inverse,
/// on either side, is the identity.
pub proof fn lemma_group_inverse<G: Group>(x: G)
    ensures
        G::op(x.deep_view(), G::inverse_spec(x.deep_view())) == G::identity_spec(),
        G::op(G::inverse_spec(x.deep_view()), x.deep_view()) == G::identity_spec(),
{
    G::lemma_inverse(x.deep_view());
}

} // verus!
