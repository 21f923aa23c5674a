//! Closed binary operations.
use vstd::prelude::*;
use crate::hkt::Hkt1;

verus! {

/// A type whose values the algebraic traits reason about through their deep
/// view. Cloning a value keeps its deep view.
pub trait Carrier: Sized + Clone + DeepView {
    proof fn lemma_clone_keeps_view(a: Self, b: Self)
        requires
            cloned(a, b),
        ensures
            a.deep_view() == b.deep_view(),
    ;
}

/// A type with a closed binary operation, `combine`.
///
/// `op` is the operation on deep views; `combine` computes it.
pub trait Magma: Carrier {
    spec fn op(x: Self::V, y: Self::V) -> Self::V;

    /// Combines two values.
    fn combine(self, rhs: Self) -> (r: Self)
        ensures
            r.deep_view() == Self::op(self.deep_view(), rhs.deep_view()),
    ;

    /// Combines a value with itself.
    fn square(self) -> (r: Self)
        ensures
            r.deep_view() == Self::op(self.deep_view(), self.deep_view()),
    {
        let c = self.clone();
        proof {
            Self::lemma_clone_keeps_view(self, c);
        }
        c.combine(self)
    }
}

/// A container type with a closed binary operation, `combine_k`, that does
/// not look inside the contained values: `Option<T>` is a `MagmaK` for any
/// inner type `T`.
pub trait MagmaK: Hkt1 + Carrier {
    spec fn op_k(x: Self::V, y: Self::V) -> Self::V;

    /// Combines two containers.
    fn combine_k(self, rhs: Self) -> (r: Self)
        ensures
            r.deep_view() == Self::op_k(self.deep_view(), rhs.deep_view()),
    ;
}

} // verus!
