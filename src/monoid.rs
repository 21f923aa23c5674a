//! Semigroups with an identity element, at the value level and at the
//! container level.
use vstd::prelude::*;
use crate::property::Identity;
use crate::semigroup::{combine_from, combine_k_from, power, power_k, Semigroup, SemigroupK};

verus! {

/// A `Semigroup` with an identity element.
pub trait Monoid: Semigroup + Identity {
    /// `self` combined with itself until `n` copies take part; the identity
    /// when `n` is zero.
    fn combine_n_or_id(self, n: usize) -> (r: Self)
        ensures
            n == 0 ==> r.deep_view() == Self::identity_spec(),
            n > 0 ==> r.deep_view() == power::<Self>(self.deep_view(), n as nat),
    {
        if n == 0 {
            Self::identity()
        } else {
            self.combine_n(n)
        }
    }

    /// All elements of `xs` combined from the left, starting from the
    /// identity.
    fn combine_all(xs: Vec<Self>) -> (r: Self)
        ensures
            r.deep_view() == combine_from::<Self>(Self::identity_spec(), xs.deep_view()),
    {
        let ghost s = xs.deep_view();
        let mut acc = Self::identity();
        for x in it: xs.into_iter()
            invariant
                it.seq().len() == s.len(),
                forall|j: int| 0 <= j < s.len() ==> #[trigger] it.seq()[j].deep_view() == s[j],
                acc.deep_view() == combine_from::<Self>(Self::identity_spec(), s.take(it.index() as int)),
        {
            let ghost k = it.index() as int;
            proof {
                assert(s.take(k + 1).drop_last() =~= s.take(k));
            }
            acc = acc.combine(x);
        }
        proof {
            assert(s.take(s.len() as int) =~= s);
        }
        acc
    }
}

/// The identity law, for every `Monoid`: combining with the identity on
/// either side gives back the value.
pub proof fn lemma_monoid_identity<M: Monoid>(x: M)
    ensures
        M::op(x.deep_view(), M::identity_spec()) == x.deep_view(),
        M::op(M::identity_spec(), x.deep_view()) == x.deep_view(),
{
    M::lemma_identity(x.deep_view());
}

} // verus!

verus! {

/// A `SemigroupK` with an identity element.
pub trait MonoidK: SemigroupK {
    spec fn identity_k_spec() -> Self::V;

    proof fn lemma_identity_k(x: Self::V)
        ensures
            Self::op_k(x, Self::identity_k_spec()) == x,
            Self::op_k(Self::identity_k_spec(), x) == x,
    ;

    /// The identity element of `combine_k`.
    fn identity_k() -> (r: Self)
        ensures
            r.deep_view() == Self::identity_k_spec(),
    ;

    /// `self` combined with itself until `n` copies take part; the identity
    /// when `n` is zero.
    fn combine_n_or_id_k(self, n: usize) -> (r: Self)
        ensures
            n == 0 ==> r.deep_view() == Self::identity_k_spec(),
            n > 0 ==> r.deep_view() == power_k::<Self>(self.deep_view(), n as nat),
    {
        if n == 0 {
            Self::identity_k()
        } else {
            self.combine_n_k(n)
        }
    }

    /// All elements of `xs` combined from the left, starting from the
    /// identity.
    fn combine_all_k(xs: Vec<Self>) -> (r: Self)
        ensures
            r.deep_view() == combine_k_from::<Self>(Self::identity_k_spec(), xs.deep_view()),
    {
        let ghost s = xs.deep_view();
        let mut acc = Self::identity_k();
        for x in it: xs.into_iter()
            invariant
                it.seq().len() == s.len(),
                forall|j: int| 0 <= j < s.len() ==> #[trigger] it.seq()[j].deep_view() == s[j],
                acc.deep_view() == combine_k_from::<Self>(Self::identity_k_spec(), s.take(it.index() as int)),
        {
            let ghost k = it.index() as int;
            proof {
                assert(s.take(k + 1).drop_last() =~= s.take(k));
            }
            acc = acc.combine_k(x);
        }
        proof {
            assert(s.take(s.len() as int) =~= s);
        }
        acc
    }
}

} // verus!
