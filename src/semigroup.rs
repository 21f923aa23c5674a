//! Associative operations, at the value level and at the container level.
use vstd::prelude::*;
use crate::magma::{Magma, MagmaK};
use crate::property::Associativity;

verus! {

/// `x` combined with itself until `n` copies take part, grouped from the left.
pub open spec fn power<M: Magma>(x: M::V, n: nat) -> M::V
    decreases n,
{
    if n <= 1 {
        x
    } else {
        M::op(power::<M>(x, (n - 1) as nat), x)
    }
}

/// `acc` combined with each element of `s` in turn, from the left.
pub open spec fn combine_from<M: Magma>(acc: M::V, s: Seq<M::V>) -> M::V
    decreases s.len(),
{
    if s.len() == 0 {
        acc
    } else {
        M::op(combine_from::<M>(acc, s.drop_last()), s.last())
    }
}

/// The elements of `s` combined from the left; `None` when `s` is empty.
pub open spec fn combine_all_option_spec<M: Magma>(s: Seq<M::V>) -> Option<M::V> {
    if s.len() == 0 {
        None
    } else {
        Some(combine_from::<M>(s[0], s.skip(1)))
    }
}

/// The ways a call can fail.
#[derive(Debug, Clone, Copy, PartialEq, Eq)]
pub enum AlgebraError {
    /// An argument lies outside what the operation accepts, such as a repeat
    /// count of zero where there is no identity element.
    InvalidArgument,
}

/// A `Magma` whose operation is associative.
pub trait Semigroup: Magma + Associativity {
    /// `combine_n` that reports a zero count as `InvalidArgument` instead of
    /// requiring a positive one.
    fn try_combine_n(self, n: usize) -> (r: Result<Self, AlgebraError>)
        ensures
            n == 0 <==> r == Err::<Self, AlgebraError>(AlgebraError::InvalidArgument),
            r matches Ok(v) ==> v.deep_view() == power::<Self>(self.deep_view(), n as nat),
    {
        if n == 0 {
            Err(AlgebraError::InvalidArgument)
        } else {
            Ok(self.combine_n(n))
        }
    }

    /// `self` combined with itself until `n` copies take part. `n` must be
    /// positive: with no identity element there is nothing to return for zero.
    fn combine_n(self, n: usize) -> (r: Self)
        requires
            n >= 1,
        ensures
            r.deep_view() == power::<Self>(self.deep_view(), n as nat),
    {
        let mut result = self.clone();
        proof {
            Self::lemma_clone_keeps_view(self, result);
        }
        let mut i: usize = 1;
        while i < n
            invariant
                1 <= i <= n,
                result.deep_view() == power::<Self>(self.deep_view(), i as nat),
            decreases n - i,
        {
            let c = self.clone();
            proof {
                Self::lemma_clone_keeps_view(self, c);
            }
            result = result.combine(c);
            i = i + 1;
        }
        result
    }

    /// All elements of `xs` combined from the left, or `None` when `xs` is
    /// empty.
    fn combine_all_option(xs: Vec<Self>) -> (r: Option<Self>)
        ensures
            r.is_none() == (xs.len() == 0),
            r matches Some(v) ==> Some(v.deep_view()) == combine_all_option_spec::<Self>(xs.deep_view()),
    {
        let ghost s = xs.deep_view();
        let mut acc: Option<Self> = None;
        for x in it: xs.into_iter()
            invariant
                it.seq().len() == s.len(),
                forall|j: int| 0 <= j < s.len() ==> #[trigger] it.seq()[j].deep_view() == s[j],
                acc.is_none() == (it.index() == 0),
                acc matches Some(v) ==> v.deep_view() == combine_from::<Self>(s[0], s.subrange(1, it.index() as int)),
        {
            let ghost k = it.index() as int;
            proof {
                if k >= 1 {
                    assert(s.subrange(1, k + 1).drop_last() =~= s.subrange(1, k));
                }
            }
            acc = match acc {
                None => Some(x),
                Some(y) => Some(y.combine(x)),
            };
        }
        acc
    }
}

} // verus!

verus! {

/// With an associative operation, one more copy may join on the left as
/// well as on the right: `power(x, n + 1) == op(x, power(x, n))`.
pub proof fn lemma_power_succ<S: Semigroup>(x: S::V, n: nat)
    requires
        n >= 1,
    ensures
        power::<S>(x, n + 1) == S::op(x, power::<S>(x, n)),
    decreases n,
{
    if n > 1 {
        lemma_power_succ::<S>(x, (n - 1) as nat);
        S::lemma_associative(x, power::<S>(x, (n - 1) as nat), x);
    }
}

/// The associative law, for every `Semigroup`.
pub proof fn lemma_semigroup_associative<S: Semigroup>(x: S, y: S, z: S)
    ensures
        S::op(S::op(x.deep_view(), y.deep_view()), z.deep_view()) == S::op(
            x.deep_view(),
            S::op(y.deep_view(), z.deep_view()),
        ),
{
    S::lemma_associative(x.deep_view(), y.deep_view(), z.deep_view());
}

} // verus!

verus! {

/// `x` combined by `combine_k` with itself until `n` copies take part,
/// grouped from the left.
pub open spec fn power_k<M: MagmaK>(x: M::V, n: nat) -> M::V
    decreases n,
{
    if n <= 1 {
        x
    } else {
        M::op_k(power_k::<M>(x, (n - 1) as nat), x)
    }
}

/// `acc` combined by `combine_k` with each element of `s` in turn, from the
/// left.
pub open spec fn combine_k_from<M: MagmaK>(acc: M::V, s: Seq<M::V>) -> M::V
    decreases s.len(),
{
    if s.len() == 0 {
        acc
    } else {
        M::op_k(combine_k_from::<M>(acc, s.drop_last()), s.last())
    }
}

/// The elements of `s` combined by `combine_k` from the left; `None` when
/// `s` is empty.
pub open spec fn combine_all_option_k_spec<M: MagmaK>(s: Seq<M::V>) -> Option<M::V> {
    if s.len() == 0 {
        None
    } else {
        Some(combine_k_from::<M>(s[0], s.skip(1)))
    }
}

/// A `MagmaK` whose operation is associative.
pub trait SemigroupK: MagmaK {
    proof fn lemma_associative_k(x: Self::V, y: Self::V, z: Self::V)
        ensures
            Self::op_k(Self::op_k(x, y), z) == Self::op_k(x, Self::op_k(y, z)),
    ;

    /// `combine_n_k` that reports a zero count as `InvalidArgument` instead
    /// of requiring a positive one.
    fn try_combine_n_k(self, n: usize) -> (r: Result<Self, AlgebraError>)
        ensures
            n == 0 <==> r == Err::<Self, AlgebraError>(AlgebraError::InvalidArgument),
            r matches Ok(v) ==> v.deep_view() == power_k::<Self>(self.deep_view(), n as nat),
    {
        if n == 0 {
            Err(AlgebraError::InvalidArgument)
        } else {
            Ok(self.combine_n_k(n))
        }
    }

    /// `self` combined with itself until `n` copies take part; `n` must be
    /// positive.
    fn combine_n_k(self, n: usize) -> (r: Self)
        requires
            n >= 1,
        ensures
            r.deep_view() == power_k::<Self>(self.deep_view(), n as nat),
    {
        let mut result = self.clone();
        proof {
            Self::lemma_clone_keeps_view(self, result);
        }
        let mut i: usize = 1;
        while i < n
            invariant
                1 <= i <= n,
                result.deep_view() == power_k::<Self>(self.deep_view(), i as nat),
            decreases n - i,
        {
            let c = self.clone();
            proof {
                Self::lemma_clone_keeps_view(self, c);
            }
            result = result.combine_k(c);
            i = i + 1;
        }
        result
    }

    /// All elements of `xs` combined from the left, or `None` when `xs` is
    /// empty.
    fn combine_all_option_k(xs: Vec<Self>) -> (r: Option<Self>)
        ensures
            r.is_none() == (xs.len() == 0),
            r matches Some(v) ==> Some(v.deep_view()) == combine_all_option_k_spec::<Self>(xs.deep_view()),
    {
        let ghost s = xs.deep_view();
        let mut acc: Option<Self> = None;
        for x in it: xs.into_iter()
            invariant
                it.seq().len() == s.len(),
                forall|j: int| 0 <= j < s.len() ==> #[trigger] it.seq()[j].deep_view() == s[j],
                acc.is_none() == (it.index() == 0),
                acc matches Some(v) ==> v.deep_view() == combine_k_from::<Self>(s[0], s.subrange(1, it.index() as int)),
        {
            let ghost k = it.index() as int;
            proof {
                if k >= 1 {
                    assert(s.subrange(1, k + 1).drop_last() =~= s.subrange(1, k));
                }
            }
            acc = match acc {
                None => Some(x),
                Some(y) => Some(y.combine_k(x)),
            };
        }
        acc
    }
}

} // verus!
