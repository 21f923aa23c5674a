//! Reducing a container to a summary value.
use vstd::prelude::*;
use crate::hkt::Hkt1;
use crate::monoid::Monoid;

verus! {

/// `b` combined with each element of `s` by `f`, from the left:
/// `f(f(f(b, s[0]), s[1]), ...)`.
pub open spec fn fold_left_spec<A, B>(s: Seq<A>, b: B, f: spec_fn(B, A) -> B) -> B
    decreases s.len(),
{
    if s.len() == 0 {
        b
    } else {
        f(fold_left_spec(s.drop_last(), b, f), s.last())
    }
}

/// Each element of `s` combined by `f` with `b`, from the right:
/// `f(s[0], f(s[1], ... f(s[n - 1], b)))`.
pub open spec fn fold_right_spec<A, B>(s: Seq<A>, b: B, f: spec_fn(A, B) -> B) -> B
    decreases s.len(),
{
    if s.len() == 0 {
        b
    } else {
        fold_right_spec(s.drop_last(), f(s.last(), b), f)
    }
}

/// The images under `g` of the elements of `s`, combined from the right
/// onto `acc`.
pub open spec fn fold_map_spec<A, M: Monoid>(s: Seq<A>, acc: M::V, g: spec_fn(A) -> M::V) -> M::V
    decreases s.len(),
{
    if s.len() == 0 {
        acc
    } else {
        fold_map_spec::<A, M>(s.drop_last(), M::op(g(s.last()), acc), g)
    }
}

/// The elements of `s` combined from the right onto `acc`.
pub open spec fn fold_spec<M: Monoid>(s: Seq<M::V>, acc: M::V) -> M::V
    decreases s.len(),
{
    if s.len() == 0 {
        acc
    } else {
        fold_spec::<M>(s.drop_last(), M::op(s.last(), acc))
    }
}

/// `accs` is a run of a left fold of `s` from `b`: it starts at `b`, and
/// each step goes from `accs[i]` to `accs[i + 1]`, a possible result of
/// `f(accs[i], s[i])`.
pub open spec fn left_chain<A, B, F: Fn(B, A) -> B>(s: Seq<A>, b: B, accs: Seq<B>, f: F) -> bool {
    &&& accs.len() == s.len() + 1
    &&& accs[0] == b
    &&& forall|i: int| 0 <= i < s.len() ==> #[trigger] call_ensures(f, (accs[i], s[i]), accs[i + 1])
}

/// `accs` is a run of a right fold of `s` onto `b`: it ends at `b`, and each
/// step goes from `accs[i + 1]` to `accs[i]`, a possible result of
/// `f(s[i], accs[i + 1])`.
pub open spec fn right_chain<A, B, F: Fn(A, B) -> B>(s: Seq<A>, b: B, accs: Seq<B>, f: F) -> bool {
    &&& accs.len() == s.len() + 1
    &&& accs[s.len() as int] == b
    &&& forall|i: int| 0 <= i < s.len() ==> #[trigger] call_ensures(f, (s[i], accs[i + 1]), accs[i])
}

/// The deep views of the elements of `ms`.
pub open spec fn deep_views<M: Monoid>(ms: Seq<M>) -> Seq<M::V> {
    Seq::new(ms.len(), |i: int| ms[i].deep_view())
}

/// Folding from the right onto `acc` with one more element in front.
pub proof fn lemma_fold_spec_prepend<M: Monoid>(y: M::V, t: Seq<M::V>, acc: M::V)
    ensures
        fold_spec::<M>(seq![y] + t, acc) == M::op(y, fold_spec::<M>(t, acc)),
    decreases t.len(),
{
    let u = seq![y] + t;
    if t.len() == 0 {
        assert(u.drop_last() =~= Seq::<M::V>::empty());
        assert(u.last() == y);
        assert(fold_spec::<M>(u.drop_last(), M::op(y, acc)) == M::op(y, acc));
    } else {
        assert(u.drop_last() =~= seq![y] + t.drop_last());
        assert(u.last() == t.last());
        lemma_fold_spec_prepend::<M>(y, t.drop_last(), M::op(t.last(), acc));
    }
}

/// `f` always returns `g` of its arguments.
pub open spec fn computes2<X, Y, Z, F: Fn(X, Y) -> Z>(f: F, g: spec_fn(X, Y) -> Z) -> bool {
    forall|x: X, y: Y, z: Z| #[trigger] call_ensures(f, (x, y), z) ==> z == g(x, y)
}

/// `f` always returns a value whose deep view is `g` of its argument.
pub open spec fn maps_to<A, M: Monoid, F: Fn(A) -> M>(f: F, g: spec_fn(A) -> M::V) -> bool {
    forall|a: A, m: M| #[trigger] call_ensures(f, (a,), m) ==> m.deep_view() == g(a)
}

/// A container whose elements, of type `A`, can be reduced to one value.
pub trait Foldable<A>: Hkt1<Unwrapped = A> {
    /// Left-associative fold: `f(f(f(b, x0), x1), ...)`.
    fn fold_left<B, F: Fn(B, A) -> B>(self, b: B, f: F) -> B
        requires
            forall|x: B, a: A| call_requires(f, (x, a)),
    ;

    /// Right-associative fold: `f(x0, f(x1, ... f(xn, b)))`.
    fn fold_right<B, F: Fn(A, B) -> B>(self, b: B, f: F) -> B
        requires
            forall|a: A, x: B| call_requires(f, (a, x)),
    ;

    /// Maps each element into a `Monoid` and combines the images from the
    /// right, starting from the identity.
    fn fold_map<M: Monoid, F: Fn(A) -> M>(self, f: F) -> M
        requires
            forall|a: A| call_requires(f, (a,)),
    ;

    /// Combines the elements, which form a `Monoid`, from the right,
    /// starting from the identity.
    fn fold(self) -> A
        where
            A: Monoid,
    ;
}

/// Folding from the left and from the right agree when the operation is
/// commutative and associative.
pub proof fn lemma_fold_left_right_agree<A>(s: Seq<A>, b: A, f: spec_fn(A, A) -> A)
    requires
        forall|x: A, y: A| #[trigger] f(x, y) == f(y, x),
        forall|x: A, y: A, z: A| #[trigger] f(f(x, y), z) == f(x, f(y, z)),
    ensures
        fold_left_spec(s, b, f) == fold_right_spec(s, b, f),
    decreases s.len(),
{
    if s.len() > 0 {
        let t = s.drop_last();
        let x = s.last();
        lemma_fold_left_right_agree(t, b, f);
        lemma_fold_right_pull(t, x, b, f);
        assert(f(fold_right_spec(t, b, f), x) == f(x, fold_right_spec(t, b, f)));
    }
}

/// With a commutative and associative `f`, a value folded in at the start
/// can be pulled out to the front.
proof fn lemma_fold_right_pull<A>(t: Seq<A>, x: A, c: A, f: spec_fn(A, A) -> A)
    requires
        forall|x: A, y: A| #[trigger] f(x, y) == f(y, x),
        forall|x: A, y: A, z: A| #[trigger] f(f(x, y), z) == f(x, f(y, z)),
    ensures
        fold_right_spec(t, f(x, c), f) == f(x, fold_right_spec(t, c, f)),
    decreases t.len(),
{
    if t.len() > 0 {
        let u = t.drop_last();
        let a = t.last();
        assert(f(a, f(x, c)) == f(x, f(a, c))) by {
            assert(f(f(a, x), c) == f(a, f(x, c)));
            assert(f(f(x, a), c) == f(x, f(a, c)));
            assert(f(a, x) == f(x, a));
        }
        lemma_fold_right_pull(u, x, f(a, c), f);
    }
}

/// Mapping each element to itself and folding gives `fold`.
pub proof fn lemma_fold_map_identity<M: Monoid>(s: Seq<M>, acc: M::V)
    ensures
        fold_map_spec::<M, M>(s, acc, |m: M| m.deep_view()) == fold_spec::<M>(
            Seq::new(s.len(), |i: int| s[i].deep_view()),
            acc,
        ),
    decreases s.len(),
{
    if s.len() > 0 {
        let t = s.drop_last();
        let next = M::op(s.last().deep_view(), acc);
        lemma_fold_map_identity::<M>(t, next);
        assert(Seq::new(s.len(), |i: int| s[i].deep_view()).drop_last() =~= Seq::new(
            t.len(),
            |i: int| t[i].deep_view(),
        ));
    }
}

} // verus!
