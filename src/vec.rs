//! `Vec` as a container: concatenation combines, and its elements map and
//! fold.
use vstd::prelude::*;
use crate::foldable::{computes2, fold_left_spec, fold_map_spec, fold_right_spec, fold_spec, deep_views, left_chain, lemma_fold_spec_prepend, maps_to, right_chain, Foldable};
use crate::functor::Functor;
use crate::hkt::{Hkt1, WithInner};
use crate::monoid::Monoid;
use crate::property::{Associativity, Identity};
use crate::semigroup::Semigroup;
use crate::magma::{Carrier, Magma, MagmaK};
use crate::monoid::MonoidK;
use crate::semigroup::SemigroupK;

verus! {

impl<A> Hkt1 for Vec<A> {
    type Unwrapped = A;
}

impl<A, T> WithInner<T> for Vec<A> {
    type Wrapped = Vec<T>;

    open spec fn holds(w: Vec<T>, t: T) -> bool {
        w@.contains(t)
    }

    open spec fn replaced(x: Vec<A>, r: Vec<T>, rel: spec_fn(A, T) -> bool) -> bool {
        &&& r.len() == x.len()
        &&& forall|i: int| 0 <= i < x.len() ==> #[trigger] rel(x[i], r[i])
    }
}

impl<T: Carrier> Carrier for Vec<T> {
    proof fn lemma_clone_keeps_view(a: Self, b: Self) {
        if a != b {
            assert forall|i: int| 0 <= i < a.len() implies a.deep_view()[i] == b.deep_view()[i] by {
                T::lemma_clone_keeps_view(a[i], b[i]);
            }
            assert(a.deep_view() =~= b.deep_view());
        }
    }
}

/// Concatenation, as an operation on values.
impl<T: Carrier> Magma for Vec<T> {
    open spec fn op(x: Seq<T::V>, y: Seq<T::V>) -> Seq<T::V> {
        x + y
    }

    fn combine(self, rhs: Vec<T>) -> (r: Vec<T>) {
        self.combine_k(rhs)
    }
}

impl<T: Carrier> Associativity for Vec<T> {
    proof fn lemma_associative(x: Seq<T::V>, y: Seq<T::V>, z: Seq<T::V>) {
        assert((x + y) + z =~= x + (y + z));
    }
}

impl<T: Carrier> Identity for Vec<T> {
    open spec fn identity_spec() -> Seq<T::V> {
        Seq::empty()
    }

    proof fn lemma_identity(x: Seq<T::V>) {
        assert(x + Seq::empty() =~= x);
        assert(Seq::empty() + x =~= x);
    }

    fn identity() -> (r: Vec<T>) {
        Self::identity_k()
    }

    fn is_identity(x: Vec<T>) -> (r: bool) {
        let r = x.len() == 0;
        proof {
            assert(x.deep_view().len() == x.len());
            if r {
                assert(x.deep_view() =~= Seq::<T::V>::empty());
            }
        }
        r
    }
}

impl<T: Carrier> Semigroup for Vec<T> {
}

impl<T: Carrier> Monoid for Vec<T> {
}

/// Concatenation.
impl<T: Carrier> MagmaK for Vec<T> {
    open spec fn op_k(x: Seq<T::V>, y: Seq<T::V>) -> Seq<T::V> {
        x + y
    }

    fn combine_k(self, rhs: Vec<T>) -> (r: Vec<T>) {
        let mut z = self;
        let mut y = rhs;
        let ghost x0 = z@;
        let ghost y0 = y@;
        z.append(&mut y);
        proof {
            let dx = Seq::new(x0.len(), |i: int| x0[i].deep_view());
            let dy = Seq::new(y0.len(), |i: int| y0[i].deep_view());
            assert(z@ =~= x0 + y0);
            assert(z.deep_view() =~= dx + dy);
            assert(self.deep_view() =~= dx);
            assert(rhs.deep_view() =~= dy);
            assert(z.deep_view() == Self::op_k(self.deep_view(), rhs.deep_view()));
        }
        z
    }
}

impl<T: Carrier> SemigroupK for Vec<T> {
    proof fn lemma_associative_k(x: Seq<T::V>, y: Seq<T::V>, z: Seq<T::V>) {
        assert((x + y) + z =~= x + (y + z));
    }
}

impl<T: Carrier> MonoidK for Vec<T> {
    open spec fn identity_k_spec() -> Seq<T::V> {
        Seq::empty()
    }

    proof fn lemma_identity_k(x: Seq<T::V>) {
        assert(x + Seq::empty() =~= x);
        assert(Seq::empty() + x =~= x);
    }

    fn identity_k() -> (r: Vec<T>) {
        let r = Vec::new();
        assert(r.deep_view() =~= Seq::<T::V>::empty());
        r
    }
}

} // verus!

verus! {

impl<A, B> Functor<A, B> for Vec<A> {
    fn map<F: Fn(A) -> B>(self, f: F) -> (r: Vec<B>) {
        let ghost s = self@;
        let mut r: Vec<B> = Vec::new();
        for x in it: self.into_iter()
            invariant
                it.seq() == s,
                forall|a: A| call_requires(f, (a,)),
                r.len() == it.index(),
                forall|j: int| 0 <= j < r.len() ==> call_ensures(f, (s[j],), #[trigger] r[j]),
        {
            r.push(f(x));
        }
        r
    }
}

/// Mapping a function that returns its argument gives back the vector.
pub proof fn lemma_vec_map_identity<A>(x: Vec<A>, r: Vec<A>, rel: spec_fn(A, A) -> bool)
    requires
        <Vec<A> as WithInner<A>>::replaced(x, r, rel),
        forall|a: A, b: A| #[trigger] rel(a, b) ==> b == a,
    ensures
        r@ == x@,
{
    assert forall|i: int| 0 <= i < x.len() implies r[i] == x[i] by {
        assert(rel(x[i], r[i]));
    }
    assert(r@ =~= x@);
}

/// Mapping `f` and then `g` gives what mapping their composition `h` may
/// give.
pub proof fn lemma_vec_map_compose<A, B, C>(
    x: Vec<A>,
    y: Vec<B>,
    z: Vec<C>,
    f: spec_fn(A, B) -> bool,
    g: spec_fn(B, C) -> bool,
    h: spec_fn(A, C) -> bool,
)
    requires
        <Vec<A> as WithInner<B>>::replaced(x, y, f),
        <Vec<B> as WithInner<C>>::replaced(y, z, g),
        forall|a: A, b: B, c: C| #[trigger] f(a, b) && #[trigger] g(b, c) ==> h(a, c),
    ensures
        <Vec<A> as WithInner<C>>::replaced(x, z, h),
{
    assert forall|i: int| 0 <= i < x.len() implies #[trigger] h(x[i], z[i]) by {
        assert(f(x[i], y[i]));
        assert(g(y[i], z[i]));
    }
}

/// Mapping a function that has one result for each argument has one
/// result.
pub proof fn lemma_vec_map_functional<A, B>(x: Vec<A>, r1: Vec<B>, r2: Vec<B>, rel: spec_fn(A, B) -> bool)
    requires
        <Vec<A> as WithInner<B>>::replaced(x, r1, rel),
        <Vec<A> as WithInner<B>>::replaced(x, r2, rel),
        forall|a: A, b1: B, b2: B| #[trigger] rel(a, b1) && #[trigger] rel(a, b2) ==> b1 == b2,
    ensures
        r1@ == r2@,
{
    assert forall|i: int| 0 <= i < x.len() implies r1[i] == r2[i] by {
        assert(rel(x[i], r1[i]) && rel(x[i], r2[i]));
    }
    assert(r1@ =~= r2@);
}

impl<A> Foldable<A> for Vec<A> {
    fn fold_left<B, F: Fn(B, A) -> B>(self, b: B, f: F) -> (r: B)
        ensures
            forall|g: spec_fn(B, A) -> B| #[trigger] computes2(f, g) ==> r == fold_left_spec(self@, b, g),
            exists|accs: Seq<B>|
                left_chain(self@, b, accs, f) && accs.last() == r,
    {
        let ghost s = self@;
        let mut acc = b;
        let ghost mut accs: Seq<B> = seq![b];
        for x in it: self.into_iter()
            invariant
                it.seq() == s,
                forall|x: B, a: A| call_requires(f, (x, a)),
                forall|g: spec_fn(B, A) -> B| #[trigger] computes2(f, g) ==> acc == fold_left_spec(s.take(it.index() as int), b, g),
                left_chain(s.take(it.index() as int), b, accs, f),
                accs.last() == acc,
        {
            let ghost k = it.index() as int;
            let ghost prev = acc;
            acc = f(acc, x);
            proof {
                let old_accs = accs;
                accs = accs.push(acc);
                assert(s.take(k + 1)[k] == s[k]);
                assert forall|i: int| 0 <= i < k + 1 implies #[trigger] call_ensures(f, (accs[i], s.take(k + 1)[i]), accs[i + 1]) by {
                    if i < k {
                        assert(s.take(k)[i] == s.take(k + 1)[i]);
                        assert(call_ensures(f, (old_accs[i], s.take(k)[i]), old_accs[i + 1]));
                    }
                }
                assert(s.take(k + 1).drop_last() =~= s.take(k));
                assert forall|g: spec_fn(B, A) -> B| #[trigger] computes2(f, g) implies acc == fold_left_spec(s.take(k + 1), b, g) by {
                    assert(call_ensures(f, (prev, s[k]), acc));
                }
            }
        }
        proof {
            assert(s.take(s.len() as int) =~= s);
        }
        acc
    }

    fn fold_right<B, F: Fn(A, B) -> B>(self, b: B, f: F) -> (r: B)
        ensures
            forall|g: spec_fn(A, B) -> B| #[trigger] computes2(f, g) ==> r == fold_right_spec(self@, b, g),
            exists|accs: Seq<B>|
                right_chain(self@, b, accs, f) && accs[0] == r,
    {
        let ghost s = self@;
        let mut v = self;
        let mut acc = b;
        let ghost mut tail: Seq<B> = seq![b];
        while v.len() > 0
            invariant
                v@ == s.take(v.len() as int),
                v.len() <= s.len(),
                forall|a: A, x: B| call_requires(f, (a, x)),
                forall|g: spec_fn(A, B) -> B| #[trigger] computes2(f, g) ==> fold_right_spec(s, b, g) == fold_right_spec(v@, acc, g),
                tail.len() == s.len() - v.len() + 1,
                tail[0] == acc,
                tail.last() == b,
                forall|j: int| 0 <= j < s.len() - v.len() ==> #[trigger] call_ensures(f, (s[v.len() + j], tail[j + 1]), tail[j]),
            decreases v.len(),
        {
            let ghost before = v@;
            let x = v.pop().unwrap();
            let ghost prev = acc;
            acc = f(x, acc);
            proof {
                let k = v.len() as int;
                let old_tail = tail;
                tail = seq![acc] + tail;
                assert(x == s[k]);
                assert forall|j: int| 0 <= j < s.len() - k implies #[trigger] call_ensures(f, (s[k + j], tail[j + 1]), tail[j]) by {
                    if j > 0 {
                        assert(call_ensures(f, (s[(k + 1) + (j - 1)], old_tail[(j - 1) + 1]), old_tail[j - 1]));
                    }
                }
                assert(v@ =~= before.drop_last());
                assert(v@ =~= s.take(v.len() as int));
                assert forall|g: spec_fn(A, B) -> B| #[trigger] computes2(f, g) implies fold_right_spec(s, b, g) == fold_right_spec(v@, acc, g) by {
                    assert(call_ensures(f, (x, prev), acc));
                }
            }
        }
        proof {
            assert forall|i: int| 0 <= i < s.len() implies #[trigger] call_ensures(f, (s[i], tail[i + 1]), tail[i]) by {
                assert(call_ensures(f, (s[0 + i], tail[i + 1]), tail[i]));
            }
        }
        acc
    }

    fn fold_map<M: Monoid, F: Fn(A) -> M>(self, f: F) -> (r: M)
        ensures
            forall|g: spec_fn(A) -> M::V| #[trigger] maps_to(f, g) ==> r.deep_view() == fold_map_spec::<A, M>(self@, M::identity_spec(), g),
            exists|ms: Seq<M>|
                ms.len() == self.len() && (forall|i: int| 0 <= i < self.len() ==> #[trigger] call_ensures(f, (self@[i],), ms[i]))
                    && r.deep_view() == fold_spec::<M>(deep_views(ms), M::identity_spec()),
    {
        let ghost s = self@;
        let mut v = self;
        let mut acc = M::identity();
        let ghost mut ims: Seq<M> = Seq::empty();
        proof {
            assert(deep_views(ims) =~= Seq::<M::V>::empty());
        }
        while v.len() > 0
            invariant
                v@ == s.take(v.len() as int),
                v.len() <= s.len(),
                forall|a: A| call_requires(f, (a,)),
                forall|g: spec_fn(A) -> M::V| #[trigger] maps_to(f, g) ==> fold_map_spec::<A, M>(s, M::identity_spec(), g) == fold_map_spec::<A, M>(v@, acc.deep_view(), g),
                ims.len() == s.len() - v.len(),
                forall|j: int| 0 <= j < ims.len() ==> #[trigger] call_ensures(f, (s[v.len() + j],), ims[j]),
                acc.deep_view() == fold_spec::<M>(deep_views(ims), M::identity_spec()),
            decreases v.len(),
        {
            let ghost before = v@;
            let x = v.pop().unwrap();
            let ghost prev = acc.deep_view();
            let y = f(x);
            let ghost old_acc = acc.deep_view();
            acc = y.combine(acc);
            proof {
                let k = v.len() as int;
                let old_ims = ims;
                ims = seq![y] + ims;
                assert(x == s[k]);
                assert forall|j: int| 0 <= j < ims.len() implies #[trigger] call_ensures(f, (s[k + j],), ims[j]) by {
                    if j > 0 {
                        assert(call_ensures(f, (s[(k + 1) + (j - 1)],), old_ims[j - 1]));
                    }
                }
                assert(deep_views(ims) =~= seq![y.deep_view()] + deep_views(old_ims));
                lemma_fold_spec_prepend::<M>(y.deep_view(), deep_views(old_ims), M::identity_spec());
                assert(v@ =~= before.drop_last());
                assert(v@ =~= s.take(v.len() as int));
                assert forall|g: spec_fn(A) -> M::V| #[trigger] maps_to(f, g) implies fold_map_spec::<A, M>(s, M::identity_spec(), g) == fold_map_spec::<A, M>(v@, acc.deep_view(), g) by {
                    assert(call_ensures(f, (x,), y));
                }
            }
        }
        proof {
            assert(s.take(0) =~= v@);
            assert forall|i: int| 0 <= i < s.len() implies #[trigger] call_ensures(f, (s[i],), ims[i]) by {
                assert(call_ensures(f, (s[0 + i],), ims[i]));
            }
        }
        acc
    }

    fn fold(self) -> (r: A)
        where
            A: Monoid,
        ensures
            r.deep_view() == fold_spec::<A>(self.deep_view(), A::identity_spec()),
    {
        let ghost s = self.deep_view();
        let mut v = self;
        let mut acc = A::identity();
        while v.len() > 0
            invariant
                v.deep_view() == s.take(v.len() as int),
                v.len() <= s.len(),
                fold_spec::<A>(s, A::identity_spec()) == fold_spec::<A>(v.deep_view(), acc.deep_view()),
            decreases v.len(),
        {
            let ghost before = v.deep_view();
            let x = v.pop().unwrap();
            acc = x.combine(acc);
            proof {
                assert(v.deep_view() =~= before.drop_last());
                assert(v.deep_view() =~= s.take(v.len() as int));
            }
        }
        proof {
            assert(s.take(0) =~= v.deep_view());
        }
        acc
    }
}

/// Composition law with equality: for a function `h` with one result for
/// each argument that `f` then `g` may give, `map(f)` then `map(g)` gives
/// exactly what `map(h)` gives.
pub proof fn lemma_vec_map_compose_eq<A, B, C>(
    x: Vec<A>,
    y: Vec<B>,
    z: Vec<C>,
    w: Vec<C>,
    f: spec_fn(A, B) -> bool,
    g: spec_fn(B, C) -> bool,
    h: spec_fn(A, C) -> bool,
)
    requires
        <Vec<A> as WithInner<B>>::replaced(x, y, f),
        <Vec<B> as WithInner<C>>::replaced(y, z, g),
        <Vec<A> as WithInner<C>>::replaced(x, w, h),
        forall|a: A, b: B, c: C| #[trigger] f(a, b) && #[trigger] g(b, c) ==> h(a, c),
        forall|a: A, c1: C, c2: C| #[trigger] h(a, c1) && #[trigger] h(a, c2) ==> c1 == c2,
    ensures
        z@ == w@,
{
    lemma_vec_map_compose(x, y, z, f, g, h);
    lemma_vec_map_functional(x, z, w, h);
}

} // verus!
