//! `Option` as an instance of every typeclass: values combine pointwise,
//! containers combine by keeping the first present value.
use vstd::prelude::*;
use crate::applicative::{Applicative, Apply, Apply2, Magmoidal, Monoidal};
use crate::functor::Functor;
use crate::hkt::{Hkt1, Id, WithInner};
use crate::monad::Monad;
use crate::magma::{Carrier, Magma, MagmaK};
use crate::monoid::{Monoid, MonoidK};
use crate::property::{Associativity, Identity};
use crate::semigroup::{Semigroup, SemigroupK};

verus! {

impl<A> Hkt1 for Option<A> {
    type Unwrapped = A;
}

impl<A, T> WithInner<T> for Option<A> {
    type Wrapped = Option<T>;

    open spec fn holds(w: Option<T>, t: T) -> bool {
        w == Some(t)
    }

    open spec fn replaced(x: Option<A>, r: Option<T>, rel: spec_fn(A, T) -> bool) -> bool {
        match (x, r) {
            (Some(a), Some(b)) => rel(a, b),
            (None, None) => true,
            _ => false,
        }
    }
}

impl<T: Carrier> Carrier for Option<T> {
    proof fn lemma_clone_keeps_view(a: Self, b: Self) {
        if a != b {
            if let Some(x) = a {
                T::lemma_clone_keeps_view(x, b->0);
            }
        }
    }
}

/// Combines the contents when both are present; otherwise keeps whichever is
/// present.
impl<T: Magma> Magma for Option<T> {
    open spec fn op(x: Option<T::V>, y: Option<T::V>) -> Option<T::V> {
        match (x, y) {
            (Some(a), Some(b)) => Some(T::op(a, b)),
            (Some(a), None) => Some(a),
            (None, _) => y,
        }
    }

    fn combine(self, rhs: Option<T>) -> (r: Option<T>) {
        let r = match (self, rhs) {
            (Some(x), Some(y)) => Some(x.combine(y)),
            (Some(x), None) => Some(x),
            (None, Some(y)) => Some(y),
            (None, None) => None,
        };
        assert(r.deep_view() == Self::op(self.deep_view(), rhs.deep_view()));
        r
    }
}

impl<T: Semigroup> Associativity for Option<T> {
    proof fn lemma_associative(x: Option<T::V>, y: Option<T::V>, z: Option<T::V>) {
        if let (Some(a), Some(b), Some(c)) = (x, y, z) {
            T::lemma_associative(a, b, c);
        }
    }
}

impl<T: Semigroup> Identity for Option<T> {
    open spec fn identity_spec() -> Option<T::V> {
        None
    }

    proof fn lemma_identity(x: Option<T::V>) {
    }

    fn identity() -> (r: Option<T>) {
        None
    }

    fn is_identity(x: Option<T>) -> (r: bool) {
        x.is_none()
    }
}

impl<T: Semigroup> Semigroup for Option<T> {
}

impl<T: Semigroup> Monoid for Option<T> {
}

/// Keeps the first present value.
impl<T: Carrier> MagmaK for Option<T> {
    open spec fn op_k(x: Option<T::V>, y: Option<T::V>) -> Option<T::V> {
        match x {
            Some(_) => x,
            None => y,
        }
    }

    fn combine_k(self, rhs: Option<T>) -> (r: Option<T>) {
        match self {
            Some(x) => Some(x),
            None => rhs,
        }
    }
}

impl<T: Carrier> SemigroupK for Option<T> {
    proof fn lemma_associative_k(x: Option<T::V>, y: Option<T::V>, z: Option<T::V>) {
    }
}

impl<T: Carrier> MonoidK for Option<T> {
    open spec fn identity_k_spec() -> Option<T::V> {
        None
    }

    proof fn lemma_identity_k(x: Option<T::V>) {
    }

    fn identity_k() -> (r: Option<T>) {
        let r = None;
        assert(r.deep_view() == Self::identity_k_spec());
        r
    }
}

} // verus!

verus! {

impl<A, B> Functor<A, B> for Option<A> {
    fn map<F: Fn(A) -> B>(self, f: F) -> (r: Option<B>) {
        match self {
            Some(a) => Some(f(a)),
            None => None,
        }
    }
}

} // verus!

verus! {

/// `r` is what `flat_map` may give on `x`: `None` stays `None`, and
/// `Some(a)` gives an `r` with `rel(a, r)`.
pub open spec fn option_flat_mapped<A, B>(x: Option<A>, r: Option<B>, rel: spec_fn(A, Option<B>) -> bool) -> bool {
    match x {
        Some(a) => rel(a, r),
        None => r is None,
    }
}

/// Present only when both are present.
impl<A, B> Magmoidal<A, B> for Option<A> {
    open spec fn product_spec(x: Option<A>, b: Option<B>) -> Option<(A, B)> {
        match (x, b) {
            (Some(p), Some(q)) => Some((p, q)),
            _ => None,
        }
    }

    fn product(self, b: Option<B>) -> (r: Option<(A, B)>) {
        match (self, b) {
            (Some(x), Some(y)) => Some((x, y)),
            _ => None,
        }
    }
}

impl<A> Monoidal for Option<A> {
    open spec fn unit_spec() -> Option<()> {
        Some(())
    }

    fn unit() -> (r: Option<()>) {
        Some(())
    }
}

impl<A, B> Applicative<A, B> for Option<A> {
    open spec fn pure_spec(b: B) -> Option<B> {
        Some(b)
    }

    fn pure(b: B) -> (r: Option<B>)
        where
            Self: Id<Option<B>>,
    {
        Some(b)
    }
}

/// A result only when both the value and the function are present.
impl<A, B, F> Apply<A, B, F> for Option<A> {
    open spec fn applied(x: Option<A>, ff: Option<F>, r: Option<B>, rel: spec_fn(F, A, B) -> bool) -> bool {
        match (x, ff, r) {
            (Some(a), Some(f), Some(b)) => rel(f, a, b),
            (Some(_), Some(_), None) => false,
            (_, _, r) => r is None,
        }
    }

    fn ap(self, ff: Option<F>) -> (r: Option<B>)
        where
            F: Fn(A) -> B,
    {
        match (self, ff) {
            (Some(a), Some(f)) => {
                assert(<Option<A> as WithInner<F>>::holds(ff, f));
                Some(f(a))
            },
            _ => None,
        }
    }
}

/// A result only when both values and the function are present.
impl<A, B, C, G> Apply2<A, B, C, G> for Option<A> {
    open spec fn applied2(x: Option<A>, y: Option<B>, gg: Option<G>, r: Option<C>, rel: spec_fn(G, A, B, C) -> bool) -> bool {
        match (x, y, gg, r) {
            (Some(a), Some(b), Some(g), Some(c)) => rel(g, a, b, c),
            (Some(_), Some(_), Some(_), None) => false,
            (_, _, _, r) => r is None,
        }
    }

    fn ap2(self, b: Option<B>, g: Option<G>) -> (r: Option<C>)
        where
            G: Fn(A, B) -> C,
    {
        match (self, b, g) {
            (Some(x), Some(y), Some(f)) => {
                assert(<Option<A> as WithInner<G>>::holds(g, f));
                Some(f(x, y))
            },
            _ => None,
        }
    }
}

impl<A, B> Monad<A, B> for Option<A> {
    open spec fn flat_mapped(x: Option<A>, r: Option<B>, rel: spec_fn(A, Option<B>) -> bool) -> bool {
        option_flat_mapped(x, r, rel)
    }

    fn flat_map<F: Fn(A) -> Option<B>>(self, f: F) -> (r: Option<B>) {
        match self {
            Some(a) => f(a),
            None => None,
        }
    }

    fn flatten(self) -> (r: Option<B>)
        where
            A: Id<Option<B>>,
    {
        match self {
            Some(a) => a.id(),
            None => None,
        }
    }
}

/// Mapping a function that returns its argument gives back the container.
pub proof fn lemma_option_map_identity<A>(x: Option<A>, r: Option<A>, rel: spec_fn(A, A) -> bool)
    requires
        <Option<A> as WithInner<A>>::replaced(x, r, rel),
        forall|a: A, b: A| #[trigger] rel(a, b) ==> b == a,
    ensures
        r == x,
{
}

/// Mapping `f` and then `g` gives what mapping their composition `h` may
/// give.
pub proof fn lemma_option_map_compose<A, B, C>(
    x: Option<A>,
    y: Option<B>,
    z: Option<C>,
    f: spec_fn(A, B) -> bool,
    g: spec_fn(B, C) -> bool,
    h: spec_fn(A, C) -> bool,
)
    requires
        <Option<A> as WithInner<B>>::replaced(x, y, f),
        <Option<B> as WithInner<C>>::replaced(y, z, g),
        forall|a: A, b: B, c: C| #[trigger] f(a, b) && #[trigger] g(b, c) ==> h(a, c),
    ensures
        <Option<A> as WithInner<C>>::replaced(x, z, h),
{
    if let (Some(a), Some(b), Some(c)) = (x, y, z) {
        assert(f(a, b) && g(b, c));
    }
}

/// Mapping a function that has one result for each argument has one
/// result.
pub proof fn lemma_option_map_functional<A, B>(x: Option<A>, r1: Option<B>, r2: Option<B>, rel: spec_fn(A, B) -> bool)
    requires
        <Option<A> as WithInner<B>>::replaced(x, r1, rel),
        <Option<A> as WithInner<B>>::replaced(x, r2, rel),
        forall|a: A, b1: B, b2: B| #[trigger] rel(a, b1) && #[trigger] rel(a, b2) ==> b1 == b2,
    ensures
        r1 == r2,
{
}

/// Left identity: `pure(a).flat_map(f)` gives what `f(a)` gives.
pub proof fn lemma_option_left_identity<A, B>(a: A, r: Option<B>, f: spec_fn(A, Option<B>) -> bool)
    ensures
        option_flat_mapped(<Option<A> as Applicative<A, A>>::pure_spec(a), r, f) == f(a, r),
{
}

/// Right identity: `m.flat_map(pure)` gives back `m`.
pub proof fn lemma_option_right_identity<A>(m: Option<A>, r: Option<A>, p: spec_fn(A, Option<A>) -> bool)
    requires
        option_flat_mapped(m, r, p),
        forall|a: A, o: Option<A>| #[trigger] p(a, o) ==> o == Some(a),
    ensures
        r == m,
{
}

/// Associativity: `m.flat_map(f).flat_map(g)` gives what
/// `m.flat_map(|a| f(a).flat_map(g))` may give.
pub proof fn lemma_option_flat_map_associative<A, B, C>(
    m: Option<A>,
    y: Option<B>,
    z: Option<C>,
    f: spec_fn(A, Option<B>) -> bool,
    g: spec_fn(B, Option<C>) -> bool,
    h: spec_fn(A, Option<C>) -> bool,
)
    requires
        option_flat_mapped(m, y, f),
        option_flat_mapped(y, z, g),
        forall|a: A, u: Option<B>, v: Option<C>| #[trigger] f(a, u) && #[trigger] option_flat_mapped(u, v, g) ==> h(a, v),
    ensures
        option_flat_mapped(m, z, h),
{
    if let Some(a) = m {
        assert(f(a, y) && option_flat_mapped(y, z, g));
    }
}

/// Composition law with equality: for a function `h` with one result for
/// each argument that `f` then `g` may give, `map(f)` then `map(g)` gives
/// exactly what `map(h)` gives.
pub proof fn lemma_option_map_compose_eq<A, B, C>(
    x: Option<A>,
    y: Option<B>,
    z: Option<C>,
    w: Option<C>,
    f: spec_fn(A, B) -> bool,
    g: spec_fn(B, C) -> bool,
    h: spec_fn(A, C) -> bool,
)
    requires
        <Option<A> as WithInner<B>>::replaced(x, y, f),
        <Option<B> as WithInner<C>>::replaced(y, z, g),
        <Option<A> as WithInner<C>>::replaced(x, w, h),
        forall|a: A, b: B, c: C| #[trigger] f(a, b) && #[trigger] g(b, c) ==> h(a, c),
        forall|a: A, c1: C, c2: C| #[trigger] h(a, c1) && #[trigger] h(a, c2) ==> c1 == c2,
    ensures
        z == w,
{
    lemma_option_map_compose(x, y, z, f, g, h);
    lemma_option_map_functional(x, z, w, h);
}

/// Left identity with equality: when `f` has one result for each argument,
/// `pure(a).flat_map(f)` is exactly `f(a)`.
pub proof fn lemma_option_left_identity_eq<A, B>(a: A, r: Option<B>, q: Option<B>, f: spec_fn(A, Option<B>) -> bool)
    requires
        option_flat_mapped(<Option<A> as Applicative<A, A>>::pure_spec(a), r, f),
        f(a, q),
        forall|x: A, o1: Option<B>, o2: Option<B>| #[trigger] f(x, o1) && #[trigger] f(x, o2) ==> o1 == o2,
    ensures
        r == q,
{
}

/// Associativity with equality: when `h` has one result for each
/// argument, `m.flat_map(f).flat_map(g)` is exactly `m.flat_map(h)` for
/// `h = |a| f(a).flat_map(g)`.
pub proof fn lemma_option_flat_map_associative_eq<A, B, C>(
    m: Option<A>,
    y: Option<B>,
    z: Option<C>,
    w: Option<C>,
    f: spec_fn(A, Option<B>) -> bool,
    g: spec_fn(B, Option<C>) -> bool,
    h: spec_fn(A, Option<C>) -> bool,
)
    requires
        option_flat_mapped(m, y, f),
        option_flat_mapped(y, z, g),
        option_flat_mapped(m, w, h),
        forall|a: A, u: Option<B>, v: Option<C>| #[trigger] f(a, u) && #[trigger] option_flat_mapped(u, v, g) ==> h(a, v),
        forall|a: A, v1: Option<C>, v2: Option<C>| #[trigger] h(a, v1) && #[trigger] h(a, v2) ==> v1 == v2,
    ensures
        z == w,
{
    lemma_option_flat_map_associative(m, y, z, f, g, h);
    if let Some(a) = m {
        assert(h(a, z) && h(a, w));
    }
}

} // verus!
