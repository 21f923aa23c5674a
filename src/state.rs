//! Deferred stateful computations.
//!
//! Composing computations builds a new function around the old ones, and
//! the type of that function is a closure that has no name. So `State`
//! offers `map`, `product`, `ap`, `flat_map`, `pure` and `unit` as methods
//! rather than through the `Functor` and `Monad` traits, whose results are
//! named types. Each composition runs its parts from left to right, handing
//! on the state that each part ends in.
use vstd::prelude::*;
use std::marker::PhantomData;
use std::rc::Rc;

verus! {

/// Relies on `Rc::clone`: the new pointer points at the same value.
#[verifier::external_body]
fn share<T>(p: &Rc<T>) -> (r: Rc<T>)
    ensures
        *r == **p,
{
    Rc::clone(p)
}

/// A computation that takes a state and gives back a new state and a
/// value. The function is held behind a shared pointer, so a `State` can be
/// cloned cheaply and reused in several larger computations.
pub struct State<S, A, F> {
    run_fn: Rc<F>,
    marker: PhantomData<(S, A)>,
}

/// A clone shares the function of the value it was cloned from.
impl<S, A, F> Clone for State<S, A, F> {
    fn clone(&self) -> (r: Self)
        ensures
            r.func() == self.func(),
    {
        State { run_fn: share(&self.run_fn), marker: PhantomData }
    }
}

impl<S, A, F> State<S, A, F> {
    /// The function this computation runs.
    pub closed spec fn func(&self) -> F {
        *self.run_fn
    }
}

impl<S, A, F: Fn(S) -> (S, A)> State<S, A, F> {
    /// The computation can run from any state.
    pub open spec fn total(&self) -> bool {
        forall|s: S| call_requires(self.func(), (s,))
    }

    /// Run from `s`, the computation may end in state `out.0` with value
    /// `out.1`.
    pub open spec fn runs(&self, s: S, out: (S, A)) -> bool {
        call_ensures(self.func(), (s,), out)
    }

    /// Wraps `f`.
    pub fn new(f: Rc<F>) -> (r: Self)
        ensures
            r.func() == *f,
    {
        State { run_fn: f, marker: PhantomData }
    }

    /// Runs the computation from `s`.
    pub fn run(&self, s: S) -> (r: (S, A))
        requires
            self.total(),
        ensures
            self.runs(s, r),
    {
        (*self.run_fn)(s)
    }

    /// Runs the computation from `s` and gives back its value.
    pub fn eval(&self, s: S) -> (r: A)
        requires
            self.total(),
        ensures
            exists|t: S| self.runs(s, (t, r)),
    {
        self.run(s).1
    }

    /// Runs the computation from `s` and gives back the state it ends in.
    pub fn exec(&self, s: S) -> (r: S)
        requires
            self.total(),
        ensures
            exists|a: A| self.runs(s, (r, a)),
    {
        self.run(s).0
    }

    /// A computation that sets the state to a clone of `s`, whatever it was.
    pub fn put(&self, s: S) -> (r: State<S, (), impl Fn(S) -> (S, ())>)
        where
            S: Clone,
        ensures
            r.total(),
            forall|t: S, out: (S, ())| #[trigger] r.runs(t, out) ==> cloned(s, out.0),
    {
        let s0 = Ghost(s);
        let f = move |_t: S| -> (out: (S, ()))
            ensures
                cloned(s0@, out.0),
            {
                (s.clone(), ())
            };
        State::new(Rc::new(f))
    }

    /// A computation that keeps the state and gives a clone of it as its
    /// value.
    pub fn get(&self) -> (r: State<S, S, impl Fn(S) -> (S, S)>)
        where
            S: Clone,
        ensures
            r.total(),
            forall|t: S, out: (S, S)| #[trigger] r.runs(t, out) ==> out.0 == t && cloned(t, out.1),
    {
        let f = |t: S| -> (out: (S, S))
            ensures
                out.0 == t && cloned(t, out.1),
            {
                let c = t.clone();
                (t, c)
            };
        State::new(Rc::new(f))
    }

    /// A computation that keeps the state and gives `()`.
    pub fn unit(&self) -> (r: State<S, (), impl Fn(S) -> (S, ())>)
        ensures
            r.total(),
            forall|t: S, out: (S, ())| #[trigger] r.runs(t, out) ==> out == (t, ()),
    {
        let f = |t: S| -> (out: (S, ()))
            ensures
                out == (t, ()),
            {
                (t, ())
            };
        State::new(Rc::new(f))
    }

    /// A computation that keeps the state and gives a clone of `b`.
    pub fn pure<B: Clone>(&self, b: B) -> (r: State<S, B, impl Fn(S) -> (S, B)>)
        ensures
            r.total(),
            forall|t: S, out: (S, B)| #[trigger] r.runs(t, out) ==> out.0 == t && cloned(b, out.1),
    {
        let b0 = Ghost(b);
        let f = move |t: S| -> (out: (S, B))
            ensures
                out.0 == t && cloned(b0@, out.1),
            {
                (t, b.clone())
            };
        State::new(Rc::new(f))
    }

    /// Applies `g` to the value, keeping the state that the computation
    /// ends in.
    pub fn map<B, G: Fn(A) -> B>(self, g: G) -> (r: State<S, B, impl Fn(S) -> (S, B)>)
        requires
            self.total(),
            forall|a: A| call_requires(g, (a,)),
        ensures
            r.total(),
            state_mapped(self, r, |a: A, b: B| call_ensures(g, (a,), b)),
    {
        let me = Ghost(self);
        let g0 = Ghost(g);
        let f = move |s: S| -> (out: (S, B))
            ensures
                exists|mid: (S, A)| me@.runs(s, mid) && out.0 == mid.0 && call_ensures(g0@, (mid.1,), out.1),
            {
                let (t, a) = self.run(s);
                (t, g(a))
            };
        State::new(Rc::new(f))
    }

    /// Runs `self` and then `b` from the state `self` ends in, and pairs
    /// their values.
    pub fn product<B, G: Fn(S) -> (S, B)>(self, b: State<S, B, G>) -> (r: State<S, (A, B), impl Fn(S) -> (S, (A, B))>)
        requires
            self.total(),
            b.total(),
        ensures
            r.total(),
            forall|s: S, out: (S, (A, B))| #[trigger] r.runs(s, out) ==> exists|m1: (S, A), m2: (S, B)|
                self.runs(s, m1) && b.runs(m1.0, m2) && out == (m2.0, (m1.1, m2.1)),
    {
        let me = Ghost(self);
        let b0 = Ghost(b);
        let f = move |s: S| -> (out: (S, (A, B)))
            ensures
                exists|m1: (S, A), m2: (S, B)| me@.runs(s, m1) && b0@.runs(m1.0, m2) && out == (m2.0, (m1.1, m2.1)),
            {
                let (t, x) = self.run(s);
                let (u, y) = b.run(t);
                (u, (x, y))
            };
        State::new(Rc::new(f))
    }

    /// Runs `ff` and then `self` from the state `ff` ends in, and applies
    /// the function that `ff` gave to the value that `self` gave.
    pub fn ap<B, G: Fn(A) -> B, H: Fn(S) -> (S, G)>(self, ff: State<S, G, H>) -> (r: State<S, B, impl Fn(S) -> (S, B)>)
        requires
            self.total(),
            ff.total(),
            forall|s: S, m1: (S, G), a: A| #[trigger] ff.runs(s, m1) ==> #[trigger] call_requires(m1.1, (a,)),
        ensures
            r.total(),
            forall|s: S, out: (S, B)| #[trigger] r.runs(s, out) ==> exists|m1: (S, G), m2: (S, A)|
                ff.runs(s, m1) && self.runs(m1.0, m2) && out.0 == m2.0 && call_ensures(m1.1, (m2.1,), out.1),
    {
        let me = Ghost(self);
        let ff0 = Ghost(ff);
        let f = move |s: S| -> (out: (S, B))
            ensures
                exists|m1: (S, G), m2: (S, A)| ff0@.runs(s, m1) && me@.runs(m1.0, m2) && out.0 == m2.0 && call_ensures(m1.1, (m2.1,), out.1),
            {
                let (t, g) = ff.run(s);
                let (u, a) = self.run(t);
                (u, g(a))
            };
        State::new(Rc::new(f))
    }

    /// Runs `self`, then the computation that `f` builds from its value,
    /// from the state `self` ends in.
    pub fn flat_map<B, T: Fn(S) -> (S, B), G: Fn(A) -> State<S, B, T>>(self, f: G) -> (r: State<S, B, impl Fn(S) -> (S, B)>)
        requires
            self.total(),
            forall|a: A| call_requires(f, (a,)),
            forall|a: A, st: State<S, B, T>| #[trigger] call_ensures(f, (a,), st) ==> st.total(),
        ensures
            r.total(),
            state_flat_mapped(self, r, |a: A, st: State<S, B, T>| call_ensures(f, (a,), st)),
    {
        let me = Ghost(self);
        let f0 = Ghost(f);
        let h = move |s: S| -> (out: (S, B))
            ensures
                exists|mid: (S, A), st: State<S, B, T>| me@.runs(s, mid) && call_ensures(f0@, (mid.1,), st) && st.runs(mid.0, out),
            {
                let (t, a) = self.run(s);
                let st = f(a);
                st.run(t)
            };
        State::new(Rc::new(h))
    }
}

/// `r` runs as `m` does, with each value `a` that `m` gives replaced by a
/// value `b` with `rel(a, b)`.
pub open spec fn state_mapped<S, A, B, F: Fn(S) -> (S, A), R: Fn(S) -> (S, B)>(
    m: State<S, A, F>,
    r: State<S, B, R>,
    rel: spec_fn(A, B) -> bool,
) -> bool {
    forall|s: S, out: (S, B)| #[trigger] r.runs(s, out) ==> exists|mid: (S, A)|
        m.runs(s, mid) && out.0 == mid.0 && rel(mid.1, out.1)
}

/// `r` runs as `m` followed, from the state `m` ends in, by a computation
/// `st` with `rel(a, st)` for the value `a` that `m` gave.
pub open spec fn state_flat_mapped<S, A, B, F: Fn(S) -> (S, A), T: Fn(S) -> (S, B), R: Fn(S) -> (S, B)>(
    m: State<S, A, F>,
    r: State<S, B, R>,
    rel: spec_fn(A, State<S, B, T>) -> bool,
) -> bool {
    forall|s: S, out: (S, B)| #[trigger] r.runs(s, out) ==> exists|mid: (S, A), st: State<S, B, T>|
        m.runs(s, mid) && rel(mid.1, st) && st.runs(mid.0, out)
}

/// Mapping a function that returns its argument runs as the computation
/// itself.
pub proof fn lemma_state_map_identity<S, A, F: Fn(S) -> (S, A), R: Fn(S) -> (S, A)>(
    m: State<S, A, F>,
    r: State<S, A, R>,
    rel: spec_fn(A, A) -> bool,
)
    requires
        state_mapped(m, r, rel),
        forall|a: A, b: A| #[trigger] rel(a, b) ==> b == a,
    ensures
        forall|s: S, out: (S, A)| #[trigger] r.runs(s, out) ==> m.runs(s, out),
{
    assert forall|s: S, out: (S, A)| #[trigger] r.runs(s, out) implies m.runs(s, out) by {
        let mid = choose|mid: (S, A)| m.runs(s, mid) && out.0 == mid.0 && rel(mid.1, out.1);
        assert(mid == out);
    }
}

/// Mapping `f` and then `g` runs as mapping their composition `h` may run.
pub proof fn lemma_state_map_compose<S, A, B, C, F: Fn(S) -> (S, A), R1: Fn(S) -> (S, B), R2: Fn(S) -> (S, C)>(
    m: State<S, A, F>,
    r1: State<S, B, R1>,
    r2: State<S, C, R2>,
    f: spec_fn(A, B) -> bool,
    g: spec_fn(B, C) -> bool,
    h: spec_fn(A, C) -> bool,
)
    requires
        state_mapped(m, r1, f),
        state_mapped(r1, r2, g),
        forall|a: A, b: B, c: C| #[trigger] f(a, b) && #[trigger] g(b, c) ==> h(a, c),
    ensures
        state_mapped(m, r2, h),
{
    assert forall|s: S, out: (S, C)| #[trigger] r2.runs(s, out) implies exists|mid: (S, A)|
        m.runs(s, mid) && out.0 == mid.0 && h(mid.1, out.1) by {
        let m2 = choose|m2: (S, B)| r1.runs(s, m2) && out.0 == m2.0 && g(m2.1, out.1);
        let m1 = choose|m1: (S, A)| m.runs(s, m1) && m2.0 == m1.0 && f(m1.1, m2.1);
        assert(f(m1.1, m2.1) && g(m2.1, out.1));
    }
}

/// Left identity: flat-mapping a computation that keeps the state and
/// gives `a` runs as the computations that `rel` relates to `a`.
pub proof fn lemma_state_left_identity<S, A, B, P: Fn(S) -> (S, A), T: Fn(S) -> (S, B), R: Fn(S) -> (S, B)>(
    a: A,
    p: State<S, A, P>,
    r: State<S, B, R>,
    rel: spec_fn(A, State<S, B, T>) -> bool,
)
    requires
        forall|s: S, out: (S, A)| #[trigger] p.runs(s, out) ==> out == (s, a),
        state_flat_mapped(p, r, rel),
    ensures
        forall|s: S, out: (S, B)| #[trigger] r.runs(s, out) ==> exists|st: State<S, B, T>| rel(a, st) && st.runs(s, out),
{
    assert forall|s: S, out: (S, B)| #[trigger] r.runs(s, out) implies exists|st: State<S, B, T>| rel(a, st) && st.runs(s, out) by {
        let (mid, st) = choose|mid: (S, A), st: State<S, B, T>| p.runs(s, mid) && rel(mid.1, st) && st.runs(mid.0, out);
        assert(mid == (s, a));
        assert(rel(a, st) && st.runs(s, out));
    }
}

/// Right identity: flat-mapping with computations that keep the state and
/// give the value back runs as the computation itself.
pub proof fn lemma_state_right_identity<S, A, F: Fn(S) -> (S, A), T: Fn(S) -> (S, A), R: Fn(S) -> (S, A)>(
    m: State<S, A, F>,
    r: State<S, A, R>,
    rel: spec_fn(A, State<S, A, T>) -> bool,
)
    requires
        state_flat_mapped(m, r, rel),
        forall|a: A, st: State<S, A, T>| #[trigger] rel(a, st) ==> forall|s: S, out: (S, A)| #[trigger] st.runs(s, out) ==> out == (s, a),
    ensures
        forall|s: S, out: (S, A)| #[trigger] r.runs(s, out) ==> m.runs(s, out),
{
    assert forall|s: S, out: (S, A)| #[trigger] r.runs(s, out) implies m.runs(s, out) by {
        let (mid, st) = choose|mid: (S, A), st: State<S, A, T>| m.runs(s, mid) && rel(mid.1, st) && st.runs(mid.0, out);
        assert(rel(mid.1, st));
        assert(out == (mid.0, mid.1));
        assert(mid == out);
    }
}

} // verus!
