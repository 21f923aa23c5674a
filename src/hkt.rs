//! Containers with one swappable inner type.
use vstd::prelude::*;

verus! {

/// A container type with one inner type: `Option<A>`, `Vec<A>`,
/// `Either<L, A>` all have `A` as `Unwrapped`.
pub trait Hkt1: Sized {
    type Unwrapped;
}

/// Names the same container with the inner type set to `T`: for
/// `Option<A>`, `Wrapped` is `Option<T>`.
///
/// `replaced(x, r, rel)` says that `r` is `x` with each inner value `a`
/// replaced by a value `b` with `rel(a, b)`: the shape stays, only the inner
/// values change. `holds(w, t)` says that `t` is one of the inner values of
/// `w`.
pub trait WithInner<T>: Hkt1 {
    type Wrapped;

    spec fn holds(w: Self::Wrapped, t: T) -> bool;

    spec fn replaced(x: Self, r: Self::Wrapped, rel: spec_fn(Self::Unwrapped, T) -> bool) -> bool;
}

/// The identity function, as a trait: `T: Id<U>` holds only where `T` and
/// `U` are the same type, which lets a signature ask for that equality.
pub trait Id<T>: Sized {
    /// `self`, seen as a value of `T`.
    spec fn as_same(self) -> T;

    fn id(self) -> (r: T)
        ensures
            r == self.as_same(),
    ;
}

impl<T> Id<T> for T {
    open spec fn as_same(self) -> T {
        self
    }

    fn id(self) -> (r: T) {
        self
    }
}

} // verus!
