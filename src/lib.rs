//! Typeclasses of abstract algebra and functional programming, with their laws
//! proved for every instance this crate provides.
//!
//! The algebraic side (`Magma`, `Semigroup`, `Monoid`, `Group` and their
//! container-level `K` variants) describes each operation by a spec function
//! on the deep view of its values; the law markers (`Associativity`,
//! `Identity`, ...) carry the laws as proof obligations. The mapping side
//! (`Functor`, `Applicative`, `Monad`, `Foldable`) is given for `Option`,
//! `Vec` and `Either`; `State` provides the same operations as methods.
pub mod hkt;
pub mod magma;
pub mod property;
pub mod semigroup;
pub mod monoid;
pub mod group;
pub mod numeric;
pub mod string;
pub mod option;
pub mod vec;
pub mod functor;
pub mod applicative;
pub mod monad;
pub mod either;
pub mod foldable;
pub mod state;

pub use hkt::{Hkt1, Id, WithInner};
pub use magma::{Carrier, Magma, MagmaK};
pub use property::{Associativity, Commutativity, Identity, Inverse, Totality};
pub use semigroup::{AlgebraError, Semigroup, SemigroupK};
pub use monoid::{Monoid, MonoidK};
pub use group::Group;
pub use applicative::{Applicative, Apply, Apply2, Magmoidal, Monoidal};
pub use either::Either;
pub use foldable::Foldable;
pub use functor::{lift, Functor};
pub use monad::Monad;
pub use state::State;
