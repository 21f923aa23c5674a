//! Strings under concatenation: a monoid with the empty string as identity.
use vstd::prelude::*;
use vstd::string::StringExecFns;
use crate::magma::{Carrier, Magma};
use crate::monoid::Monoid;
use crate::property::{Associativity, Identity};
use crate::semigroup::Semigroup;

verus! {

impl Carrier for String {
    proof fn lemma_clone_keeps_view(a: Self, b: Self) {
    }
}

impl Magma for String {
    open spec fn op(x: Seq<char>, y: Seq<char>) -> Seq<char> {
        x + y
    }

    fn combine(self, rhs: String) -> (r: String) {
        let r = self.concat(rhs.as_str());
        assert(r.deep_view() == r@);
        r
    }
}

impl Associativity for String {
    proof fn lemma_associative(x: Seq<char>, y: Seq<char>, z: Seq<char>) {
        assert((x + y) + z =~= x + (y + z));
    }
}

impl Identity for String {
    open spec fn identity_spec() -> Seq<char> {
        Seq::empty()
    }

    proof fn lemma_identity(x: Seq<char>) {
        assert(x + Seq::empty() =~= x);
        assert(Seq::empty() + x =~= x);
    }

    fn identity() -> (r: String) {
        String::new()
    }

    fn is_identity(x: String) -> (r: bool) {
        let r = x.as_str().is_empty();
        proof {
            if r {
                assert(x.deep_view() =~= Seq::<char>::empty());
            }
        }
        r
    }
}

impl Semigroup for String {
}

impl Monoid for String {
}

} // verus!
