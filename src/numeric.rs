//! Integers under wrapping addition: an abelian group for each width.
//!
//! Wrapping keeps `combine` defined on every pair, so the group laws hold on
//! the whole type rather than on the pairs whose sum fits.
use vstd::prelude::*;
use vstd::wrapping::*;
use crate::group::Group;
use crate::magma::{Carrier, Magma};
use crate::monoid::Monoid;
use crate::property::{Associativity, Commutativity, Identity, Inverse};
use crate::semigroup::Semigroup;

verus! {

impl Carrier for i8 {
    proof fn lemma_clone_keeps_view(a: Self, b: Self) {
    }
}

impl Magma for i8 {
    open spec fn op(x: i8, y: i8) -> i8 {
        i8_specs::wrapping_add(x, y)
    }

    fn combine(self, rhs: i8) -> (r: i8) {
        let r = self.wrapping_add(rhs);
        assert(r.deep_view() == r);
        r
    }
}

impl Associativity for i8 {
    proof fn lemma_associative(x: i8, y: i8, z: i8) {
    }
}

impl Commutativity for i8 {
    proof fn lemma_commutative(x: i8, y: i8) {
    }
}

impl Identity for i8 {
    open spec fn identity_spec() -> i8 {
        0
    }

    proof fn lemma_identity(x: i8) {
    }

    fn identity() -> (r: i8) {
        0
    }

    fn is_identity(x: i8) -> (r: bool) {
        x == 0
    }
}

impl Inverse for i8 {
    open spec fn inverse_spec(x: i8) -> i8 {
        i8_specs::wrapping_sub(0, x)
    }

    proof fn lemma_inverse(x: i8) {
    }

    fn inverse(x: i8) -> (r: i8) {
        0i8.wrapping_sub(x)
    }
}

impl Semigroup for i8 {
}

impl Monoid for i8 {
}

impl Group for i8 {
}

impl Carrier for i16 {
    proof fn lemma_clone_keeps_view(a: Self, b: Self) {
    }
}

impl Magma for i16 {
    open spec fn op(x: i16, y: i16) -> i16 {
        i16_specs::wrapping_add(x, y)
    }

    fn combine(self, rhs: i16) -> (r: i16) {
        let r = self.wrapping_add(rhs);
        assert(r.deep_view() == r);
        r
    }
}

impl Associativity for i16 {
    proof fn lemma_associative(x: i16, y: i16, z: i16) {
    }
}

impl Commutativity for i16 {
    proof fn lemma_commutative(x: i16, y: i16) {
    }
}

impl Identity for i16 {
    open spec fn identity_spec() -> i16 {
        0
    }

    proof fn lemma_identity(x: i16) {
    }

    fn identity() -> (r: i16) {
        0
    }

    fn is_identity(x: i16) -> (r: bool) {
        x == 0
    }
}

impl Inverse for i16 {
    open spec fn inverse_spec(x: i16) -> i16 {
        i16_specs::wrapping_sub(0, x)
    }

    proof fn lemma_inverse(x: i16) {
    }

    fn inverse(x: i16) -> (r: i16) {
        0i16.wrapping_sub(x)
    }
}

impl Semigroup for i16 {
}

impl Monoid for i16 {
}

impl Group for i16 {
}

impl Carrier for i32 {
    proof fn lemma_clone_keeps_view(a: Self, b: Self) {
    }
}

impl Magma for i32 {
    open spec fn op(x: i32, y: i32) -> i32 {
        i32_specs::wrapping_add(x, y)
    }

    fn combine(self, rhs: i32) -> (r: i32) {
        let r = self.wrapping_add(rhs);
        assert(r.deep_view() == r);
        r
    }
}

impl Associativity for i32 {
    proof fn lemma_associative(x: i32, y: i32, z: i32) {
    }
}

impl Commutativity for i32 {
    proof fn lemma_commutative(x: i32, y: i32) {
    }
}

impl Identity for i32 {
    open spec fn identity_spec() -> i32 {
        0
    }

    proof fn lemma_identity(x: i32) {
    }

    fn identity() -> (r: i32) {
        0
    }

    fn is_identity(x: i32) -> (r: bool) {
        x == 0
    }
}

impl Inverse for i32 {
    open spec fn inverse_spec(x: i32) -> i32 {
        i32_specs::wrapping_sub(0, x)
    }

    proof fn lemma_inverse(x: i32) {
    }

    fn inverse(x: i32) -> (r: i32) {
        0i32.wrapping_sub(x)
    }
}

impl Semigroup for i32 {
}

impl Monoid for i32 {
}

impl Group for i32 {
}

impl Carrier for i64 {
    proof fn lemma_clone_keeps_view(a: Self, b: Self) {
    }
}

impl Magma for i64 {
    open spec fn op(x: i64, y: i64) -> i64 {
        i64_specs::wrapping_add(x, y)
    }

    fn combine(self, rhs: i64) -> (r: i64) {
        let r = self.wrapping_add(rhs);
        assert(r.deep_view() == r);
        r
    }
}

impl Associativity for i64 {
    proof fn lemma_associative(x: i64, y: i64, z: i64) {
    }
}

impl Commutativity for i64 {
    proof fn lemma_commutative(x: i64, y: i64) {
    }
}

impl Identity for i64 {
    open spec fn identity_spec() -> i64 {
        0
    }

    proof fn lemma_identity(x: i64) {
    }

    fn identity() -> (r: i64) {
        0
    }

    fn is_identity(x: i64) -> (r: bool) {
        x == 0
    }
}

impl Inverse for i64 {
    open spec fn inverse_spec(x: i64) -> i64 {
        i64_specs::wrapping_sub(0, x)
    }

    proof fn lemma_inverse(x: i64) {
    }

    fn inverse(x: i64) -> (r: i64) {
        0i64.wrapping_sub(x)
    }
}

impl Semigroup for i64 {
}

impl Monoid for i64 {
}

impl Group for i64 {
}

impl Carrier for i128 {
    proof fn lemma_clone_keeps_view(a: Self, b: Self) {
    }
}

impl Magma for i128 {
    open spec fn op(x: i128, y: i128) -> i128 {
        i128_specs::wrapping_add(x, y)
    }

    fn combine(self, rhs: i128) -> (r: i128) {
        let r = self.wrapping_add(rhs);
        assert(r.deep_view() == r);
        r
    }
}

impl Associativity for i128 {
    proof fn lemma_associative(x: i128, y: i128, z: i128) {
    }
}

impl Commutativity for i128 {
    proof fn lemma_commutative(x: i128, y: i128) {
    }
}

impl Identity for i128 {
    open spec fn identity_spec() -> i128 {
        0
    }

    proof fn lemma_identity(x: i128) {
    }

    fn identity() -> (r: i128) {
        0
    }

    fn is_identity(x: i128) -> (r: bool) {
        x == 0
    }
}

impl Inverse for i128 {
    open spec fn inverse_spec(x: i128) -> i128 {
        i128_specs::wrapping_sub(0, x)
    }

    proof fn lemma_inverse(x: i128) {
    }

    fn inverse(x: i128) -> (r: i128) {
        0i128.wrapping_sub(x)
    }
}

impl Semigroup for i128 {
}

impl Monoid for i128 {
}

impl Group for i128 {
}

impl Carrier for isize {
    proof fn lemma_clone_keeps_view(a: Self, b: Self) {
    }
}

impl Magma for isize {
    open spec fn op(x: isize, y: isize) -> isize {
        isize_specs::wrapping_add(x, y)
    }

    fn combine(self, rhs: isize) -> (r: isize) {
        let r = self.wrapping_add(rhs);
        assert(r.deep_view() == r);
        r
    }
}

impl Associativity for isize {
    proof fn lemma_associative(x: isize, y: isize, z: isize) {
    }
}

impl Commutativity for isize {
    proof fn lemma_commutative(x: isize, y: isize) {
    }
}

impl Identity for isize {
    open spec fn identity_spec() -> isize {
        0
    }

    proof fn lemma_identity(x: isize) {
    }

    fn identity() -> (r: isize) {
        0
    }

    fn is_identity(x: isize) -> (r: bool) {
        x == 0
    }
}

impl Inverse for isize {
    open spec fn inverse_spec(x: isize) -> isize {
        isize_specs::wrapping_sub(0, x)
    }

    proof fn lemma_inverse(x: isize) {
    }

    fn inverse(x: isize) -> (r: isize) {
        0isize.wrapping_sub(x)
    }
}

impl Semigroup for isize {
}

impl Monoid for isize {
}

impl Group for isize {
}

impl Carrier for u8 {
    proof fn lemma_clone_keeps_view(a: Self, b: Self) {
    }
}

impl Magma for u8 {
    open spec fn op(x: u8, y: u8) -> u8 {
        u8_specs::wrapping_add(x, y)
    }

    fn combine(self, rhs: u8) -> (r: u8) {
        let r = self.wrapping_add(rhs);
        assert(r.deep_view() == r);
        r
    }
}

impl Associativity for u8 {
    proof fn lemma_associative(x: u8, y: u8, z: u8) {
    }
}

impl Commutativity for u8 {
    proof fn lemma_commutative(x: u8, y: u8) {
    }
}

impl Identity for u8 {
    open spec fn identity_spec() -> u8 {
        0
    }

    proof fn lemma_identity(x: u8) {
    }

    fn identity() -> (r: u8) {
        0
    }

    fn is_identity(x: u8) -> (r: bool) {
        x == 0
    }
}

impl Inverse for u8 {
    open spec fn inverse_spec(x: u8) -> u8 {
        u8_specs::wrapping_sub(0, x)
    }

    proof fn lemma_inverse(x: u8) {
    }

    fn inverse(x: u8) -> (r: u8) {
        0u8.wrapping_sub(x)
    }
}

impl Semigroup for u8 {
}

impl Monoid for u8 {
}

impl Group for u8 {
}

impl Carrier for u16 {
    proof fn lemma_clone_keeps_view(a: Self, b: Self) {
    }
}

impl Magma for u16 {
    open spec fn op(x: u16, y: u16) -> u16 {
        u16_specs::wrapping_add(x, y)
    }

    fn combine(self, rhs: u16) -> (r: u16) {
        let r = self.wrapping_add(rhs);
        assert(r.deep_view() == r);
        r
    }
}

impl Associativity for u16 {
    proof fn lemma_associative(x: u16, y: u16, z: u16) {
    }
}

impl Commutativity for u16 {
    proof fn lemma_commutative(x: u16, y: u16) {
    }
}

impl Identity for u16 {
    open spec fn identity_spec() -> u16 {
        0
    }

    proof fn lemma_identity(x: u16) {
    }

    fn identity() -> (r: u16) {
        0
    }

    fn is_identity(x: u16) -> (r: bool) {
        x == 0
    }
}

impl Inverse for u16 {
    open spec fn inverse_spec(x: u16) -> u16 {
        u16_specs::wrapping_sub(0, x)
    }

    proof fn lemma_inverse(x: u16) {
    }

    fn inverse(x: u16) -> (r: u16) {
        0u16.wrapping_sub(x)
    }
}

impl Semigroup for u16 {
}

impl Monoid for u16 {
}

impl Group for u16 {
}

impl Carrier for u32 {
    proof fn lemma_clone_keeps_view(a: Self, b: Self) {
    }
}

impl Magma for u32 {
    open spec fn op(x: u32, y: u32) -> u32 {
        u32_specs::wrapping_add(x, y)
    }

    fn combine(self, rhs: u32) -> (r: u32) {
        let r = self.wrapping_add(rhs);
        assert(r.deep_view() == r);
        r
    }
}

impl Associativity for u32 {
    proof fn lemma_associative(x: u32, y: u32, z: u32) {
    }
}

impl Commutativity for u32 {
    proof fn lemma_commutative(x: u32, y: u32) {
    }
}

impl Identity for u32 {
    open spec fn identity_spec() -> u32 {
        0
    }

    proof fn lemma_identity(x: u32) {
    }

    fn identity() -> (r: u32) {
        0
    }

    fn is_identity(x: u32) -> (r: bool) {
        x == 0
    }
}

impl Inverse for u32 {
    open spec fn inverse_spec(x: u32) -> u32 {
        u32_specs::wrapping_sub(0, x)
    }

    proof fn lemma_inverse(x: u32) {
    }

    fn inverse(x: u32) -> (r: u32) {
        0u32.wrapping_sub(x)
    }
}

impl Semigroup for u32 {
}

impl Monoid for u32 {
}

impl Group for u32 {
}

impl Carrier for u64 {
    proof fn lemma_clone_keeps_view(a: Self, b: Self) {
    }
}

impl Magma for u64 {
    open spec fn op(x: u64, y: u64) -> u64 {
        u64_specs::wrapping_add(x, y)
    }

    fn combine(self, rhs: u64) -> (r: u64) {
        let r = self.wrapping_add(rhs);
        assert(r.deep_view() == r);
        r
    }
}

impl Associativity for u64 {
    proof fn lemma_associative(x: u64, y: u64, z: u64) {
    }
}

impl Commutativity for u64 {
    proof fn lemma_commutative(x: u64, y: u64) {
    }
}

impl Identity for u64 {
    open spec fn identity_spec() -> u64 {
        0
    }

    proof fn lemma_identity(x: u64) {
    }

    fn identity() -> (r: u64) {
        0
    }

    fn is_identity(x: u64) -> (r: bool) {
        x == 0
    }
}

impl Inverse for u64 {
    open spec fn inverse_spec(x: u64) -> u64 {
        u64_specs::wrapping_sub(0, x)
    }

    proof fn lemma_inverse(x: u64) {
    }

    fn inverse(x: u64) -> (r: u64) {
        0u64.wrapping_sub(x)
    }
}

impl Semigroup for u64 {
}

impl Monoid for u64 {
}

impl Group for u64 {
}

impl Carrier for u128 {
    proof fn lemma_clone_keeps_view(a: Self, b: Self) {
    }
}

impl Magma for u128 {
    open spec fn op(x: u128, y: u128) -> u128 {
        u128_specs::wrapping_add(x, y)
    }

    fn combine(self, rhs: u128) -> (r: u128) {
        let r = self.wrapping_add(rhs);
        assert(r.deep_view() == r);
        r
    }
}

impl Associativity for u128 {
    proof fn lemma_associative(x: u128, y: u128, z: u128) {
    }
}

impl Commutativity for u128 {
    proof fn lemma_commutative(x: u128, y: u128) {
    }
}

impl Identity for u128 {
    open spec fn identity_spec() -> u128 {
        0
    }

    proof fn lemma_identity(x: u128) {
    }

    fn identity() -> (r: u128) {
        0
    }

    fn is_identity(x: u128) -> (r: bool) {
        x == 0
    }
}

impl Inverse for u128 {
    open spec fn inverse_spec(x: u128) -> u128 {
        u128_specs::wrapping_sub(0, x)
    }

    proof fn lemma_inverse(x: u128) {
    }

    fn inverse(x: u128) -> (r: u128) {
        0u128.wrapping_sub(x)
    }
}

impl Semigroup for u128 {
}

impl Monoid for u128 {
}

impl Group for u128 {
}

impl Carrier for usize {
    proof fn lemma_clone_keeps_view(a: Self, b: Self) {
    }
}

impl Magma for usize {
    open spec fn op(x: usize, y: usize) -> usize {
        usize_specs::wrapping_add(x, y)
    }

    fn combine(self, rhs: usize) -> (r: usize) {
        let r = self.wrapping_add(rhs);
        assert(r.deep_view() == r);
        r
    }
}

impl Associativity for usize {
    proof fn lemma_associative(x: usize, y: usize, z: usize) {
    }
}

impl Commutativity for usize {
    proof fn lemma_commutative(x: usize, y: usize) {
    }
}

impl Identity for usize {
    open spec fn identity_spec() -> usize {
        0
    }

    proof fn lemma_identity(x: usize) {
    }

    fn identity() -> (r: usize) {
        0
    }

    fn is_identity(x: usize) -> (r: bool) {
        x == 0
    }
}

impl Inverse for usize {
    open spec fn inverse_spec(x: usize) -> usize {
        usize_specs::wrapping_sub(0, x)
    }

    proof fn lemma_inverse(x: usize) {
    }

    fn inverse(x: usize) -> (r: usize) {
        0usize.wrapping_sub(x)
    }
}

impl Semigroup for usize {
}

impl Monoid for usize {
}

impl Group for usize {
}

} // verus!
