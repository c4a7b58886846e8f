use vstd::prelude::*;

verus! {

/// The arithmetic that vectors and matrices need from their element type:
/// an additive identity, addition and multiplication, each described by a
/// spec function so that contracts can speak of them.
///
/// The integer implementations below use two's-complement wrapping, so that
/// no operation can panic.
pub trait Numeric: Copy + Sized {
    spec fn spec_zero() -> Self;

    spec fn spec_add(self, other: Self) -> Self;

    spec fn spec_mul(self, other: Self) -> Self;

    /// The value as a mathematical integer, used for rendering.
    spec fn spec_int(self) -> int;

    fn zero() -> (r: Self)
        ensures
            r == Self::spec_zero(),
    ;

    fn num_add(self, other: Self) -> (r: Self)
        ensures
            r == self.spec_add(other),
    ;

    fn num_mul(self, other: Self) -> (r: Self)
        ensures
            r == self.spec_mul(other),
    ;

    fn to_i128(self) -> (r: i128)
        ensures
            r as int == self.spec_int(),
            i64::MIN <= r <= u64::MAX,
    ;
}

impl Numeric for i32 {
    open spec fn spec_zero() -> i32 {
        0
    }

    open spec fn spec_add(self, other: i32) -> i32 {
        vstd::wrapping::i32_specs::wrapping_add(self, other)
    }

    open spec fn spec_mul(self, other: i32) -> i32 {
        vstd::wrapping::i32_specs::wrapping_mul(self, other)
    }

    open spec fn spec_int(self) -> int {
        self as int
    }

    fn zero() -> (r: i32) {
        0
    }

    fn num_add(self, other: i32) -> (r: i32) {
        self.wrapping_add(other)
    }

    fn num_mul(self, other: i32) -> (r: i32) {
        self.wrapping_mul(other)
    }

    fn to_i128(self) -> (r: i128) {
        self as i128
    }
}

impl Numeric for i64 {
    open spec fn spec_zero() -> i64 {
        0
    }

    open spec fn spec_add(self, other: i64) -> i64 {
        vstd::wrapping::i64_specs::wrapping_add(self, other)
    }

    open spec fn spec_mul(self, other: i64) -> i64 {
        vstd::wrapping::i64_specs::wrapping_mul(self, other)
    }

    open spec fn spec_int(self) -> int {
        self as int
    }

    fn zero() -> (r: i64) {
        0
    }

    fn num_add(self, other: i64) -> (r: i64) {
        self.wrapping_add(other)
    }

    fn num_mul(self, other: i64) -> (r: i64) {
        self.wrapping_mul(other)
    }

    fn to_i128(self) -> (r: i128) {
        self as i128
    }
}

impl Numeric for u32 {
    open spec fn spec_zero() -> u32 {
        0
    }

    open spec fn spec_add(self, other: u32) -> u32 {
        vstd::wrapping::u32_specs::wrapping_add(self, other)
    }

    open spec fn spec_mul(self, other: u32) -> u32 {
        vstd::wrapping::u32_specs::wrapping_mul(self, other)
    }

    open spec fn spec_int(self) -> int {
        self as int
    }

    fn zero() -> (r: u32) {
        0
    }

    fn num_add(self, other: u32) -> (r: u32) {
        self.wrapping_add(other)
    }

    fn num_mul(self, other: u32) -> (r: u32) {
        self.wrapping_mul(other)
    }

    fn to_i128(self) -> (r: i128) {
        self as i128
    }
}

impl Numeric for u64 {
    open spec fn spec_zero() -> u64 {
        0
    }

    open spec fn spec_add(self, other: u64) -> u64 {
        vstd::wrapping::u64_specs::wrapping_add(self, other)
    }

    open spec fn spec_mul(self, other: u64) -> u64 {
        vstd::wrapping::u64_specs::wrapping_mul(self, other)
    }

    open spec fn spec_int(self) -> int {
        self as int
    }

    fn zero() -> (r: u64) {
        0
    }

    fn num_add(self, other: u64) -> (r: u64) {
        self.wrapping_add(other)
    }

    fn num_mul(self, other: u64) -> (r: u64) {
        self.wrapping_mul(other)
    }

    fn to_i128(self) -> (r: i128) {
        self as i128
    }
}

} // verus!
