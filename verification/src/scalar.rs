use vstd::prelude::*;

verus! {

/// The numeric capability that every element kind of the library offers:
/// a mathematical value, the kind's range, exact arithmetic inside that
/// range, and a uniformly random sample.
///
/// This single interface replaces per-kind duplication of every operation;
/// each supported integer kind implements it below.
pub trait Scalar: Sized + Copy {
    /// The mathematical value of this element.
    spec fn sval(self) -> int;

    /// The smallest value of the kind.
    spec fn min_int() -> int;

    /// The largest value of the kind.
    spec fn max_int() -> int;

    /// Every element lies within the kind's range.
    proof fn bounds(x: Self)
        ensures
            Self::min_int() <= x.sval() <= Self::max_int(),
    ;

    /// The additive identity of the kind.
    fn zero() -> (r: Self)
        ensures
            r.sval() == 0,
    ;

    /// The multiplicative identity of the kind.
    fn one() -> (r: Self)
        ensures
            r.sval() == 1,
    ;

    /// Exact addition; the sum must fit in the kind.
    fn add_s(self, o: Self) -> (r: Self)
        requires
            Self::min_int() <= self.sval() + o.sval() <= Self::max_int(),
        ensures
            r.sval() == self.sval() + o.sval(),
    ;

    /// Exact subtraction; the difference must fit in the kind.
    fn sub_s(self, o: Self) -> (r: Self)
        requires
            Self::min_int() <= self.sval() - o.sval() <= Self::max_int(),
        ensures
            r.sval() == self.sval() - o.sval(),
    ;

    /// Exact multiplication; the product must fit in the kind.
    fn mul_s(self, o: Self) -> (r: Self)
        requires
            Self::min_int() <= self.sval() * o.sval() <= Self::max_int(),
        ensures
            r.sval() == self.sval() * o.sval(),
    ;

    /// Whether this element is the kind's zero.
    fn is_zero(self) -> (r: bool)
        ensures
            r <==> self.sval() == 0,
    ;

    /// A uniformly random element of the kind; nothing is promised of the
    /// outcome.
    fn sample() -> (r: Self);
}

/// Element kinds narrow enough to widen exactly into `i128`, the kind the
/// decomposition-based algorithms promote to.
pub trait WideScalar: Scalar {
    /// Exact widening into the promoted kind.
    fn to_wide(self) -> (r: i128)
        ensures
            r as int == self.sval(),
    ;
}

/// Relies on rand::random: a uniformly distributed value of the kind, drawn
/// from the thread-local generator. Nothing is assumed of the outcome.
pub assume_specification<T>[ rand::random::<T> ]() -> (r: T)
    where
        rand::distr::StandardUniform: rand::distr::Distribution<T>,
;

impl Scalar for i8 {
    open spec fn sval(self) -> int {
        self as int
    }

    open spec fn min_int() -> int {
        i8::MIN as int
    }

    open spec fn max_int() -> int {
        i8::MAX as int
    }

    proof fn bounds(x: i8) {
    }

    fn zero() -> (r: i8) {
        0
    }

    fn one() -> (r: i8) {
        1
    }

    fn add_s(self, o: i8) -> (r: i8) {
        self + o
    }

    fn sub_s(self, o: i8) -> (r: i8) {
        self - o
    }

    fn mul_s(self, o: i8) -> (r: i8) {
        self * o
    }

    fn is_zero(self) -> (r: bool) {
        self == 0
    }

    fn sample() -> (r: i8) {
        rand::random::<i8>()
    }
}

impl Scalar for u8 {
    open spec fn sval(self) -> int {
        self as int
    }

    open spec fn min_int() -> int {
        u8::MIN as int
    }

    open spec fn max_int() -> int {
        u8::MAX as int
    }

    proof fn bounds(x: u8) {
    }

    fn zero() -> (r: u8) {
        0
    }

    fn one() -> (r: u8) {
        1
    }

    fn add_s(self, o: u8) -> (r: u8) {
        self + o
    }

    fn sub_s(self, o: u8) -> (r: u8) {
        self - o
    }

    fn mul_s(self, o: u8) -> (r: u8) {
        self * o
    }

    fn is_zero(self) -> (r: bool) {
        self == 0
    }

    fn sample() -> (r: u8) {
        rand::random::<u8>()
    }
}

impl Scalar for i16 {
    open spec fn sval(self) -> int {
        self as int
    }

    open spec fn min_int() -> int {
        i16::MIN as int
    }

    open spec fn max_int() -> int {
        i16::MAX as int
    }

    proof fn bounds(x: i16) {
    }

    fn zero() -> (r: i16) {
        0
    }

    fn one() -> (r: i16) {
        1
    }

    fn add_s(self, o: i16) -> (r: i16) {
        self + o
    }

    fn sub_s(self, o: i16) -> (r: i16) {
        self - o
    }

    fn mul_s(self, o: i16) -> (r: i16) {
        self * o
    }

    fn is_zero(self) -> (r: bool) {
        self == 0
    }

    fn sample() -> (r: i16) {
        rand::random::<i16>()
    }
}

impl Scalar for u16 {
    open spec fn sval(self) -> int {
        self as int
    }

    open spec fn min_int() -> int {
        u16::MIN as int
    }

    open spec fn max_int() -> int {
        u16::MAX as int
    }

    proof fn bounds(x: u16) {
    }

    fn zero() -> (r: u16) {
        0
    }

    fn one() -> (r: u16) {
        1
    }

    fn add_s(self, o: u16) -> (r: u16) {
        self + o
    }

    fn sub_s(self, o: u16) -> (r: u16) {
        self - o
    }

    fn mul_s(self, o: u16) -> (r: u16) {
        self * o
    }

    fn is_zero(self) -> (r: bool) {
        self == 0
    }

    fn sample() -> (r: u16) {
        rand::random::<u16>()
    }
}

impl Scalar for i32 {
    open spec fn sval(self) -> int {
        self as int
    }

    open spec fn min_int() -> int {
        i32::MIN as int
    }

    open spec fn max_int() -> int {
        i32::MAX as int
    }

    proof fn bounds(x: i32) {
    }

    fn zero() -> (r: i32) {
        0
    }

    fn one() -> (r: i32) {
        1
    }

    fn add_s(self, o: i32) -> (r: i32) {
        self + o
    }

    fn sub_s(self, o: i32) -> (r: i32) {
        self - o
    }

    fn mul_s(self, o: i32) -> (r: i32) {
        self * o
    }

    fn is_zero(self) -> (r: bool) {
        self == 0
    }

    fn sample() -> (r: i32) {
        rand::random::<i32>()
    }
}

impl Scalar for u32 {
    open spec fn sval(self) -> int {
        self as int
    }

    open spec fn min_int() -> int {
        u32::MIN as int
    }

    open spec fn max_int() -> int {
        u32::MAX as int
    }

    proof fn bounds(x: u32) {
    }

    fn zero() -> (r: u32) {
        0
    }

    fn one() -> (r: u32) {
        1
    }

    fn add_s(self, o: u32) -> (r: u32) {
        self + o
    }

    fn sub_s(self, o: u32) -> (r: u32) {
        self - o
    }

    fn mul_s(self, o: u32) -> (r: u32) {
        self * o
    }

    fn is_zero(self) -> (r: bool) {
        self == 0
    }

    fn sample() -> (r: u32) {
        rand::random::<u32>()
    }
}

impl Scalar for i64 {
    open spec fn sval(self) -> int {
        self as int
    }

    open spec fn min_int() -> int {
        i64::MIN as int
    }

    open spec fn max_int() -> int {
        i64::MAX as int
    }

    proof fn bounds(x: i64) {
    }

    fn zero() -> (r: i64) {
        0
    }

    fn one() -> (r: i64) {
        1
    }

    fn add_s(self, o: i64) -> (r: i64) {
        self + o
    }

    fn sub_s(self, o: i64) -> (r: i64) {
        self - o
    }

    fn mul_s(self, o: i64) -> (r: i64) {
        self * o
    }

    fn is_zero(self) -> (r: bool) {
        self == 0
    }

    fn sample() -> (r: i64) {
        rand::random::<i64>()
    }
}

impl Scalar for u64 {
    open spec fn sval(self) -> int {
        self as int
    }

    open spec fn min_int() -> int {
        u64::MIN as int
    }

    open spec fn max_int() -> int {
        u64::MAX as int
    }

    proof fn bounds(x: u64) {
    }

    fn zero() -> (r: u64) {
        0
    }

    fn one() -> (r: u64) {
        1
    }

    fn add_s(self, o: u64) -> (r: u64) {
        self + o
    }

    fn sub_s(self, o: u64) -> (r: u64) {
        self - o
    }

    fn mul_s(self, o: u64) -> (r: u64) {
        self * o
    }

    fn is_zero(self) -> (r: bool) {
        self == 0
    }

    fn sample() -> (r: u64) {
        rand::random::<u64>()
    }
}

impl Scalar for i128 {
    open spec fn sval(self) -> int {
        self as int
    }

    open spec fn min_int() -> int {
        i128::MIN as int
    }

    open spec fn max_int() -> int {
        i128::MAX as int
    }

    proof fn bounds(x: i128) {
    }

    fn zero() -> (r: i128) {
        0
    }

    fn one() -> (r: i128) {
        1
    }

    fn add_s(self, o: i128) -> (r: i128) {
        self + o
    }

    fn sub_s(self, o: i128) -> (r: i128) {
        self - o
    }

    fn mul_s(self, o: i128) -> (r: i128) {
        self * o
    }

    fn is_zero(self) -> (r: bool) {
        self == 0
    }

    fn sample() -> (r: i128) {
        rand::random::<i128>()
    }
}

impl Scalar for u128 {
    open spec fn sval(self) -> int {
        self as int
    }

    open spec fn min_int() -> int {
        u128::MIN as int
    }

    open spec fn max_int() -> int {
        u128::MAX as int
    }

    proof fn bounds(x: u128) {
    }

    fn zero() -> (r: u128) {
        0
    }

    fn one() -> (r: u128) {
        1
    }

    fn add_s(self, o: u128) -> (r: u128) {
        self + o
    }

    fn sub_s(self, o: u128) -> (r: u128) {
        self - o
    }

    fn mul_s(self, o: u128) -> (r: u128) {
        self * o
    }

    fn is_zero(self) -> (r: bool) {
        self == 0
    }

    fn sample() -> (r: u128) {
        rand::random::<u128>()
    }
}

impl Scalar for isize {
    open spec fn sval(self) -> int {
        self as int
    }

    open spec fn min_int() -> int {
        isize::MIN as int
    }

    open spec fn max_int() -> int {
        isize::MAX as int
    }

    proof fn bounds(x: isize) {
    }

    fn zero() -> (r: isize) {
        0
    }

    fn one() -> (r: isize) {
        1
    }

    fn add_s(self, o: isize) -> (r: isize) {
        self + o
    }

    fn sub_s(self, o: isize) -> (r: isize) {
        self - o
    }

    fn mul_s(self, o: isize) -> (r: isize) {
        self * o
    }

    fn is_zero(self) -> (r: bool) {
        self == 0
    }

    fn sample() -> (r: isize) {
        #[verifier::truncate]
        (rand::random::<i64>() as isize)
    }
}

impl Scalar for usize {
    open spec fn sval(self) -> int {
        self as int
    }

    open spec fn min_int() -> int {
        usize::MIN as int
    }

    open spec fn max_int() -> int {
        usize::MAX as int
    }

    proof fn bounds(x: usize) {
    }

    fn zero() -> (r: usize) {
        0
    }

    fn one() -> (r: usize) {
        1
    }

    fn add_s(self, o: usize) -> (r: usize) {
        self + o
    }

    fn sub_s(self, o: usize) -> (r: usize) {
        self - o
    }

    fn mul_s(self, o: usize) -> (r: usize) {
        self * o
    }

    fn is_zero(self) -> (r: bool) {
        self == 0
    }

    fn sample() -> (r: usize) {
        #[verifier::truncate]
        (rand::random::<u64>() as usize)
    }
}

impl WideScalar for i8 {
    fn to_wide(self) -> (r: i128) {
        self as i128
    }
}

impl WideScalar for u8 {
    fn to_wide(self) -> (r: i128) {
        self as i128
    }
}

impl WideScalar for i16 {
    fn to_wide(self) -> (r: i128) {
        self as i128
    }
}

impl WideScalar for u16 {
    fn to_wide(self) -> (r: i128) {
        self as i128
    }
}

impl WideScalar for i32 {
    fn to_wide(self) -> (r: i128) {
        self as i128
    }
}

impl WideScalar for u32 {
    fn to_wide(self) -> (r: i128) {
        self as i128
    }
}

} // verus!
