//! What the synthesizer asks of its sample type.
//!
//! The instrument is written once for every number type that has the four
//! arithmetic operators, negation, an order and the small constants; `f32` and
//! `f64` are the types it is meant for. It never calls a function of the number
//! type beyond these: where a design needs a square root or a power, the caller
//! hands that function in.
//!
//! The contracts speak of a sample's arithmetic through the specifications that
//! the operators carry:
//! - [`total`] says that the operators accept every operand. The functions that
//!   compute ask for it, since they apply the operators to whatever they are
//!   given. It holds of floating-point numbers, whose operators never fail, and
//!   not of the machine integers, whose operators overflow.
//! - [`exact`] says that an operator returns the value of its specification.
//!   Every statement about a computed value is made under it, in terms of those
//!   specifications (`add_spec`, `mul_spec` and so on).
//!
//! Both hold of [`Residue`](crate::residue::Residue), on which the contracts
//! can be followed on given numbers.

use core::cmp::Ordering;
use core::ops::{Add, Div, Mul, Neg, Sub};
use vstd::prelude::*;
use vstd::std_specs::cmp::PartialOrdSpec;
use vstd::std_specs::convert::FromSpec;
use vstd::std_specs::ops::{AddSpec, DivSpec, MulSpec, NegSpec, SubSpec};

verus! {

/// A number type the instrument can compute with.
pub trait Sample: Copy + PartialOrd + From<u8> + Neg<Output = Self> + Add<Output = Self> + Sub<
    Output = Self,
> + Mul<Output = Self> + Div<Output = Self> {

}

impl<T> Sample for T where
    T: Copy + PartialOrd + From<u8> + Neg<Output = T> + Add<Output = T> + Sub<Output = T> + Mul<
        Output = T,
    > + Div<Output = T>,
 {
}

/// The operators of `T` take every operand: none of them overflows or fails.
pub open spec fn total<T: Sample>() -> bool {
    &&& forall|a: T, b: T| #[trigger] a.add_req(b)
    &&& forall|a: T, b: T| #[trigger] a.sub_req(b)
    &&& forall|a: T, b: T| #[trigger] a.mul_req(b)
    &&& forall|a: T, b: T| #[trigger] a.div_req(b)
    &&& forall|a: T| #[trigger] a.neg_req()
}

/// The operators of `T` return what their specifications say.
pub open spec fn exact<T: Sample>() -> bool {
    &&& T::obeys_add_spec()
    &&& T::obeys_sub_spec()
    &&& T::obeys_mul_spec()
    &&& T::obeys_div_spec()
    &&& T::obeys_neg_spec()
    &&& converts::<T>()
    &&& ordered::<T>()
}

/// The small constants of `T` are what the conversion's specification says.
pub open spec fn converts<T: Sample>() -> bool {
    <T as FromSpec<u8>>::obeys_from_spec()
}

/// The comparisons of `T` return what the order's specification says.
pub open spec fn ordered<T: Sample>() -> bool {
    T::obeys_partial_cmp_spec()
}

/// `a < b` in the order of `T`.
pub open spec fn less<T: Sample>(a: T, b: T) -> bool {
    a.partial_cmp_spec(&b) == Some(Ordering::Less)
}

/// `a <= b` in the order of `T`.
pub open spec fn at_most<T: Sample>(a: T, b: T) -> bool {
    a.partial_cmp_spec(&b) matches Some(Ordering::Less | Ordering::Equal)
}

/// `a > b` in the order of `T`.
pub open spec fn greater<T: Sample>(a: T, b: T) -> bool {
    a.partial_cmp_spec(&b) == Some(Ordering::Greater)
}

/// The sample that stands for the small number `n`.
pub open spec fn number<T: Sample>(n: u8) -> T {
    <T as FromSpec<u8>>::from_spec(n)
}

/// The sample of a string at rest.
pub open spec fn zero<T: Sample>() -> T {
    number::<T>(0)
}

/// The sample that stands for the whole number `n`, read byte by byte from the top.
pub open spec fn whole_spec<T: Sample>(n: nat) -> T
    decreases n,
{
    if n == 0 {
        zero::<T>()
    } else {
        whole_spec::<T>(n / 256).mul_spec(number::<T>(16).mul_spec(number::<T>(16))).add_spec(
            number::<T>((n % 256) as u8),
        )
    }
}

/// The sample that stands for the whole number `n`.
pub fn whole<T: Sample>(n: u64) -> (r: T)
    requires
        total::<T>(),
    ensures
        exact::<T>() ==> r == whole_spec::<T>(n as nat),
    decreases n,
{
    if n == 0 {
        T::from(0u8)
    } else {
        let radix: T = T::from(16u8) * T::from(16u8);
        let top: T = whole(n / 256);
        top * radix + T::from((n % 256) as u8)
    }
}

/// The fraction `num / den` of two whole numbers.
pub open spec fn ratio<T: Sample>(num: nat, den: nat) -> T {
    whole_spec::<T>(num).div_spec(whole_spec::<T>(den))
}

/// The sample that stands for the fraction `num / den`.
pub fn fraction<T: Sample>(num: u64, den: u64) -> (r: T)
    requires
        total::<T>(),
    ensures
        exact::<T>() ==> r == ratio::<T>(num as nat, den as nat),
{
    whole::<T>(num) / whole::<T>(den)
}

} // verus!
