//! Whole numbers modulo 2^64: a sample type whose arithmetic is exact.
//!
//! Floating-point numbers are what the instrument is played with, yet nothing
//! can be said of what their operators return. On residues every operator
//! takes every operand and returns exactly what its specification says, so
//! every contract of the library can be followed on them number by number.

use crate::sample::{exact, total};
use core::cmp::Ordering;
use core::ops::{Add, Div, Mul, Neg, Sub};
use vstd::prelude::*;
use vstd::std_specs::cmp::PartialOrdSpecImpl;
use vstd::std_specs::convert::FromSpecImpl;
use vstd::std_specs::ops::{AddSpecImpl, DivSpecImpl, MulSpecImpl, NegSpecImpl, SubSpecImpl};

verus! {

/// A whole number modulo 2^64.
#[derive(Clone, Copy, Debug, PartialEq, Eq, Structural)]
pub struct Residue(pub u64);

impl Add for Residue {
    type Output = Residue;

    fn add(self, rhs: Residue) -> (r: Residue) {
        Residue(self.0.wrapping_add(rhs.0))
    }
}

impl AddSpecImpl for Residue {
    open spec fn obeys_add_spec() -> bool {
        true
    }

    open spec fn add_req(self, rhs: Residue) -> bool {
        true
    }

    open spec fn add_spec(self, rhs: Residue) -> Residue {
        Residue(self.0.wrapping_add(rhs.0))
    }
}

impl Sub for Residue {
    type Output = Residue;

    fn sub(self, rhs: Residue) -> (r: Residue) {
        Residue(self.0.wrapping_sub(rhs.0))
    }
}

impl SubSpecImpl for Residue {
    open spec fn obeys_sub_spec() -> bool {
        true
    }

    open spec fn sub_req(self, rhs: Residue) -> bool {
        true
    }

    open spec fn sub_spec(self, rhs: Residue) -> Residue {
        Residue(self.0.wrapping_sub(rhs.0))
    }
}

impl Mul for Residue {
    type Output = Residue;

    fn mul(self, rhs: Residue) -> (r: Residue) {
        Residue(self.0.wrapping_mul(rhs.0))
    }
}

impl MulSpecImpl for Residue {
    open spec fn obeys_mul_spec() -> bool {
        true
    }

    open spec fn mul_req(self, rhs: Residue) -> bool {
        true
    }

    open spec fn mul_spec(self, rhs: Residue) -> Residue {
        Residue(self.0.wrapping_mul(rhs.0))
    }
}

impl Div for Residue {
    type Output = Residue;

    /// The whole quotient; zero where the divisor is zero.
    fn div(self, rhs: Residue) -> (r: Residue) {
        if rhs.0 == 0 {
            Residue(0)
        } else {
            Residue(self.0 / rhs.0)
        }
    }
}

impl DivSpecImpl for Residue {
    open spec fn obeys_div_spec() -> bool {
        true
    }

    open spec fn div_req(self, rhs: Residue) -> bool {
        true
    }

    open spec fn div_spec(self, rhs: Residue) -> Residue {
        if rhs.0 == 0 {
            Residue(0)
        } else {
            Residue(self.0 / rhs.0)
        }
    }
}

impl Neg for Residue {
    type Output = Residue;

    fn neg(self) -> (r: Residue) {
        Residue(0u64.wrapping_sub(self.0))
    }
}

impl NegSpecImpl for Residue {
    open spec fn obeys_neg_spec() -> bool {
        true
    }

    open spec fn neg_req(self) -> bool {
        true
    }

    open spec fn neg_spec(self) -> Residue {
        Residue(0u64.wrapping_sub(self.0))
    }
}

impl From<u8> for Residue {
    fn from(v: u8) -> (r: Residue) {
        Residue(v as u64)
    }
}

impl FromSpecImpl<u8> for Residue {
    open spec fn obeys_from_spec() -> bool {
        true
    }

    open spec fn from_spec(v: u8) -> Residue {
        Residue(v as u64)
    }
}

impl PartialOrd for Residue {
    fn partial_cmp(&self, other: &Residue) -> (r: Option<Ordering>) {
        if self.0 < other.0 {
            Some(Ordering::Less)
        } else if self.0 > other.0 {
            Some(Ordering::Greater)
        } else {
            Some(Ordering::Equal)
        }
    }
}

impl PartialOrdSpecImpl for Residue {
    open spec fn obeys_partial_cmp_spec() -> bool {
        true
    }

    open spec fn partial_cmp_spec(&self, other: &Residue) -> Option<Ordering> {
        if self.0 < other.0 {
            Some(Ordering::Less)
        } else if self.0 > other.0 {
            Some(Ordering::Greater)
        } else {
            Some(Ordering::Equal)
        }
    }
}

/// Residues are a sample type on which every contract applies in full.
pub proof fn lemma_residues_are_exact()
    ensures
        total::<Residue>(),
        exact::<Residue>(),
{
}

} // verus!
