//! Integers of unbounded size, held as a sign and a magnitude.

use crate::number::natural::{sign_of, Natural, Sign};
use vstd::prelude::*;

verus! {

/// An integer of unbounded size.
#[derive(Debug)]
pub struct Integer {
    negative: bool,
    magnitude: Natural,
}

impl View for Integer {
    type V = int;

    closed spec fn view(&self) -> int {
        if self.negative {
            -(self.magnitude@ as int)
        } else {
            self.magnitude@ as int
        }
    }
}

impl Clone for Integer {
    fn clone(&self) -> (copy: Self)
        ensures
            copy@ == self@,
    {
        Integer { negative: self.negative, magnitude: self.magnitude.clone() }
    }
}

impl Integer {
    /// Zero.
    pub fn zero() -> (n: Integer)
        ensures
            n@ == 0,
    {
        Integer { negative: false, magnitude: Natural::zero() }
    }

    /// The integer equal to `v`.
    pub fn from_i64(v: i64) -> (n: Integer)
        ensures
            n@ == v,
    {
        if v < 0 {
            let m: u64 = if v == i64::MIN {
                0x8000_0000_0000_0000u64
            } else {
                (-v) as u64
            };
            Integer { negative: true, magnitude: Natural::from_u64(m) }
        } else {
            Integer { negative: false, magnitude: Natural::from_u64(v as u64) }
        }
    }

    /// The integer of the given sign and magnitude.
    pub fn from_parts(negative: bool, magnitude: Natural) -> (n: Integer)
        ensures
            n@ == if negative {
                -(magnitude@ as int)
            } else {
                magnitude@ as int
            },
    {
        Integer { negative, magnitude }
    }

    /// The absolute value.
    pub fn magnitude(&self) -> (m: &Natural)
        ensures
            m@ == if self@ < 0 {
                -self@
            } else {
                self@
            },
    {
        &self.magnitude
    }

    /// The sign of the integer.
    pub fn sign(&self) -> (s: Sign)
        ensures
            s == sign_of(self@),
    {
        if self.magnitude.is_zero() {
            Sign::Zero
        } else if self.negative {
            Sign::Negative
        } else {
            Sign::Positive
        }
    }

    /// Whether the integer is zero.
    pub fn is_zero(&self) -> (zero: bool)
        ensures
            zero == (self@ == 0),
    {
        self.magnitude.is_zero()
    }

    /// The integer with the opposite sign.
    pub fn neg(&self) -> (n: Integer)
        ensures
            n@ == -self@,
    {
        Integer { negative: !self.negative, magnitude: self.magnitude.clone() }
    }

    /// The sum of two integers.
    pub fn add(&self, other: &Integer) -> (sum: Integer)
        ensures
            sum@ == self@ + other@,
    {
        if self.negative == other.negative {
            Integer { negative: self.negative, magnitude: self.magnitude.add(&other.magnitude) }
        } else {
            match self.magnitude.checked_sub(&other.magnitude) {
                Some(difference) => Integer { negative: self.negative, magnitude: difference },
                None => {
                    let difference = other.magnitude.checked_sub(&self.magnitude).unwrap();
                    Integer { negative: other.negative, magnitude: difference }
                },
            }
        }
    }

    /// The difference of two integers.
    pub fn sub(&self, other: &Integer) -> (difference: Integer)
        ensures
            difference@ == self@ - other@,
    {
        let opposite = other.neg();
        self.add(&opposite)
    }

    /// The product of two integers.
    pub fn mul(&self, other: &Integer) -> (product: Integer)
        ensures
            product@ == self@ * other@,
    {
        let magnitude = self.magnitude.mul(&other.magnitude);
        proof {
            let a = self.magnitude@ as int;
            let b = other.magnitude@ as int;
            assert((-a) * b == -(a * b)) by (nonlinear_arith);
            assert(a * (-b) == -(a * b)) by (nonlinear_arith);
            assert((-a) * (-b) == a * b) by (nonlinear_arith);
        }
        Integer { negative: self.negative != other.negative, magnitude }
    }

    /// The product of the integer and a natural number.
    pub fn mul_natural(&self, other: &Natural) -> (product: Integer)
        ensures
            product@ == self@ * other@,
    {
        let magnitude = self.magnitude.mul(other);
        proof {
            let a = self.magnitude@ as int;
            let b = other@ as int;
            assert((-a) * b == -(a * b)) by (nonlinear_arith);
        }
        Integer { negative: self.negative, magnitude }
    }

    /// Compares two integers: the sign of `self - other`.
    pub fn compare(&self, other: &Integer) -> (order: Sign)
        ensures
            order == sign_of(self@ - other@),
    {
        let difference = self.sub(other);
        difference.sign()
    }
}

} // verus!
