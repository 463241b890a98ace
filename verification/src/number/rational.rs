//! Exact rational numbers.

use crate::number::integer::Integer;
use crate::number::natural::{Natural, Sign};
use vstd::prelude::*;

verus! {

/// The quotient of two integers as a real number.
pub open spec fn quotient(numerator: int, denominator: int) -> real {
    numerator as real / denominator as real
}

/// The sign of a real number.
pub open spec fn sign_of_real(v: real) -> Sign {
    if v < 0real {
        Sign::Negative
    } else if v == 0real {
        Sign::Zero
    } else {
        Sign::Positive
    }
}

pub proof fn lemma_quotient_add(a: int, b: int, c: int, d: int)
    requires
        b > 0,
        d > 0,
    ensures
        b * d > 0,
        quotient(a * d + c * b, b * d) == quotient(a, b) + quotient(c, d),
{
    assert(b * d > 0) by (nonlinear_arith)
        requires
            b > 0,
            d > 0,
    ;
    assert(quotient(a * d + c * b, b * d) == quotient(a, b) + quotient(c, d)) by (nonlinear_arith)
        requires
            b > 0,
            d > 0,
    ;
}

pub proof fn lemma_quotient_mul(a: int, b: int, c: int, d: int)
    requires
        b > 0,
        d > 0,
    ensures
        b * d > 0,
        quotient(a * c, b * d) == quotient(a, b) * quotient(c, d),
{
    assert(b * d > 0) by (nonlinear_arith)
        requires
            b > 0,
            d > 0,
    ;
    assert(quotient(a * c, b * d) == quotient(a, b) * quotient(c, d)) by (nonlinear_arith)
        requires
            b > 0,
            d > 0,
    ;
}

pub proof fn lemma_quotient_neg(a: int, b: int)
    requires
        b > 0,
    ensures
        quotient(-a, b) == -quotient(a, b),
{
    assert(quotient(-a, b) == -quotient(a, b)) by (nonlinear_arith)
        requires
            b > 0,
    ;
}

pub proof fn lemma_quotient_sign(a: int, b: int)
    requires
        b > 0,
    ensures
        a < 0 <==> quotient(a, b) < 0real,
        a == 0 <==> quotient(a, b) == 0real,
        a > 0 <==> quotient(a, b) > 0real,
{
    assert(a < 0 <==> quotient(a, b) < 0real) by (nonlinear_arith)
        requires
            b > 0,
    ;
    assert(a > 0 <==> quotient(a, b) > 0real) by (nonlinear_arith)
        requires
            b > 0,
    ;
}

pub proof fn lemma_quotient_div(a: int, b: int, c: int, d: int)
    requires
        b > 0,
        d > 0,
        c > 0,
    ensures
        b * c > 0,
        quotient(a * d, b * c) == quotient(a, b) / quotient(c, d),
        quotient(-(a * d), b * c) == quotient(a, b) / quotient(-c, d),
{
    assert(b * c > 0) by (nonlinear_arith)
        requires
            b > 0,
            c > 0,
    ;
    assert(quotient(a * d, b * c) == quotient(a, b) / quotient(c, d)) by (nonlinear_arith)
        requires
            b > 0,
            d > 0,
            c > 0,
    ;
    assert(quotient(-(a * d), b * c) == quotient(a, b) / quotient(-c, d)) by (nonlinear_arith)
        requires
            b > 0,
            d > 0,
            c > 0,
    ;
}

/// An exact rational number.
#[derive(Debug)]
pub struct Rational {
    numerator: Integer,
    denominator: Natural,
}

impl View for Rational {
    type V = real;

    closed spec fn view(&self) -> real {
        quotient(self.numerator@, self.denominator@ as int)
    }
}

impl Clone for Rational {
    fn clone(&self) -> (copy: Self)
        ensures
            copy@ == self@,
    {
        proof {
            use_type_invariant(self);
        }
        Rational { numerator: self.numerator.clone(), denominator: self.denominator.clone() }
    }
}

impl Rational {
    #[verifier::type_invariant]
    spec fn positive_denominator(self) -> bool {
        self.denominator@ > 0
    }

    /// The numerator of the fraction that holds the number.
    pub closed spec fn numerator_view(&self) -> int {
        self.numerator@
    }

    /// The denominator of the fraction that holds the number.
    pub closed spec fn denominator_view(&self) -> int {
        self.denominator@ as int
    }

    /// The numerator of the fraction that holds the number.
    pub fn numerator(&self) -> (n: &Integer)
        ensures
            n@ == self.numerator_view(),
            self@ == quotient(n@, self.denominator_view()),
    {
        &self.numerator
    }

    /// The denominator of the fraction that holds the number.
    pub fn denominator(&self) -> (d: &Natural)
        ensures
            d@ == self.denominator_view(),
            d@ > 0,
            self@ == quotient(self.numerator_view(), d@ as int),
    {
        proof {
            use_type_invariant(self);
        }
        &self.denominator
    }

    /// The fraction `numerator / denominator`, unless the denominator is zero.
    pub fn new(numerator: Integer, denominator: Natural) -> (r: Option<Rational>)
        ensures
            denominator@ == 0 ==> r.is_none(),
            denominator@ > 0 ==> r.is_some() && r.unwrap()@ == quotient(
                numerator@,
                denominator@ as int,
            ),
    {
        if denominator.is_zero() {
            None
        } else {
            Some(Rational { numerator, denominator })
        }
    }

    /// The rational number equal to an integer.
    pub fn from_integer(value: Integer) -> (r: Rational)
        ensures
            r@ == value@ as real,
    {
        proof {
            let v = value@;
            assert(quotient(v, 1) == v as real) by (nonlinear_arith);
        }
        Rational { numerator: value, denominator: Natural::from_u64(1) }
    }

    /// The rational number equal to `v`.
    pub fn from_i64(v: i64) -> (r: Rational)
        ensures
            r@ == v as real,
    {
        Rational::from_integer(Integer::from_i64(v))
    }

    /// The rational number equal to `v`.
    pub fn from_u64(v: u64) -> (r: Rational)
        ensures
            r@ == v as real,
    {
        Rational::from_integer(Integer::from_parts(false, Natural::from_u64(v)))
    }

    /// The fraction `numerator / denominator` of two machine integers.
    pub fn from_ratio(numerator: i64, denominator: u64) -> (r: Option<Rational>)
        ensures
            denominator == 0 ==> r.is_none(),
            denominator > 0 ==> r.is_some() && r.unwrap()@ == quotient(
                numerator as int,
                denominator as int,
            ),
    {
        Rational::new(Integer::from_i64(numerator), Natural::from_u64(denominator))
    }

    /// Zero.
    pub fn zero() -> (r: Rational)
        ensures
            r@ == 0real,
    {
        Rational::from_i64(0)
    }

    /// The sign of the number.
    pub fn sign(&self) -> (s: Sign)
        ensures
            s == sign_of_real(self@),
    {
        proof {
            use_type_invariant(self);
            lemma_quotient_sign(self.numerator@, self.denominator@ as int);
        }
        self.numerator.sign()
    }

    /// Whether the number is zero.
    pub fn is_zero(&self) -> (zero: bool)
        ensures
            zero == (self@ == 0real),
    {
        proof {
            use_type_invariant(self);
            lemma_quotient_sign(self.numerator@, self.denominator@ as int);
        }
        self.numerator.is_zero()
    }

    /// The number with the opposite sign.
    pub fn neg(&self) -> (r: Rational)
        ensures
            r@ == -self@,
    {
        proof {
            use_type_invariant(self);
            lemma_quotient_neg(self.numerator@, self.denominator@ as int);
        }
        Rational { numerator: self.numerator.neg(), denominator: self.denominator.clone() }
    }

    /// The sum of two numbers.
    pub fn add(&self, other: &Rational) -> (sum: Rational)
        ensures
            sum@ == self@ + other@,
    {
        proof {
            use_type_invariant(self);
            use_type_invariant(other);
            lemma_quotient_add(
                self.numerator@,
                self.denominator@ as int,
                other.numerator@,
                other.denominator@ as int,
            );
        }
        let left = self.numerator.mul_natural(&other.denominator);
        let right = other.numerator.mul_natural(&self.denominator);
        let numerator = left.add(&right);
        let denominator = self.denominator.mul(&other.denominator);
        Rational { numerator, denominator }
    }

    /// The difference of two numbers.
    pub fn sub(&self, other: &Rational) -> (difference: Rational)
        ensures
            difference@ == self@ - other@,
    {
        let opposite = other.neg();
        self.add(&opposite)
    }

    /// The product of two numbers.
    pub fn mul(&self, other: &Rational) -> (product: Rational)
        ensures
            product@ == self@ * other@,
    {
        proof {
            use_type_invariant(self);
            use_type_invariant(other);
            lemma_quotient_mul(
                self.numerator@,
                self.denominator@ as int,
                other.numerator@,
                other.denominator@ as int,
            );
        }
        let numerator = self.numerator.mul(&other.numerator);
        let denominator = self.denominator.mul(&other.denominator);
        Rational { numerator, denominator }
    }

    /// The quotient of two numbers, unless the divisor is zero.
    pub fn div(&self, other: &Rational) -> (q: Option<Rational>)
        ensures
            other@ == 0real ==> q.is_none(),
            other@ != 0real ==> q.is_some() && q.unwrap()@ == self@ / other@,
    {
        proof {
            use_type_invariant(self);
            use_type_invariant(other);
            lemma_quotient_sign(other.numerator@, other.denominator@ as int);
        }
        match other.numerator.sign() {
            Sign::Zero => None,
            Sign::Positive => {
                proof {
                    lemma_quotient_div(
                        self.numerator@,
                        self.denominator@ as int,
                        other.numerator@,
                        other.denominator@ as int,
                    );
                }
                let numerator = self.numerator.mul_natural(&other.denominator);
                let denominator = self.denominator.mul(other.numerator.magnitude());
                Some(Rational { numerator, denominator })
            },
            Sign::Negative => {
                proof {
                    lemma_quotient_div(
                        self.numerator@,
                        self.denominator@ as int,
                        -other.numerator@,
                        other.denominator@ as int,
                    );
                }
                let numerator = self.numerator.mul_natural(&other.denominator).neg();
                let denominator = self.denominator.mul(other.numerator.magnitude());
                Some(Rational { numerator, denominator })
            },
        }
    }

    /// Compares two numbers: the sign of `self - other`.
    pub fn compare(&self, other: &Rational) -> (order: Sign)
        ensures
            order == sign_of_real(self@ - other@),
    {
        let difference = self.sub(other);
        difference.sign()
    }

    /// Whether `self < other`.
    pub fn lt(&self, other: &Rational) -> (b: bool)
        ensures
            b == (self@ < other@),
    {
        match self.compare(other) {
            Sign::Negative => true,
            _ => false,
        }
    }

    /// Whether `self <= other`.
    pub fn le(&self, other: &Rational) -> (b: bool)
        ensures
            b == (self@ <= other@),
    {
        match self.compare(other) {
            Sign::Positive => false,
            _ => true,
        }
    }

    /// Whether the two numbers are equal.
    pub fn equals(&self, other: &Rational) -> (b: bool)
        ensures
            b == (self@ == other@),
    {
        match self.compare(other) {
            Sign::Zero => true,
            _ => false,
        }
    }

    /// The absolute value.
    pub fn abs(&self) -> (r: Rational)
        ensures
            r@ == if self@ < 0real {
                -self@
            } else {
                self@
            },
    {
        match self.sign() {
            Sign::Negative => self.neg(),
            _ => self.clone(),
        }
    }
}

} // verus!
