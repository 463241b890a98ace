//! Vectors with exact rational components.

use crate::number::rational::Rational;
use vstd::prelude::*;

verus! {

/// A point or direction of real three-dimensional space.
pub ghost struct Real3 {
    pub x: real,
    pub y: real,
    pub z: real,
}

/// A point or direction of the real plane.
pub ghost struct Real2 {
    pub x: real,
    pub y: real,
}

impl Real3 {
    /// The origin.
    pub open spec fn zero() -> Real3 {
        Real3 { x: 0real, y: 0real, z: 0real }
    }

    /// The sum of two vectors.
    pub open spec fn plus(self, other: Real3) -> Real3 {
        Real3 { x: self.x + other.x, y: self.y + other.y, z: self.z + other.z }
    }

    /// The difference of two vectors.
    pub open spec fn minus(self, other: Real3) -> Real3 {
        Real3 { x: self.x - other.x, y: self.y - other.y, z: self.z - other.z }
    }

    /// The vector with every component multiplied by `factor`.
    pub open spec fn scaled(self, factor: real) -> Real3 {
        Real3 { x: self.x * factor, y: self.y * factor, z: self.z * factor }
    }

    /// The vector with every component divided by `divisor`.
    pub open spec fn divided(self, divisor: real) -> Real3 {
        Real3 { x: self.x / divisor, y: self.y / divisor, z: self.z / divisor }
    }

    /// The dot product.
    pub open spec fn dot(self, other: Real3) -> real {
        self.x * other.x + self.y * other.y + self.z * other.z
    }

    /// The cross product.
    pub open spec fn cross(self, other: Real3) -> Real3 {
        Real3 {
            x: self.y * other.z - self.z * other.y,
            y: self.z * other.x - self.x * other.z,
            z: self.x * other.y - self.y * other.x,
        }
    }
}

impl Real2 {
    /// The difference of two vectors.
    pub open spec fn minus(self, other: Real2) -> Real2 {
        Real2 { x: self.x - other.x, y: self.y - other.y }
    }

    /// The signed area of the parallelogram that the two vectors span.
    pub open spec fn cross(self, other: Real2) -> real {
        self.x * other.y - other.x * self.y
    }

    /// The squared length.
    pub open spec fn norm_squared(self) -> real {
        self.x * self.x + self.y * self.y
    }
}

/// A vector of three exact rational numbers.
#[derive(Debug)]
pub struct Vec3 {
    pub x: Rational,
    pub y: Rational,
    pub z: Rational,
}

impl View for Vec3 {
    type V = Real3;

    open spec fn view(&self) -> Real3 {
        Real3 { x: self.x@, y: self.y@, z: self.z@ }
    }
}

impl Clone for Vec3 {
    fn clone(&self) -> (copy: Self)
        ensures
            copy@ == self@,
    {
        Vec3 { x: self.x.clone(), y: self.y.clone(), z: self.z.clone() }
    }
}

impl Vec3 {
    /// The vector with the given components.
    pub fn new(x: Rational, y: Rational, z: Rational) -> (v: Vec3)
        ensures
            v@ == (Real3 { x: x@, y: y@, z: z@ }),
    {
        Vec3 { x, y, z }
    }

    /// The vector with the given whole-number components.
    pub fn from_i64(x: i64, y: i64, z: i64) -> (v: Vec3)
        ensures
            v@ == (Real3 { x: x as real, y: y as real, z: z as real }),
    {
        Vec3 { x: Rational::from_i64(x), y: Rational::from_i64(y), z: Rational::from_i64(z) }
    }

    /// The origin.
    pub fn zero() -> (v: Vec3)
        ensures
            v@ == Real3::zero(),
    {
        Vec3 { x: Rational::zero(), y: Rational::zero(), z: Rational::zero() }
    }

    /// The sum of two vectors.
    pub fn add(&self, other: &Vec3) -> (v: Vec3)
        ensures
            v@ == self@.plus(other@),
    {
        Vec3 { x: self.x.add(&other.x), y: self.y.add(&other.y), z: self.z.add(&other.z) }
    }

    /// The difference of two vectors.
    pub fn sub(&self, other: &Vec3) -> (v: Vec3)
        ensures
            v@ == self@.minus(other@),
    {
        Vec3 { x: self.x.sub(&other.x), y: self.y.sub(&other.y), z: self.z.sub(&other.z) }
    }

    /// The vector with every component multiplied by `factor`.
    pub fn scale(&self, factor: &Rational) -> (v: Vec3)
        ensures
            v@ == self@.scaled(factor@),
    {
        Vec3 { x: self.x.mul(factor), y: self.y.mul(factor), z: self.z.mul(factor) }
    }

    /// The vector with every component divided by `divisor`, unless that is zero.
    pub fn div(&self, divisor: &Rational) -> (v: Option<Vec3>)
        ensures
            divisor@ == 0real ==> v.is_none(),
            divisor@ != 0real ==> v.is_some() && v.unwrap()@ == self@.divided(divisor@),
    {
        match (self.x.div(divisor), self.y.div(divisor), self.z.div(divisor)) {
            (Some(x), Some(y), Some(z)) => Some(Vec3 { x, y, z }),
            _ => None,
        }
    }

    /// The dot product.
    pub fn dot(&self, other: &Vec3) -> (d: Rational)
        ensures
            d@ == self@.dot(other@),
    {
        let xx = self.x.mul(&other.x);
        let yy = self.y.mul(&other.y);
        let zz = self.z.mul(&other.z);
        xx.add(&yy).add(&zz)
    }

    /// The cross product.
    pub fn cross(&self, other: &Vec3) -> (v: Vec3)
        ensures
            v@ == self@.cross(other@),
    {
        let x = self.y.mul(&other.z).sub(&self.z.mul(&other.y));
        let y = self.z.mul(&other.x).sub(&self.x.mul(&other.z));
        let z = self.x.mul(&other.y).sub(&self.y.mul(&other.x));
        Vec3 { x, y, z }
    }

    /// Whether the vector is the origin.
    pub fn is_zero(&self) -> (zero: bool)
        ensures
            zero == (self@ == Real3::zero()),
    {
        self.x.is_zero() && self.y.is_zero() && self.z.is_zero()
    }

    /// Whether two vectors are equal, component by component.
    pub fn equals(&self, other: &Vec3) -> (b: bool)
        ensures
            b == (self@ == other@),
    {
        self.x.equals(&other.x) && self.y.equals(&other.y) && self.z.equals(&other.z)
    }

    /// Whether every component is within `tolerance` of the other vector's.
    pub fn abs_diff_eq(&self, other: &Vec3, tolerance: &Rational) -> (b: bool)
        ensures
            b == within(self@, other@, tolerance@),
    {
        let dx = self.x.sub(&other.x).abs();
        let dy = self.y.sub(&other.y).abs();
        let dz = self.z.sub(&other.z).abs();
        dx.le(tolerance) && dy.le(tolerance) && dz.le(tolerance)
    }
}

/// The absolute value of a real number.
pub open spec fn abs_real(v: real) -> real {
    if v < 0real {
        -v
    } else {
        v
    }
}

/// Whether every component of `a` is within `tolerance` of that of `b`.
pub open spec fn within(a: Real3, b: Real3, tolerance: real) -> bool {
    &&& abs_real(a.x - b.x) <= tolerance
    &&& abs_real(a.y - b.y) <= tolerance
    &&& abs_real(a.z - b.z) <= tolerance
}

/// A vector of two exact rational numbers.
#[derive(Debug)]
pub struct Vec2 {
    pub x: Rational,
    pub y: Rational,
}

impl View for Vec2 {
    type V = Real2;

    open spec fn view(&self) -> Real2 {
        Real2 { x: self.x@, y: self.y@ }
    }
}

impl Clone for Vec2 {
    fn clone(&self) -> (copy: Self)
        ensures
            copy@ == self@,
    {
        Vec2 { x: self.x.clone(), y: self.y.clone() }
    }
}

impl Vec2 {
    /// The vector with the given components.
    pub fn new(x: Rational, y: Rational) -> (v: Vec2)
        ensures
            v@ == (Real2 { x: x@, y: y@ }),
    {
        Vec2 { x, y }
    }

    /// The difference of two vectors.
    pub fn sub(&self, other: &Vec2) -> (v: Vec2)
        ensures
            v@ == self@.minus(other@),
    {
        Vec2 { x: self.x.sub(&other.x), y: self.y.sub(&other.y) }
    }

    /// The signed area of the parallelogram that the two vectors span.
    pub fn cross(&self, other: &Vec2) -> (c: Rational)
        ensures
            c@ == self@.cross(other@),
    {
        self.x.mul(&other.y).sub(&other.x.mul(&self.y))
    }

    /// The squared length.
    pub fn norm_squared(&self) -> (n: Rational)
        ensures
            n@ == self@.norm_squared(),
    {
        self.x.mul(&self.x).add(&self.y.mul(&self.y))
    }

    /// Whether two vectors are equal, component by component.
    pub fn equals(&self, other: &Vec2) -> (b: bool)
        ensures
            b == (self@ == other@),
    {
        self.x.equals(&other.x) && self.y.equals(&other.y)
    }
}

} // verus!
