//! Identities of vector algebra over the reals.

use crate::vector::{Real2, Real3};
use vstd::prelude::*;

verus! {

proof fn lemma_distribute_difference(n: real, p: real, q: real)
    ensures
        n * (p - q) == n * p - n * q,
{
    assert(n * (p - q) == n * p - n * q) by (nonlinear_arith);
}

proof fn lemma_cross_dot_first(ax: real, ay: real, az: real, bx: real, by: real, bz: real)
    ensures
        (ay * bz - az * by) * ax + (az * bx - ax * bz) * ay + (ax * by - ay * bx) * az == 0real,
{
    assert((ay * bz - az * by) * ax + (az * bx - ax * bz) * ay + (ax * by - ay * bx) * az == 0real)
        by (nonlinear_arith);
}

proof fn lemma_cross_dot_second(ax: real, ay: real, az: real, bx: real, by: real, bz: real)
    ensures
        (ay * bz - az * by) * bx + (az * bx - ax * bz) * by + (ax * by - ay * bx) * bz == 0real,
{
    assert((ay * bz - az * by) * bx + (az * bx - ax * bz) * by + (ax * by - ay * bx) * bz == 0real)
        by (nonlinear_arith);
}

/// The dot product distributes over a difference.
pub proof fn lemma_dot_minus(n: Real3, p: Real3, q: Real3)
    ensures
        n.dot(p.minus(q)) == n.dot(p) - n.dot(q),
{
    lemma_distribute_difference(n.x, p.x, q.x);
    lemma_distribute_difference(n.y, p.y, q.y);
    lemma_distribute_difference(n.z, p.z, q.z);
}

/// The cross product of two vectors is at right angles to both.
pub proof fn lemma_cross_orthogonal(a: Real3, b: Real3)
    ensures
        a.cross(b).dot(a) == 0real,
        a.cross(b).dot(b) == 0real,
{
    lemma_cross_dot_first(a.x, a.y, a.z, b.x, b.y, b.z);
    lemma_cross_dot_second(a.x, a.y, a.z, b.x, b.y, b.z);
}

proof fn lemma_distribute_sum(n: real, p: real, q: real)
    ensures
        n * (p + q) == n * p + n * q,
{
    assert(n * (p + q) == n * p + n * q) by (nonlinear_arith);
}

proof fn lemma_associate(n: real, p: real, k: real)
    ensures
        n * (p * k) == (n * p) * k,
{
    assert(n * (p * k) == (n * p) * k) by (nonlinear_arith);
}

proof fn lemma_factor_out(a: real, b: real, c: real, k: real)
    ensures
        a * k + b * k + c * k == (a + b + c) * k,
{
    assert(a * k + b * k + c * k == (a + b + c) * k) by (nonlinear_arith);
}

proof fn lemma_quotient_of_product(n: real, p: real, d: real)
    requires
        d != 0real,
    ensures
        n * (p / d) == (n * p) / d,
{
    assert(n * (p / d) == (n * p) / d) by (nonlinear_arith)
        requires
            d != 0real,
    ;
}

proof fn lemma_sum_of_quotients(a: real, b: real, c: real, d: real)
    requires
        d != 0real,
    ensures
        a / d + b / d + c / d == (a + b + c) / d,
{
    assert(a / d + b / d + c / d == (a + b + c) / d) by (nonlinear_arith)
        requires
            d != 0real,
    ;
}

proof fn lemma_expand_difference(b: real, p: real, q: real, r: real, s: real)
    ensures
        b * (p * q - r * s) == (b * p) * q - (b * r) * s,
{
    lemma_distribute_difference(b, p * q, r * s);
    lemma_associate(b, p, q);
    lemma_associate(b, r, s);
}

proof fn lemma_rotate_product(x: real, y: real, z: real)
    ensures
        (x * y) * z == (z * x) * y,
{
    assert((x * y) * z == (z * x) * y) by (nonlinear_arith);
}

proof fn lemma_commute(x: real, y: real)
    ensures
        x * y == y * x,
{
    assert(x * y == y * x) by (nonlinear_arith);
}

proof fn lemma_triple_cyclic_terms(
    ax: real,
    ay: real,
    az: real,
    bx: real,
    by: real,
    bz: real,
    cx: real,
    cy: real,
    cz: real,
)
    ensures
        bx * (cy * az - cz * ay) + by * (cz * ax - cx * az) + bz * (cx * ay - cy * ax) == ax * (by
            * cz - bz * cy) + ay * (bz * cx - bx * cz) + az * (bx * cy - by * cx),
{
    lemma_expand_difference(bx, cy, az, cz, ay);
    lemma_expand_difference(by, cz, ax, cx, az);
    lemma_expand_difference(bz, cx, ay, cy, ax);
    lemma_expand_difference(ax, by, cz, bz, cy);
    lemma_expand_difference(ay, bz, cx, bx, cz);
    lemma_expand_difference(az, bx, cy, by, cx);
    lemma_rotate_product(bx, cy, az);
    lemma_rotate_product(bx, cz, ay);
    lemma_rotate_product(by, cz, ax);
    lemma_rotate_product(by, cx, az);
    lemma_rotate_product(bz, cx, ay);
    lemma_rotate_product(bz, cy, ax);
}

/// The dot product does not depend on the order of its vectors.
pub proof fn lemma_dot_commutes(a: Real3, b: Real3)
    ensures
        a.dot(b) == b.dot(a),
{
    lemma_commute(a.x, b.x);
    lemma_commute(a.y, b.y);
    lemma_commute(a.z, b.z);
}

/// The dot product distributes over a sum.
pub proof fn lemma_dot_plus(n: Real3, p: Real3, q: Real3)
    ensures
        n.dot(p.plus(q)) == n.dot(p) + n.dot(q),
{
    lemma_distribute_sum(n.x, p.x, q.x);
    lemma_distribute_sum(n.y, p.y, q.y);
    lemma_distribute_sum(n.z, p.z, q.z);
}

/// Scaling a vector scales its dot products.
pub proof fn lemma_dot_scaled(n: Real3, p: Real3, k: real)
    ensures
        n.dot(p.scaled(k)) == n.dot(p) * k,
{
    lemma_associate(n.x, p.x, k);
    lemma_associate(n.y, p.y, k);
    lemma_associate(n.z, p.z, k);
    lemma_factor_out(n.x * p.x, n.y * p.y, n.z * p.z, k);
}

/// Dividing a vector divides its dot products.
pub proof fn lemma_dot_divided(n: Real3, p: Real3, d: real)
    requires
        d != 0real,
    ensures
        n.dot(p.divided(d)) == n.dot(p) / d,
{
    lemma_quotient_of_product(n.x, p.x, d);
    lemma_quotient_of_product(n.y, p.y, d);
    lemma_quotient_of_product(n.z, p.z, d);
    lemma_sum_of_quotients(n.x * p.x, n.y * p.y, n.z * p.z, d);
}

/// The triple product keeps its value when its vectors are rotated.
pub proof fn lemma_triple_cyclic(a: Real3, b: Real3, c: Real3)
    ensures
        b.dot(c.cross(a)) == a.dot(b.cross(c)),
        c.dot(a.cross(b)) == a.dot(b.cross(c)),
{
    lemma_triple_cyclic_terms(a.x, a.y, a.z, b.x, b.y, b.z, c.x, c.y, c.z);
    lemma_triple_cyclic_terms(b.x, b.y, b.z, c.x, c.y, c.z, a.x, a.y, a.z);
}

/// A multiple of a number, divided by that number, is the factor.
pub proof fn lemma_divide_multiple(k: real, d: real)
    requires
        d != 0real,
    ensures
        (d * k) / d == k,
{
    assert((d * k) / d == k) by (nonlinear_arith)
        requires
            d != 0real,
    ;
}

/// A product with zero is zero.
pub proof fn lemma_zero_product(x: real, y: real)
    requires
        x == 0real,
    ensures
        x * y == 0real,
{
    assert(x * y == 0real) by (nonlinear_arith)
        requires
            x == 0real,
    ;
}

/// A product with zero is zero.
pub proof fn lemma_zero_right(x: real, y: real)
    requires
        y == 0real,
    ensures
        x * y == 0real,
{
    assert(x * y == 0real) by (nonlinear_arith)
        requires
            y == 0real,
    ;
}

/// The product of two numbers that are not negative is not negative.
pub proof fn lemma_product_nonnegative(x: real, y: real)
    requires
        x >= 0real,
        y >= 0real,
    ensures
        x * y >= 0real,
{
    assert(x * y >= 0real) by (nonlinear_arith)
        requires
            x >= 0real,
            y >= 0real,
    ;
}

/// The product of two positive numbers is positive.
pub proof fn lemma_product_positive(x: real, y: real)
    requires
        x > 0real,
        y > 0real,
    ensures
        x * y > 0real,
{
    assert(x * y > 0real) by (nonlinear_arith)
        requires
            x > 0real,
            y > 0real,
    ;
}

/// A product is zero only if a factor is.
pub proof fn lemma_zero_factor(x: real, y: real)
    requires
        x * y == 0real,
    ensures
        x == 0real || y == 0real,
{
    assert(x == 0real || y == 0real) by (nonlinear_arith)
        requires
            x * y == 0real,
    ;
}

/// A multiple by a positive factor has the sign of what is multiplied.
pub proof fn lemma_positive_factor(b: real, z: real)
    requires
        b > 0real,
        b * z >= 0real,
    ensures
        z >= 0real,
        b * z == 0real ==> z == 0real,
{
    assert(z >= 0real) by (nonlinear_arith)
        requires
            b > 0real,
            b * z >= 0real,
    ;
    if b * z == 0real {
        lemma_zero_factor(b, z);
    }
}

proof fn lemma_swap_outer(x: real, y: real, z: real)
    ensures
        (x * y) * z == (z * y) * x,
{
    assert((x * y) * z == (z * y) * x) by (nonlinear_arith);
}

/// Two negated numbers have the product of the numbers.
pub proof fn lemma_negated_product(x: real, y: real)
    ensures
        (-x) * (-y) == x * y,
{
    assert((-x) * (-y) == x * y) by (nonlinear_arith);
}

/// The signed areas that three flat vectors span in pairs are tied by
/// their second components.
pub proof fn lemma_cross_relation(a: Real2, b: Real2, c: Real2)
    ensures
        b.y * a.cross(c) == a.y * b.cross(c) + c.y * a.cross(b),
{
    lemma_expand_difference(b.y, a.x, c.y, c.x, a.y);
    lemma_expand_difference(a.y, b.x, c.y, c.x, b.y);
    lemma_expand_difference(c.y, a.x, b.y, b.x, a.y);
    lemma_swap_outer(b.y, a.x, c.y);
    lemma_swap_outer(b.y, c.x, a.y);
    lemma_swap_outer(a.y, b.x, c.y);
}

} // verus!
