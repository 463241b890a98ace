//! Winding: putting the vertices of a face into one cyclic order.

use crate::data::brush::points_view;
use crate::data::brush_face::Tangent;
use crate::number::rational::{quotient, Rational};
use crate::vector::{Real2, Real3, Vec2, Vec3};
use vstd::prelude::*;

verus! {

/// The length in scene units of one level unit: 64 level units make one
/// scene unit.
pub open spec fn scene_scale() -> real {
    quotient(1, 64)
}

/// A vector in scene axes: the second, third and first level axis.
pub open spec fn swizzled(v: Real3) -> Real3 {
    Real3 { x: v.y, y: v.z, z: v.x }
}

/// A position in the scene, relative to `origin`: in scene units and scene axes.
pub open spec fn to_scene(point: Real3, origin: Real3) -> Real3 {
    swizzled(point.minus(origin).scaled(scene_scale()))
}

/// The length in scene units of one level unit.
pub fn scale() -> (s: Rational)
    ensures
        s@ == scene_scale(),
{
    Rational::from_ratio(1, 64).unwrap()
}

/// A vector in scene axes: the second, third and first level axis.
pub fn map_to_bevy_space3(v: &Vec3) -> (r: Vec3)
    ensures
        r@ == swizzled(v@),
{
    Vec3::new(v.y.clone(), v.z.clone(), v.x.clone())
}

/// A tangent in scene axes.
pub fn map_to_bevy_space4(v: &Tangent) -> (r: Tangent)
    ensures
        r@.direction == swizzled(v@.direction),
        r@.handedness == v@.handedness,
{
    Tangent { direction: map_to_bevy_space3(&v.direction), handedness: v.handedness }
}

/// The coordinates of `point` along the axes `u` and `v`.
pub open spec fn projection(u: Real3, v: Real3, point: Real3) -> Real2 {
    Real2 { x: u.dot(point), y: v.dot(point) }
}

/// The sum of a list of points.
pub open spec fn sum_points(points: Seq<Real3>) -> Real3
    decreases points.len(),
{
    if points.len() == 0 {
        Real3::zero()
    } else {
        sum_points(points.drop_last()).plus(points.last())
    }
}

/// The mean of a list of points.
pub open spec fn centroid(points: Seq<Real3>) -> Real3 {
    sum_points(points).divided(points.len() as real)
}

/// Where `point` lies as seen from `center`, along the axes `u` and `v`.
pub open spec fn offset(u: Real3, v: Real3, center: Real3, point: Real3) -> Real2 {
    projection(u, v, point).minus(projection(u, v, center))
}

/// The part of the plane an offset lies in: 0 for the centre itself, 1 for
/// directions from the positive first axis up to, not including, the
/// negative first axis, counter-clockwise, and 2 for the rest.
pub open spec fn sector(o: Real2) -> int {
    if o.x == 0real && o.y == 0real {
        0
    } else if o.y > 0real || (o.y == 0real && o.x > 0real) {
        1
    } else {
        2
    }
}

/// Whether offset `a` comes strictly before offset `b` going counter-clockwise
/// round the centre from the positive first axis. Of two offsets in one
/// direction the one nearer to the centre comes first.
pub open spec fn precedes(a: Real2, b: Real2) -> bool {
    sector(a) < sector(b) || (sector(a) == sector(b) && (a.cross(b) > 0real || (a.cross(b) == 0real
        && a.norm_squared() < b.norm_squared())))
}

/// Whether point `a` comes strictly before point `b` round `center`.
pub open spec fn wound_before(u: Real3, v: Real3, center: Real3, a: Real3, b: Real3) -> bool {
    precedes(offset(u, v, center, a), offset(u, v, center, b))
}

/// An ordered list with `point` put in: behind every point that it does not
/// come strictly before, as far back as that allows.
pub open spec fn insert_wound(sorted: Seq<Real3>, point: Real3, u: Real3, v: Real3, center: Real3)
    -> Seq<Real3>
    decreases sorted.len(),
{
    if sorted.len() > 0 && wound_before(u, v, center, point, sorted.last()) {
        insert_wound(sorted.drop_last(), point, u, v, center).push(sorted.last())
    } else {
        sorted.push(point)
    }
}

/// The first `n` points put in order round `center`.
pub open spec fn wound_prefix(points: Seq<Real3>, n: nat, u: Real3, v: Real3, center: Real3) -> Seq<
    Real3,
>
    decreases n,
{
    if n == 0 {
        Seq::empty()
    } else {
        insert_wound(wound_prefix(points, (n - 1) as nat, u, v, center), points[n - 1], u, v, center)
    }
}

/// The points in counter-clockwise order round their centroid, as seen along
/// the axes `u` and `v`, starting from the direction of `u`. Points that no
/// rule tells apart keep the order they came in.
pub open spec fn wound(u: Real3, v: Real3, points: Seq<Real3>) -> Seq<Real3> {
    wound_prefix(points, points.len(), u, v, centroid(points))
}

/// The coordinates of `point` along the axes `u` and `v`.
pub fn project(u: &Vec3, v: &Vec3, point: &Vec3) -> (p: Vec2)
    ensures
        p@ == projection(u@, v@, point@),
{
    Vec2::new(u.dot(point), v.dot(point))
}

fn sector_of(o: &Vec2) -> (s: u8)
    ensures
        s == sector(o@),
{
    let zero = Rational::zero();
    if o.x.is_zero() && o.y.is_zero() {
        0
    } else if zero.lt(&o.y) || (o.y.is_zero() && zero.lt(&o.x)) {
        1
    } else {
        2
    }
}

fn comes_before(a: &Vec2, b: &Vec2) -> (r: bool)
    ensures
        r == precedes(a@, b@),
{
    let sa = sector_of(a);
    let sb = sector_of(b);
    if sa != sb {
        return sa < sb;
    }
    let zero = Rational::zero();
    let area = a.cross(b);
    if zero.lt(&area) {
        true
    } else if area.is_zero() {
        a.norm_squared().lt(&b.norm_squared())
    } else {
        false
    }
}

/// The mean of a list of points, unless the list is empty.
pub fn centroid_of(points: &Vec<Vec3>) -> (center: Option<Vec3>)
    ensures
        points@.len() == 0 ==> center.is_none(),
        points@.len() > 0 ==> center.is_some() && center.unwrap()@ == centroid(
            points_view(points@),
        ),
{
    let n = points.len();
    let mut sum = Vec3::zero();
    let mut i: usize = 0;
    while i < n
        invariant
            n == points.len(),
            i <= n,
            sum@ == sum_points(points_view(points@).take(i as int)),
        decreases n - i,
    {
        proof {
            let next = points_view(points@).take(i + 1);
            assert(next.drop_last() =~= points_view(points@).take(i as int));
            assert(next.last() == points@[i as int]@);
        }
        sum = sum.add(&points[i]);
        i += 1;
    }
    proof {
        assert(points_view(points@).take(n as int) =~= points_view(points@));
    }
    let count = Rational::from_u64(n as u64);
    sum.div(&count)
}

/// Puts the vertices of a face into counter-clockwise order round their
/// centroid, as seen along the texture axes `u` and `v`, starting from the
/// direction of `u`.
pub fn wind(u: &Vec3, v: &Vec3, vertices: &mut Vec<Vec3>)
    ensures
        points_view(final(vertices)@) == wound(u@, v@, points_view(old(vertices)@)),
{
    let ghost points = points_view(vertices@);
    let center = match centroid_of(vertices) {
        Some(center) => center,
        None => {
            assert(points_view(vertices@) =~= Seq::<Real3>::empty());
            return ;
        },
    };
    let center_flat = project(u, v, &center);
    let n = vertices.len();
    let mut out: Vec<Vec3> = Vec::new();
    let mut keys: Vec<Vec2> = Vec::new();
    let mut i: usize = 0;
    assert(points_view(out@) =~= Seq::<Real3>::empty());
    while i < n
        invariant
            n == vertices.len(),
            i <= n,
            points == points_view(vertices@),
            center_flat@ == projection(u@, v@, center@),
            out@.len() == i,
            keys@.len() == i,
            forall|t: int| 0 <= t < i ==> (#[trigger] keys@[t])@ == offset(u@, v@, center@, out@[t]@),
            points_view(out@) == wound_prefix(points, i as nat, u@, v@, center@),
        decreases n - i,
    {
        let point = vertices[i].clone();
        let key = project(u, v, &point).sub(&center_flat);
        let ghost sorted = points_view(out@);
        assert(point@ == points[i as int]);
        let mut j: usize = i;
        assert(sorted.take(j as int) =~= sorted);
        assert(sorted.skip(j as int) =~= Seq::<Real3>::empty());
        assert(insert_wound(sorted, point@, u@, v@, center@) + Seq::<Real3>::empty()
            =~= insert_wound(sorted, point@, u@, v@, center@));
        loop
            invariant
                j <= i,
                out@.len() == i,
                keys@.len() == i,
                sorted == points_view(out@),
                key@ == offset(u@, v@, center@, point@),
                forall|t: int|
                    0 <= t < i ==> (#[trigger] keys@[t])@ == offset(u@, v@, center@, out@[t]@),
                insert_wound(sorted, point@, u@, v@, center@) == insert_wound(
                    sorted.take(j as int),
                    point@,
                    u@,
                    v@,
                    center@,
                ) + sorted.skip(j as int),
            ensures
                j == 0 || !wound_before(u@, v@, center@, point@, sorted[j - 1]),
            decreases j,
        {
            if j == 0 {
                break ;
            }
            if !comes_before(&key, &keys[j - 1]) {
                assert(sorted[j - 1] == out@[j - 1]@);
                break ;
            }
            proof {
                assert(sorted[j - 1] == out@[j - 1]@);
                let head = sorted.take(j as int);
                assert(head.last() == sorted[j - 1]);
                assert(head.drop_last() =~= sorted.take(j - 1));
                let inner = insert_wound(sorted.take(j - 1), point@, u@, v@, center@);
                assert(inner.push(sorted[j - 1]) + sorted.skip(j as int) =~= inner + sorted.skip(
                    j - 1,
                ));
            }
            j -= 1;
        }
        proof {
            let head = sorted.take(j as int);
            if j > 0 {
                assert(head.last() == sorted[j - 1]);
            }
            assert(insert_wound(head, point@, u@, v@, center@) == head.push(point@));
            assert(head.push(point@) + sorted.skip(j as int) =~= sorted.insert(j as int, point@));
        }
        out.insert(j, point);
        keys.insert(j, key);
        proof {
            assert(points_view(out@) =~= sorted.insert(j as int, point@));
        }
        i += 1;
    }
    *vertices = out;
}

} // verus!
