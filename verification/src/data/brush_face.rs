//! One face of a brush: three defining points, texture placement, and the
//! supporting plane that the points span.

use crate::number::natural::Sign;
use crate::number::rational::{sign_of_real, Rational};
use crate::algebra::{lemma_cross_orthogonal, lemma_dot_minus};
use crate::vector::{abs_real, Real2, Real3, Vec2, Vec3};
use vstd::prelude::*;

verus! {

/// A plane `normal · x = dist`, bounding the half-space `normal · x <= dist`.
pub ghost struct Plane {
    pub normal: Real3,
    pub dist: real,
}

/// What a texture axis holds: a direction and an offset in pixels.
pub ghost struct AxisModel {
    pub axis: Real3,
    pub offset: real,
}

/// What a face is made from.
pub ghost struct FaceModel {
    pub p0: Real3,
    pub p1: Real3,
    pub p2: Real3,
    pub texture: Seq<u8>,
    pub u: AxisModel,
    pub v: AxisModel,
    pub rotation: real,
    pub x_scale: real,
    pub y_scale: real,
}

/// The normal of the plane through three points listed clockwise as seen
/// from the side the normal points to.
pub open spec fn plane_normal(p0: Real3, p1: Real3, p2: Real3) -> Real3 {
    p2.minus(p0).cross(p1.minus(p0))
}

/// The plane through three points listed clockwise as seen from outside.
pub open spec fn plane_through(p0: Real3, p1: Real3, p2: Real3) -> Plane {
    Plane { normal: plane_normal(p0, p1, p2), dist: plane_normal(p0, p1, p2).dot(p0) }
}

impl FaceModel {
    /// The outward normal of the face.
    pub open spec fn normal(self) -> Real3 {
        plane_normal(self.p0, self.p1, self.p2)
    }

    /// The signed distance of the plane from the origin, in units of the normal.
    pub open spec fn origin_dist(self) -> real {
        self.normal().dot(self.p0)
    }

    /// The supporting plane of the face.
    pub open spec fn plane(self) -> Plane {
        plane_through(self.p0, self.p1, self.p2)
    }

    /// Whether a face may be built from these parts: whether the three
    /// points span a plane.
    pub open spec fn buildable(self) -> bool {
        self.normal() != Real3::zero()
    }

    /// Whether the texture can be laid on the face: whether neither scale
    /// is zero.
    pub open spec fn has_scales(self) -> bool {
        self.x_scale != 0real && self.y_scale != 0real
    }

    /// On which side of the plane spanned by the normal and `u` the axis `v` lies.
    pub open spec fn handedness(self) -> Sign {
        sign_of_real(self.normal().cross(self.u.axis).dot(self.v.axis))
    }

    /// The tangent: the direction of `u` with the handedness.
    pub open spec fn tangent(self) -> TangentModel {
        TangentModel { direction: self.u.axis, handedness: self.handedness() }
    }

    /// The texture coordinate of `vertex` in pixels: its coordinate along each
    /// texture axis, divided by the scale and moved by the offset. The
    /// rotation takes no part: the axes already account for it.
    pub open spec fn uv(self, vertex: Real3) -> Real2 {
        Real2 {
            x: self.u.axis.dot(vertex) / self.x_scale + self.u.offset,
            y: self.v.axis.dot(vertex) / self.y_scale + self.v.offset,
        }
    }
}

/// The determinant of the three normals.
pub open spec fn determinant(a: Plane, b: Plane, c: Plane) -> real {
    a.normal.dot(b.normal.cross(c.normal))
}

/// Whether three planes are taken to meet in one point at tolerance `epsilon`.
pub open spec fn planes_meet(a: Plane, b: Plane, c: Plane, epsilon: real) -> bool {
    determinant(a, b, c) != 0real && abs_real(determinant(a, b, c)) >= epsilon
}

/// The point where three planes meet, where their determinant is not zero.
pub open spec fn meeting_point(a: Plane, b: Plane, c: Plane) -> Real3 {
    b.normal.cross(c.normal).scaled(a.dist).plus(c.normal.cross(a.normal).scaled(b.dist)).plus(
        a.normal.cross(b.normal).scaled(c.dist),
    ).divided(determinant(a, b, c))
}

/// How far `point` lies outside the half-space of `plane`, in units of the normal.
pub open spec fn excess(plane: Plane, point: Real3) -> real {
    plane.normal.dot(point) - plane.dist
}

/// The plane through three points contains all three.
pub proof fn lemma_plane_contains_points(p0: Real3, p1: Real3, p2: Real3)
    ensures
        plane_normal(p0, p1, p2).dot(p0) == plane_through(p0, p1, p2).dist,
        plane_normal(p0, p1, p2).dot(p1) == plane_through(p0, p1, p2).dist,
        plane_normal(p0, p1, p2).dot(p2) == plane_through(p0, p1, p2).dist,
{
    let a = p2.minus(p0);
    let b = p1.minus(p0);
    let n = a.cross(b);
    lemma_cross_orthogonal(a, b);
    lemma_dot_minus(n, p1, p0);
    lemma_dot_minus(n, p2, p0);
}

/// The plane of a face passes through its three defining points: the
/// normal has the same product with each of them, which is the distance of
/// the plane from the origin. So the products differ by no more than any
/// tolerance that is not negative.
pub proof fn lemma_face_plane_invariant(face: FaceModel, epsilon: real)
    requires
        epsilon >= 0real,
    ensures
        face.normal().dot(face.p0) == face.origin_dist(),
        face.normal().dot(face.p1) == face.origin_dist(),
        face.normal().dot(face.p2) == face.origin_dist(),
        abs_real(face.normal().dot(face.p0) - face.normal().dot(face.p1)) <= epsilon,
        abs_real(face.normal().dot(face.p0) - face.normal().dot(face.p2)) <= epsilon,
{
    lemma_plane_contains_points(face.p0, face.p1, face.p2);
}

/// A direction in texture space with an offset in pixels.
#[derive(Debug)]
pub struct UvAxis {
    pub axis: Vec3,
    pub offset: Rational,
}

impl View for UvAxis {
    type V = AxisModel;

    open spec fn view(&self) -> AxisModel {
        AxisModel { axis: self.axis@, offset: self.offset@ }
    }
}

impl Clone for UvAxis {
    fn clone(&self) -> (copy: Self)
        ensures
            copy@ == self@,
    {
        UvAxis { axis: self.axis.clone(), offset: self.offset.clone() }
    }
}

/// Why a face has no polygon.
#[derive(Clone, Copy, PartialEq, Eq, Debug, Structural)]
pub enum DegenerateGeometryError {
    /// The three defining points lie on one line, so they span no plane.
    CollinearPoints,
    /// A texture scale is zero, so the face has no texture coordinates.
    ZeroScale,
    /// Fewer than three plane intersections lie on the solid.
    TooFewVertices,
}

/// What a tangent holds.
pub ghost struct TangentModel {
    pub direction: Real3,
    pub handedness: Sign,
}

/// The tangent of a face: a direction and the side on which the bitangent lies.
#[derive(Debug)]
pub struct Tangent {
    pub direction: Vec3,
    pub handedness: Sign,
}

impl View for Tangent {
    type V = TangentModel;

    open spec fn view(&self) -> TangentModel {
        TangentModel { direction: self.direction@, handedness: self.handedness }
    }
}

impl Clone for Tangent {
    fn clone(&self) -> (copy: Self)
        ensures
            copy@ == self@,
    {
        Tangent { direction: self.direction.clone(), handedness: self.handedness }
    }
}

/// One face of a brush.
#[derive(Debug)]
pub struct BrushFace {
    p0: Vec3,
    p1: Vec3,
    p2: Vec3,
    texture: Vec<u8>,
    u: UvAxis,
    v: UvAxis,
    rotation: Rational,
    x_scale: Rational,
    y_scale: Rational,
    normal: Vec3,
    origin_dist: Rational,
}

impl View for BrushFace {
    type V = FaceModel;

    closed spec fn view(&self) -> FaceModel {
        FaceModel {
            p0: self.p0@,
            p1: self.p1@,
            p2: self.p2@,
            texture: self.texture@,
            u: self.u@,
            v: self.v@,
            rotation: self.rotation@,
            x_scale: self.x_scale@,
            y_scale: self.y_scale@,
        }
    }
}

impl BrushFace {
    #[verifier::type_invariant]
    spec fn consistent(self) -> bool {
        &&& self.normal@ == self@.normal()
        &&& self.origin_dist@ == self@.origin_dist()
        &&& self@.buildable()
    }

    /// Builds a face from three points listed clockwise as seen from outside
    /// the solid, a texture name, two texture axes, a rotation and two scales.
    ///
    /// Points on one line span no plane and are rejected. A scale of zero is
    /// taken: the plane of such a face bounds the solid like any other, and
    /// only its polygon cannot be textured.
    pub fn new(
        points: [Vec3; 3],
        texture: Vec<u8>,
        u: UvAxis,
        v: UvAxis,
        rotation: Rational,
        x_scale: Rational,
        y_scale: Rational,
    ) -> (face: Result<BrushFace, DegenerateGeometryError>)
        ensures
            match face {
                Ok(f) => {
                    &&& f@ == face_model(points@, texture@, u@, v@, rotation@, x_scale@, y_scale@)
                    &&& f@.buildable()
                },
                Err(DegenerateGeometryError::CollinearPoints) => plane_normal(
                    points@[0]@,
                    points@[1]@,
                    points@[2]@,
                ) == Real3::zero(),
                Err(DegenerateGeometryError::ZeroScale) => false,
                Err(DegenerateGeometryError::TooFewVertices) => false,
            },
    {
        let p0 = points[0].clone();
        let p1 = points[1].clone();
        let p2 = points[2].clone();
        let normal = p2.sub(&p0).cross(&p1.sub(&p0));
        let origin_dist = normal.dot(&p0);
        if normal.is_zero() {
            return Err(DegenerateGeometryError::CollinearPoints);
        }
        Ok(BrushFace { p0, p1, p2, texture, u, v, rotation, x_scale, y_scale, normal, origin_dist })
    }

    /// The three defining points.
    pub fn points(&self) -> (points: (&Vec3, &Vec3, &Vec3))
        ensures
            points.0@ == self@.p0,
            points.1@ == self@.p1,
            points.2@ == self@.p2,
    {
        (&self.p0, &self.p1, &self.p2)
    }

    /// The name of the texture.
    pub fn texture(&self) -> (texture: &Vec<u8>)
        ensures
            texture@ == self@.texture,
    {
        &self.texture
    }

    /// The horizontal texture axis.
    pub fn u(&self) -> (u: &UvAxis)
        ensures
            u@ == self@.u,
    {
        &self.u
    }

    /// The vertical texture axis.
    pub fn v(&self) -> (v: &UvAxis)
        ensures
            v@ == self@.v,
    {
        &self.v
    }

    /// The texture rotation, which the axes already account for.
    pub fn rotation(&self) -> (rotation: &Rational)
        ensures
            rotation@ == self@.rotation,
    {
        &self.rotation
    }

    /// The horizontal texture scale.
    pub fn x_scale(&self) -> (scale: &Rational)
        ensures
            scale@ == self@.x_scale,
    {
        &self.x_scale
    }

    /// The vertical texture scale.
    pub fn y_scale(&self) -> (scale: &Rational)
        ensures
            scale@ == self@.y_scale,
    {
        &self.y_scale
    }

    /// Whether the texture can be laid on the face: whether neither scale
    /// is zero.
    pub fn has_scales(&self) -> (b: bool)
        ensures
            b == self@.has_scales(),
    {
        !self.x_scale.is_zero() && !self.y_scale.is_zero()
    }

    /// The outward normal, which is not the zero vector.
    pub fn normal(&self) -> (normal: &Vec3)
        ensures
            normal@ == self@.normal(),
            normal@ != Real3::zero(),
    {
        proof {
            use_type_invariant(self);
        }
        &self.normal
    }

    /// The signed distance of the plane from the origin, in units of the normal.
    pub fn origin_dist(&self) -> (dist: &Rational)
        ensures
            dist@ == self@.origin_dist(),
    {
        proof {
            use_type_invariant(self);
        }
        &self.origin_dist
    }

    /// The point where the planes of three faces meet.
    ///
    /// There is none where the determinant of the three normals is zero or
    /// smaller in magnitude than `epsilon`.
    pub fn intersect_faces(&self, f2: &BrushFace, f3: &BrushFace, epsilon: &Rational) -> (point:
        Option<Vec3>)
        ensures
            planes_meet(self@.plane(), f2@.plane(), f3@.plane(), epsilon@) ==> point.is_some()
                && point.unwrap()@ == meeting_point(self@.plane(), f2@.plane(), f3@.plane()),
            !planes_meet(self@.plane(), f2@.plane(), f3@.plane(), epsilon@) ==> point.is_none(),
    {
        proof {
            use_type_invariant(self);
            use_type_invariant(f2);
            use_type_invariant(f3);
        }
        let cross23 = f2.normal.cross(&f3.normal);
        let determinant = self.normal.dot(&cross23);
        if determinant.abs().lt(epsilon) {
            return None;
        }
        let cross31 = f3.normal.cross(&self.normal);
        let cross12 = self.normal.cross(&f2.normal);
        let sum = cross23.scale(&self.origin_dist).add(&cross31.scale(&f2.origin_dist)).add(
            &cross12.scale(&f3.origin_dist),
        );
        sum.div(&determinant)
    }

    /// How far `point` lies outside the half-space of the face.
    pub fn excess(&self, point: &Vec3) -> (e: Rational)
        ensures
            e@ == excess(self@.plane(), point@),
    {
        proof {
            use_type_invariant(self);
        }
        self.normal.dot(point).sub(&self.origin_dist)
    }

    /// The texture coordinate of `vertex` in pixels. There is none where a
    /// scale is zero.
    pub fn uv(&self, vertex: &Vec3) -> (uv: Option<Vec2>)
        ensures
            self@.has_scales() ==> uv.is_some() && uv.unwrap()@ == self@.uv(vertex@),
            !self@.has_scales() ==> uv.is_none(),
    {
        match (
            self.u.axis.dot(vertex).div(&self.x_scale),
            self.v.axis.dot(vertex).div(&self.y_scale),
        ) {
            (Some(along_u), Some(along_v)) => Some(
                Vec2::new(along_u.add(&self.u.offset), along_v.add(&self.v.offset)),
            ),
            _ => None,
        }
    }

    /// The tangent of the face: the direction of `u`, and the side of the
    /// plane spanned by the normal and `u` on which `v` lies.
    pub fn tangent(&self) -> (t: Tangent)
        ensures
            t@ == self@.tangent(),
    {
        proof {
            use_type_invariant(self);
        }
        let handedness = self.normal.cross(&self.u.axis).dot(&self.v.axis).sign();
        Tangent { direction: self.u.axis.clone(), handedness }
    }
}

/// The parts of a face put together.
pub open spec fn face_model(
    points: Seq<Vec3>,
    texture: Seq<u8>,
    u: AxisModel,
    v: AxisModel,
    rotation: real,
    x_scale: real,
    y_scale: real,
) -> FaceModel {
    FaceModel {
        p0: points[0]@,
        p1: points[1]@,
        p2: points[2]@,
        texture,
        u,
        v,
        rotation,
        x_scale,
        y_scale,
    }
}

impl Clone for BrushFace {
    fn clone(&self) -> (copy: Self)
        ensures
            copy@ == self@,
    {
        proof {
            use_type_invariant(self);
        }
        let texture = self.texture.clone();
        assert(texture@ =~= self.texture@);
        BrushFace {
            p0: self.p0.clone(),
            p1: self.p1.clone(),
            p2: self.p2.clone(),
            texture,
            u: self.u.clone(),
            v: self.v.clone(),
            rotation: self.rotation.clone(),
            x_scale: self.x_scale.clone(),
            y_scale: self.y_scale.clone(),
            normal: self.normal.clone(),
            origin_dist: self.origin_dist.clone(),
        }
    }
}

} // verus!
