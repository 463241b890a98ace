//! Mesh buffers of one brush: positions, normals, tangents, texture
//! coordinates and triangles.

use crate::data::brush::points_view;
use crate::data::brush_face::{BrushFace, DegenerateGeometryError, FaceModel, Tangent, TangentModel};
use crate::loader::utils::{map_to_bevy_space3, map_to_bevy_space4, scale, swizzled, to_scene};
use crate::number::rational::Rational;
use crate::vector::{Real2, Real3, Vec2, Vec3};
use vstd::prelude::*;

verus! {

/// What a list of texture coordinates holds.
pub open spec fn flat_view(points: Seq<Vec2>) -> Seq<Real2> {
    Seq::new(points.len(), |t: int| points[t]@)
}

/// What a list of tangents holds.
pub open spec fn tangents_view(tangents: Seq<Tangent>) -> Seq<TangentModel> {
    Seq::new(tangents.len(), |t: int| tangents[t]@)
}

/// The corners of the triangles of a fan over `count` vertices that start at
/// index `begin`: for each `t` below `count - 2`, the triangle
/// `begin`, `begin + t + 1`, `begin + t + 2`.
pub open spec fn fan_indices(begin: int, count: int) -> Seq<int> {
    Seq::new(
        if count >= 3 {
            (3 * (count - 2)) as nat
        } else {
            0
        },
        |c: int|
            if c % 3 == 0 {
                begin
            } else {
                begin + c / 3 + c % 3
            },
    )
}

/// What the buffers of a mesh hold.
pub ghost struct MeshModel {
    pub vertices: Seq<Real3>,
    pub indices: Seq<int>,
    pub normals: Seq<Real3>,
    pub uvs: Seq<Real2>,
    pub tangents: Seq<TangentModel>,
}

impl MeshModel {
    /// The buffers with the polygon of a face added: its vertices in order,
    /// with the normal and tangent of the face and the texture coordinate of
    /// each vertex, and the triangles of the fan from the first vertex.
    pub open spec fn with_polygon(self, face: FaceModel, polygon: Seq<Real3>) -> MeshModel {
        MeshModel {
            vertices: self.vertices + polygon,
            indices: self.indices + fan_indices(self.vertices.len() as int, polygon.len() as int),
            normals: self.normals + Seq::new(polygon.len(), |t: int| face.normal()),
            uvs: self.uvs + Seq::new(polygon.len(), |t: int| face.uv(polygon[t])),
            tangents: self.tangents + Seq::new(polygon.len(), |t: int| face.tangent()),
        }
    }

    /// The buffers with no polygon in them.
    pub open spec fn empty() -> MeshModel {
        MeshModel {
            vertices: Seq::empty(),
            indices: Seq::empty(),
            normals: Seq::empty(),
            uvs: Seq::empty(),
            tangents: Seq::empty(),
        }
    }

    /// The buffers as a scene takes them: positions relative to `centroid`
    /// in scene units and scene axes, normals and tangents in scene axes,
    /// and texture coordinates as fractions of the texture size.
    pub open spec fn in_scene(self, centroid: Real3, width: int, height: int) -> MeshModel {
        MeshModel {
            vertices: Seq::new(self.vertices.len(), |t: int| to_scene(self.vertices[t], centroid)),
            indices: self.indices,
            normals: Seq::new(self.normals.len(), |t: int| swizzled(self.normals[t])),
            uvs: Seq::new(
                self.uvs.len(),
                |t: int|
                    Real2 { x: self.uvs[t].x / width as real, y: self.uvs[t].y / height as real },
            ),
            tangents: Seq::new(
                self.tangents.len(),
                |t: int|
                    TangentModel {
                        direction: swizzled(self.tangents[t].direction),
                        handedness: self.tangents[t].handedness,
                    },
            ),
        }
    }
}

/// The polygons of the faces of one brush that share a texture. Positions
/// are in level coordinates and texture coordinates in pixels.
#[derive(Debug)]
pub struct BrushMeshInfo {
    pub vertices: Vec<Vec3>,
    pub indices: Vec<usize>,
    pub normals: Vec<Vec3>,
    pub uvs: Vec<Vec2>,
    pub tangents: Vec<Tangent>,
}

impl View for BrushMeshInfo {
    type V = MeshModel;

    open spec fn view(&self) -> MeshModel {
        MeshModel {
            vertices: points_view(self.vertices@),
            indices: Seq::new(self.indices@.len(), |t: int| self.indices@[t] as int),
            normals: points_view(self.normals@),
            uvs: flat_view(self.uvs@),
            tangents: tangents_view(self.tangents@),
        }
    }
}

/// A mesh as a scene takes it.
#[derive(Debug)]
pub struct Mesh {
    pub positions: Vec<Vec3>,
    pub indices: Vec<u32>,
    pub normals: Vec<Vec3>,
    pub uvs: Vec<Vec2>,
    pub tangents: Vec<Tangent>,
}

impl View for Mesh {
    type V = MeshModel;

    open spec fn view(&self) -> MeshModel {
        MeshModel {
            vertices: points_view(self.positions@),
            indices: Seq::new(self.indices@.len(), |t: int| self.indices@[t] as int),
            normals: points_view(self.normals@),
            uvs: flat_view(self.uvs@),
            tangents: tangents_view(self.tangents@),
        }
    }
}

/// Why buffers cannot be handed to a scene.
#[derive(Clone, Copy, PartialEq, Eq, Debug, Structural)]
pub enum MeshError {
    /// The texture has no width or no height.
    EmptyTexture,
    /// A vertex index does not fit into 32 bits.
    IndexTooLarge,
}

impl BrushMeshInfo {
    /// Buffers with no polygon in them.
    pub fn new() -> (info: BrushMeshInfo)
        ensures
            info@ == MeshModel::empty(),
    {
        let info = BrushMeshInfo {
            vertices: Vec::new(),
            indices: Vec::new(),
            normals: Vec::new(),
            uvs: Vec::new(),
            tangents: Vec::new(),
        };
        assert(info@.vertices =~= Seq::<Real3>::empty());
        assert(info@.indices =~= Seq::<int>::empty());
        assert(info@.normals =~= Seq::<Real3>::empty());
        assert(info@.uvs =~= Seq::<Real2>::empty());
        assert(info@.tangents =~= Seq::<TangentModel>::empty());
        info
    }

    /// Adds the polygon of a face: its wound vertices, with the normal and
    /// tangent of the face and the texture coordinate of each vertex, and the
    /// triangles of the fan from the first vertex.
    ///
    /// A polygon of fewer than three vertices has no area, and a face with a
    /// scale of zero has no texture coordinates; both are refused and the
    /// buffers stay as they are.
    pub fn push_vertices(&mut self, brush_face: &BrushFace, vertices: &Vec<Vec3>) -> (r: Result<
        (),
        DegenerateGeometryError,
    >)
        ensures
            vertices@.len() >= 3 && brush_face@.has_scales() ==> r.is_ok() && final(self)@ == old(
                self,
            )@.with_polygon(brush_face@, points_view(vertices@)),
            vertices@.len() < 3 ==> r == Err::<(), DegenerateGeometryError>(
                DegenerateGeometryError::TooFewVertices,
            ) && *final(self) == *old(self),
            vertices@.len() >= 3 && !brush_face@.has_scales() ==> r == Err::<
                (),
                DegenerateGeometryError,
            >(DegenerateGeometryError::ZeroScale) && *final(self) == *old(self),
    {
        let count = vertices.len();
        if count < 3 {
            return Err(DegenerateGeometryError::TooFewVertices);
        }
        if !brush_face.has_scales() {
            return Err(DegenerateGeometryError::ZeroScale);
        }
        let begin_idx = self.vertices.len();
        let ghost before = *self;
        let ghost polygon = points_view(vertices@);
        let ghost face = brush_face@;
        let ghost target = self@.with_polygon(face, polygon);
        let mut t: usize = 0;
        while t < count
            invariant
                count == vertices@.len(),
                t <= count,
                polygon == points_view(vertices@),
                face == brush_face@,
                face.has_scales(),
                self.indices == before.indices,
                self.vertices@.len() == before.vertices@.len() + t,
                self.normals@.len() == before.normals@.len() + t,
                self.uvs@.len() == before.uvs@.len() + t,
                self.tangents@.len() == before.tangents@.len() + t,
                forall|s: int|
                    0 <= s < before.vertices@.len() ==> self.vertices@[s] == before.vertices@[s],
                forall|s: int|
                    0 <= s < before.normals@.len() ==> self.normals@[s] == before.normals@[s],
                forall|s: int| 0 <= s < before.uvs@.len() ==> self.uvs@[s] == before.uvs@[s],
                forall|s: int|
                    0 <= s < before.tangents@.len() ==> self.tangents@[s] == before.tangents@[s],
                forall|s: int|
                    0 <= s < t ==> (#[trigger] self.vertices@[before.vertices@.len() + s])@
                        == polygon[s],
                forall|s: int|
                    0 <= s < t ==> (#[trigger] self.normals@[before.normals@.len() + s])@
                        == face.normal(),
                forall|s: int|
                    0 <= s < t ==> (#[trigger] self.uvs@[before.uvs@.len() + s])@ == face.uv(
                        polygon[s],
                    ),
                forall|s: int|
                    0 <= s < t ==> (#[trigger] self.tangents@[before.tangents@.len() + s])@
                        == face.tangent(),
            decreases count - t,
        {
            let vertex = &vertices[t];
            self.vertices.push(vertex.clone());
            self.normals.push(brush_face.normal().clone());
            self.tangents.push(brush_face.tangent());
            self.uvs.push(brush_face.uv(vertex).unwrap());
            t += 1;
        }
        proof {
            assert forall|s: int| 0 <= s < target.vertices.len() implies self@.vertices[s]
                == target.vertices[s] by {
                if s >= before.vertices@.len() {
                    assert(self.vertices@[before.vertices@.len() + (s - before.vertices@.len())]@
                        == polygon[s - before.vertices@.len()]);
                }
            }
            assert(self@.vertices =~= target.vertices);
            assert forall|s: int| 0 <= s < target.normals.len() implies self@.normals[s]
                == target.normals[s] by {
                if s >= before.normals@.len() {
                    assert(self.normals@[before.normals@.len() + (s - before.normals@.len())]@
                        == face.normal());
                }
            }
            assert(self@.normals =~= target.normals);
            assert forall|s: int| 0 <= s < target.uvs.len() implies self@.uvs[s] == target.uvs[s] by {
                if s >= before.uvs@.len() {
                    assert(self.uvs@[before.uvs@.len() + (s - before.uvs@.len())]@ == face.uv(
                        polygon[s - before.uvs@.len()],
                    ));
                }
            }
            assert(self@.uvs =~= target.uvs);
            assert forall|s: int| 0 <= s < target.tangents.len() implies self@.tangents[s]
                == target.tangents[s] by {
                if s >= before.tangents@.len() {
                    assert(self.tangents@[before.tangents@.len() + (s - before.tangents@.len())]@
                        == face.tangent());
                }
            }
            assert(self@.tangents =~= target.tangents);
        }
        let ghost fan = fan_indices(begin_idx as int, count as int);
        let end_idx = self.vertices.len();
        assert(end_idx == begin_idx + count);
        let mut i: usize = 0;
        while i + 2 < count
            invariant
                count == vertices@.len(),
                count >= 3,
                i + 2 <= count,
                begin_idx + count <= usize::MAX,
                begin_idx == before.vertices@.len(),
                fan == fan_indices(begin_idx as int, count as int),
                self@.vertices == target.vertices,
                self@.normals == target.normals,
                self@.uvs == target.uvs,
                self@.tangents == target.tangents,
                self.indices@.len() == before.indices@.len() + 3 * i,
                forall|s: int|
                    0 <= s < before.indices@.len() ==> self.indices@[s] == before.indices@[s],
                forall|c: int|
                    0 <= c < 3 * i ==> (#[trigger] self.indices@[before.indices@.len() + c]) as int
                        == fan[c],
            decreases count - i,
        {
            let ghost len = self.indices@.len() as int;
            self.indices.push(begin_idx);
            self.indices.push(begin_idx + i + 1);
            self.indices.push(begin_idx + i + 2);
            proof {
                assert(fan[3 * i] == begin_idx);
                assert(fan[3 * i + 1] == begin_idx + i + 1);
                assert(fan[3 * i + 2] == begin_idx + i + 2);
                assert forall|c: int| 0 <= c < 3 * (i + 1) implies (
                #[trigger] self.indices@[before.indices@.len() + c]) as int == fan[c] by {
                    if c == 3 * i {
                        assert(self.indices@[len] == begin_idx);
                    } else if c == 3 * i + 1 {
                        assert(self.indices@[len + 1] == begin_idx + i + 1);
                    } else if c == 3 * i + 2 {
                        assert(self.indices@[len + 2] == begin_idx + i + 2);
                    } else {
                    }
                }
            }
            i += 1;
        }
        proof {
            assert forall|s: int| 0 <= s < target.indices.len() implies self@.indices[s]
                == target.indices[s] by {
                if s >= before.indices@.len() {
                    assert(self.indices@[before.indices@.len() + (s - before.indices@.len())] as int
                        == fan[s - before.indices@.len()]);
                }
            }
            assert(self@.indices =~= target.indices);
        }
        Ok(())
    }

    /// The buffers as a scene takes them: positions relative to `centroid`,
    /// in scene units and scene axes; normals and tangents in scene axes;
    /// texture coordinates as fractions of a texture `width` pixels wide and
    /// `height` pixels high; indices in 32 bits.
    pub fn to_mesh(&self, centroid: &Vec3, width: u32, height: u32) -> (mesh: Result<
        Mesh,
        MeshError,
    >)
        ensures
            match mesh {
                Ok(m) => {
                    &&& width > 0
                    &&& height > 0
                    &&& forall|t: int| 0 <= t < self@.indices.len() ==> self@.indices[t] <= u32::MAX
                    &&& m@ == self@.in_scene(centroid@, width as int, height as int)
                },
                Err(MeshError::EmptyTexture) => width == 0 || height == 0,
                Err(MeshError::IndexTooLarge) => {
                    &&& width > 0
                    &&& height > 0
                    &&& exists|t: int| 0 <= t < self@.indices.len() && self@.indices[t] > u32::MAX
                },
            },
    {
        if width == 0 || height == 0 {
            return Err(MeshError::EmptyTexture);
        }
        let ghost model = self@;
        let ghost target = self@.in_scene(centroid@, width as int, height as int);
        let mut positions: Vec<Vec3> = Vec::new();
        let mut t: usize = 0;
        while t < self.vertices.len()
            invariant
                t <= self.vertices.len(),
                model == self@,
                target == model.in_scene(centroid@, width as int, height as int),
                positions@.len() == t,
                forall|s: int|
                    0 <= s < t ==> (#[trigger] positions@[s])@ == to_scene(
                        self.vertices@[s]@,
                        centroid@,
                    ),
            decreases self.vertices.len() - t,
        {
            let moved = self.vertices[t].sub(centroid).scale(&scale());
            positions.push(map_to_bevy_space3(&moved));
            t += 1;
        }
        let mut indices: Vec<u32> = Vec::new();
        let mut t: usize = 0;
        while t < self.indices.len()
            invariant
                t <= self.indices.len(),
                model == self@,
                indices@.len() == t,
                width > 0,
                height > 0,
                forall|s: int| 0 <= s < t ==> #[trigger] self.indices@[s] <= u32::MAX,
                forall|s: int| 0 <= s < t ==> #[trigger] indices@[s] as int == self.indices@[s],
            decreases self.indices.len() - t,
        {
            let index = self.indices[t];
            if index > 0xffff_ffff {
                assert(self@.indices[t as int] > u32::MAX);
                return Err(MeshError::IndexTooLarge);
            }
            indices.push(index as u32);
            t += 1;
        }
        let mut normals: Vec<Vec3> = Vec::new();
        let mut t: usize = 0;
        while t < self.normals.len()
            invariant
                t <= self.normals.len(),
                model == self@,
                target == model.in_scene(centroid@, width as int, height as int),
                normals@.len() == t,
                forall|s: int| 0 <= s < t ==> (#[trigger] normals@[s])@ == swizzled(self.normals@[s]@),
            decreases self.normals.len() - t,
        {
            normals.push(map_to_bevy_space3(&self.normals[t]));
            t += 1;
        }
        let mut tangents: Vec<Tangent> = Vec::new();
        let mut t: usize = 0;
        while t < self.tangents.len()
            invariant
                t <= self.tangents.len(),
                model == self@,
                target == model.in_scene(centroid@, width as int, height as int),
                tangents@.len() == t,
                forall|s: int|
                    0 <= s < t ==> (#[trigger] tangents@[s])@ == (TangentModel {
                        direction: swizzled(self.tangents@[s]@.direction),
                        handedness: self.tangents@[s]@.handedness,
                    }),
            decreases self.tangents.len() - t,
        {
            tangents.push(map_to_bevy_space4(&self.tangents[t]));
            t += 1;
        }
        let wide = Rational::from_u64(width as u64);
        let high = Rational::from_u64(height as u64);
        let mut uvs: Vec<Vec2> = Vec::new();
        let mut t: usize = 0;
        while t < self.uvs.len()
            invariant
                t <= self.uvs.len(),
                model == self@,
                target == model.in_scene(centroid@, width as int, height as int),
                wide@ == width as real,
                high@ == height as real,
                width > 0,
                height > 0,
                uvs@.len() == t,
                forall|s: int|
                    0 <= s < t ==> (#[trigger] uvs@[s])@ == (Real2 {
                        x: self.uvs@[s]@.x / width as real,
                        y: self.uvs@[s]@.y / height as real,
                    }),
            decreases self.uvs.len() - t,
        {
            let uv = &self.uvs[t];
            uvs.push(Vec2::new(uv.x.div(&wide).unwrap(), uv.y.div(&high).unwrap()));
            t += 1;
        }
        let mesh = Mesh { positions, indices, normals, uvs, tangents };
        proof {
            assert(mesh@.vertices =~= target.vertices);
            assert(mesh@.indices =~= target.indices);
            assert(mesh@.normals =~= target.normals);
            assert(mesh@.tangents =~= target.tangents);
            assert(mesh@.uvs =~= target.uvs);
            assert forall|t: int| 0 <= t < self@.indices.len() implies self@.indices[t]
                <= u32::MAX by {
                assert(self.indices@[t] <= u32::MAX);
            }
        }
        Ok(mesh)
    }
}

} // verus!
