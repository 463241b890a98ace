//! What holds of the geometry of every brush.

use crate::data::brush::{face_vertices, lemma_face_vertices_contained, solid_contains};
use crate::data::brush_face::{excess, FaceModel};
use crate::loader::asset::{fan_indices, MeshModel};
use crate::loader::utils::wound;
use crate::loader::winding_laws::lemma_wound_is_permutation;
use crate::loader::{brush_geometry, geometry_of_faces, group_of, SubMeshModel};
use crate::vector::Real3;
use vstd::prelude::*;

verus! {

proof fn lemma_vertices_of_faces_contained(faces: Seq<FaceModel>, n: nat, epsilon: real)
    requires
        n <= faces.len(),
    ensures
        forall|t: int|
            0 <= t < geometry_of_faces(faces, n, epsilon).all_vertices.len() ==> solid_contains(
                faces,
                #[trigger] geometry_of_faces(faces, n, epsilon).all_vertices[t],
                epsilon,
            ),
    decreases n,
{
    if n > 0 {
        lemma_vertices_of_faces_contained(faces, (n - 1) as nat, epsilon);
        lemma_face_vertices_contained(faces, n - 1, epsilon);
        let before = geometry_of_faces(faces, (n - 1) as nat, epsilon).all_vertices;
        let found = face_vertices(faces, n - 1, epsilon);
        let all = geometry_of_faces(faces, n, epsilon).all_vertices;
        assert(all == before + found);
        assert forall|t: int| 0 <= t < all.len() implies solid_contains(
            faces,
            #[trigger] all[t],
            epsilon,
        ) by {
            if t < before.len() {
                assert(all[t] == before[t]);
            } else {
                assert(all[t] == found[t - before.len()]);
                assert forall|f: int| 0 <= f < faces.len() implies excess(
                    #[trigger] faces[f].plane(),
                    all[t],
                ) <= epsilon by {
                    assert(excess(faces[f].plane(), found[t - before.len()]) <= epsilon);
                }
            }
        }
    }
}

/// Every vertex in the geometry of a brush lies in the brush: it is
/// outside the half-space of any face by no more than the tolerance.
pub proof fn lemma_geometry_contained(faces: Seq<FaceModel>, epsilon: real)
    ensures
        forall|t: int, f: int|
            0 <= t < brush_geometry(faces, epsilon).all_vertices.len() && 0 <= f < faces.len()
                ==> excess(
                #[trigger] faces[f].plane(),
                #[trigger] brush_geometry(faces, epsilon).all_vertices[t],
            ) <= epsilon,
{
    lemma_vertices_of_faces_contained(faces, faces.len(), epsilon);
    let all = brush_geometry(faces, epsilon).all_vertices;
    assert forall|t: int, f: int| 0 <= t < all.len() && 0 <= f < faces.len() implies excess(
        #[trigger] faces[f].plane(),
        #[trigger] all[t],
    ) <= epsilon by {
        assert(solid_contains(faces, all[t], epsilon));
    }
}

/// Whether every vertex in the buffers lies in the solid of `faces`.
pub open spec fn buffers_contained(
    meshes: Seq<SubMeshModel>,
    faces: Seq<FaceModel>,
    epsilon: real,
) -> bool {
    forall|g: int, t: int|
        0 <= g < meshes.len() && 0 <= t < meshes[g].mesh.vertices.len() ==> solid_contains(
            faces,
            #[trigger] meshes[g].mesh.vertices[t],
            epsilon,
        )
}

proof fn lemma_group_in_range(meshes: Seq<SubMeshModel>, texture: Seq<u8>)
    ensures
        group_of(meshes, texture) matches Some(g) ==> 0 <= g < meshes.len(),
    decreases meshes.len(),
{
    if meshes.len() > 0 {
        lemma_group_in_range(meshes.drop_last(), texture);
    }
}

proof fn lemma_polygon_contained(faces: Seq<FaceModel>, i: int, epsilon: real)
    requires
        0 <= i < faces.len(),
    ensures
        forall|t: int|
            0 <= t < wound(
                faces[i].u.axis,
                faces[i].v.axis,
                face_vertices(faces, i, epsilon),
            ).len() ==> solid_contains(
                faces,
                #[trigger] wound(
                    faces[i].u.axis,
                    faces[i].v.axis,
                    face_vertices(faces, i, epsilon),
                )[t],
                epsilon,
            ),
{
    broadcast use vstd::seq_lib::group_to_multiset_ensures;

    let found = face_vertices(faces, i, epsilon);
    let polygon = wound(faces[i].u.axis, faces[i].v.axis, found);
    lemma_wound_is_permutation(faces[i].u.axis, faces[i].v.axis, found);
    lemma_face_vertices_contained(faces, i, epsilon);
    assert forall|t: int| 0 <= t < polygon.len() implies solid_contains(
        faces,
        #[trigger] polygon[t],
        epsilon,
    ) by {
        assert(polygon.contains(polygon[t]));
        assert(found.to_multiset().count(polygon[t]) > 0);
        assert(found.contains(polygon[t]));
        let s = choose|s: int| 0 <= s < found.len() && found[s] == polygon[t];
        assert forall|f: int| 0 <= f < faces.len() implies excess(
            #[trigger] faces[f].plane(),
            polygon[t],
        ) <= epsilon by {
            assert(excess(faces[f].plane(), found[s]) <= epsilon);
        }
    }
}

proof fn lemma_buffers_of_faces_contained(faces: Seq<FaceModel>, n: nat, epsilon: real)
    requires
        n <= faces.len(),
    ensures
        buffers_contained(geometry_of_faces(faces, n, epsilon).meshes, faces, epsilon),
    decreases n,
{
    if n > 0 {
        lemma_buffers_of_faces_contained(faces, (n - 1) as nat, epsilon);
        lemma_polygon_contained(faces, n - 1, epsilon);
        let before = geometry_of_faces(faces, (n - 1) as nat, epsilon).meshes;
        let after = geometry_of_faces(faces, n, epsilon).meshes;
        let face = faces[n - 1];
        let found = face_vertices(faces, n - 1, epsilon);
        let polygon = wound(face.u.axis, face.v.axis, found);
        lemma_group_in_range(before, face.texture);
        assert forall|g: int, t: int|
            0 <= g < after.len() && 0 <= t < after[g].mesh.vertices.len() implies solid_contains(
            faces,
            #[trigger] after[g].mesh.vertices[t],
            epsilon,
        ) by {
            if found.len() < 3 || !face.has_scales() {
                assert(after == before);
            } else {
                let base: MeshModel = match group_of(before, face.texture) {
                    Some(h) => before[h].mesh,
                    None => MeshModel::empty(),
                };
                let changed = match group_of(before, face.texture) {
                    Some(h) => h,
                    None => before.len() as int,
                };
                if g == changed {
                    assert(after[g].mesh.vertices == base.vertices + polygon);
                    let vertex: Real3 = after[g].mesh.vertices[t];
                    if t < base.vertices.len() {
                        assert(vertex == base.vertices[t]);
                        assert(before[g].mesh.vertices[t] == vertex);
                    } else {
                        assert(vertex == polygon[t - base.vertices.len()]);
                    }
                } else {
                    assert(after[g] == before[g]);
                }
            }
        }
    }
}

/// Every vertex in the buffers of a brush lies in the brush.
pub proof fn lemma_buffers_contained(faces: Seq<FaceModel>, epsilon: real)
    ensures
        buffers_contained(brush_geometry(faces, epsilon).meshes, faces, epsilon),
{
    lemma_buffers_of_faces_contained(faces, faces.len(), epsilon);
}

/// Whether buffers fit together: one normal, one texture coordinate and
/// one tangent for every vertex, and triangles whose corners are vertices.
pub open spec fn fits_together(mesh: MeshModel) -> bool {
    &&& mesh.normals.len() == mesh.vertices.len()
    &&& mesh.uvs.len() == mesh.vertices.len()
    &&& mesh.tangents.len() == mesh.vertices.len()
    &&& mesh.indices.len() % 3 == 0
    &&& forall|c: int|
        0 <= c < mesh.indices.len() ==> 0 <= #[trigger] mesh.indices[c] < mesh.vertices.len()
}

/// Adding a polygon to buffers that fit together gives buffers that fit together.
pub proof fn lemma_polygon_fits(mesh: MeshModel, face: FaceModel, polygon: Seq<Real3>)
    requires
        fits_together(mesh),
    ensures
        fits_together(mesh.with_polygon(face, polygon)),
{
    let after = mesh.with_polygon(face, polygon);
    let fan = fan_indices(mesh.vertices.len() as int, polygon.len() as int);
    assert forall|c: int| 0 <= c < after.indices.len() implies 0 <= #[trigger] after.indices[c]
        < after.vertices.len() by {
        if c < mesh.indices.len() {
            assert(after.indices[c] == mesh.indices[c]);
        } else {
            let k = c - mesh.indices.len();
            assert(after.indices[c] == fan[k]);
            assert(0 <= k / 3 < polygon.len() - 2);
        }
    }
}

proof fn lemma_buffers_of_faces_fit(faces: Seq<FaceModel>, n: nat, epsilon: real)
    requires
        n <= faces.len(),
    ensures
        forall|g: int|
            0 <= g < geometry_of_faces(faces, n, epsilon).meshes.len() ==> fits_together(
                (#[trigger] geometry_of_faces(faces, n, epsilon).meshes[g]).mesh,
            ),
    decreases n,
{
    if n > 0 {
        lemma_buffers_of_faces_fit(faces, (n - 1) as nat, epsilon);
        let before = geometry_of_faces(faces, (n - 1) as nat, epsilon).meshes;
        let after = geometry_of_faces(faces, n, epsilon).meshes;
        let face = faces[n - 1];
        let found = face_vertices(faces, n - 1, epsilon);
        let polygon = wound(face.u.axis, face.v.axis, found);
        lemma_group_in_range(before, face.texture);
        assert forall|g: int| 0 <= g < after.len() implies fits_together(
            (#[trigger] after[g]).mesh,
        ) by {
            if found.len() < 3 || !face.has_scales() {
                assert(after == before);
            } else {
                match group_of(before, face.texture) {
                    Some(h) => {
                        if g == h {
                            lemma_polygon_fits(before[h].mesh, face, polygon);
                        } else {
                            assert(after[g] == before[g]);
                        }
                    },
                    None => {
                        if g == before.len() {
                            lemma_polygon_fits(MeshModel::empty(), face, polygon);
                        } else {
                            assert(after[g] == before[g]);
                        }
                    },
                }
            }
        }
    }
}

/// The buffers of a brush fit together: every texture has one normal, one
/// texture coordinate and one tangent for each vertex, and every corner of
/// every triangle is one of its vertices.
pub proof fn lemma_buffers_fit_together(faces: Seq<FaceModel>, epsilon: real)
    ensures
        forall|g: int|
            0 <= g < brush_geometry(faces, epsilon).meshes.len() ==> fits_together(
                (#[trigger] brush_geometry(faces, epsilon).meshes[g]).mesh,
            ),
{
    lemma_buffers_of_faces_fit(faces, faces.len(), epsilon);
}

} // verus!
