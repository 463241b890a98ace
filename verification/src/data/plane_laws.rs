//! What holds of the point where three planes meet.

use crate::algebra::{
    lemma_cross_orthogonal, lemma_divide_multiple, lemma_dot_commutes, lemma_dot_divided,
    lemma_dot_plus, lemma_dot_scaled, lemma_triple_cyclic, lemma_zero_product,
};
use crate::data::brush::{candidate_vertex, face_vertices, vertices_from};
use crate::data::brush_face::{determinant, excess, meeting_point, FaceModel, Plane};
use vstd::prelude::*;

verus! {

proof fn lemma_on_first_plane(a: Plane, b: Plane, c: Plane)
    requires
        determinant(a, b, c) != 0real,
    ensures
        excess(a, meeting_point(a, b, c)) == 0real,
{
    let det = determinant(a, b, c);
    let first = b.normal.cross(c.normal);
    let second = c.normal.cross(a.normal);
    let third = a.normal.cross(b.normal);
    let sum = first.scaled(a.dist).plus(second.scaled(b.dist)).plus(third.scaled(c.dist));
    lemma_dot_divided(a.normal, sum, det);
    lemma_dot_plus(a.normal, first.scaled(a.dist).plus(second.scaled(b.dist)), third.scaled(c.dist));
    lemma_dot_plus(a.normal, first.scaled(a.dist), second.scaled(b.dist));
    lemma_dot_scaled(a.normal, first, a.dist);
    lemma_dot_scaled(a.normal, second, b.dist);
    lemma_dot_scaled(a.normal, third, c.dist);
    lemma_cross_orthogonal(c.normal, a.normal);
    lemma_dot_commutes(a.normal, second);
    lemma_cross_orthogonal(a.normal, b.normal);
    lemma_dot_commutes(a.normal, third);
    lemma_zero_product(a.normal.dot(second), b.dist);
    lemma_zero_product(a.normal.dot(third), c.dist);
    lemma_divide_multiple(a.dist, det);
}

proof fn lemma_on_second_plane(a: Plane, b: Plane, c: Plane)
    requires
        determinant(a, b, c) != 0real,
    ensures
        excess(b, meeting_point(a, b, c)) == 0real,
{
    let det = determinant(a, b, c);
    let first = b.normal.cross(c.normal);
    let second = c.normal.cross(a.normal);
    let third = a.normal.cross(b.normal);
    let sum = first.scaled(a.dist).plus(second.scaled(b.dist)).plus(third.scaled(c.dist));
    lemma_dot_divided(b.normal, sum, det);
    lemma_dot_plus(b.normal, first.scaled(a.dist).plus(second.scaled(b.dist)), third.scaled(c.dist));
    lemma_dot_plus(b.normal, first.scaled(a.dist), second.scaled(b.dist));
    lemma_dot_scaled(b.normal, first, a.dist);
    lemma_dot_scaled(b.normal, second, b.dist);
    lemma_dot_scaled(b.normal, third, c.dist);
    lemma_cross_orthogonal(b.normal, c.normal);
    lemma_dot_commutes(b.normal, first);
    lemma_cross_orthogonal(a.normal, b.normal);
    lemma_dot_commutes(b.normal, third);
    lemma_triple_cyclic(a.normal, b.normal, c.normal);
    lemma_zero_product(b.normal.dot(first), a.dist);
    lemma_zero_product(b.normal.dot(third), c.dist);
    lemma_divide_multiple(b.dist, det);
}

proof fn lemma_on_third_plane(a: Plane, b: Plane, c: Plane)
    requires
        determinant(a, b, c) != 0real,
    ensures
        excess(c, meeting_point(a, b, c)) == 0real,
{
    let det = determinant(a, b, c);
    let first = b.normal.cross(c.normal);
    let second = c.normal.cross(a.normal);
    let third = a.normal.cross(b.normal);
    let sum = first.scaled(a.dist).plus(second.scaled(b.dist)).plus(third.scaled(c.dist));
    lemma_dot_divided(c.normal, sum, det);
    lemma_dot_plus(c.normal, first.scaled(a.dist).plus(second.scaled(b.dist)), third.scaled(c.dist));
    lemma_dot_plus(c.normal, first.scaled(a.dist), second.scaled(b.dist));
    lemma_dot_scaled(c.normal, first, a.dist);
    lemma_dot_scaled(c.normal, second, b.dist);
    lemma_dot_scaled(c.normal, third, c.dist);
    lemma_cross_orthogonal(b.normal, c.normal);
    lemma_dot_commutes(c.normal, first);
    lemma_cross_orthogonal(c.normal, a.normal);
    lemma_dot_commutes(c.normal, second);
    lemma_triple_cyclic(a.normal, b.normal, c.normal);
    lemma_zero_product(c.normal.dot(first), a.dist);
    lemma_zero_product(c.normal.dot(second), b.dist);
    lemma_divide_multiple(c.dist, det);
}

/// The point where three planes meet lies on each of the three.
pub proof fn lemma_meeting_point_on_planes(a: Plane, b: Plane, c: Plane)
    requires
        determinant(a, b, c) != 0real,
    ensures
        excess(a, meeting_point(a, b, c)) == 0real,
        excess(b, meeting_point(a, b, c)) == 0real,
        excess(c, meeting_point(a, b, c)) == 0real,
{
    lemma_on_first_plane(a, b, c);
    lemma_on_second_plane(a, b, c);
    lemma_on_third_plane(a, b, c);
}

proof fn lemma_vertices_from_on_face(faces: Seq<FaceModel>, i: int, j: int, k: int, epsilon: real)
    requires
        0 <= i < faces.len(),
    ensures
        forall|t: int|
            0 <= t < vertices_from(faces, i, j, k, epsilon).len() ==> excess(
                faces[i].plane(),
                #[trigger] vertices_from(faces, i, j, k, epsilon)[t],
            ) == 0real,
    decreases faces.len() - j, faces.len() - k,
{
    if j < 0 || j >= faces.len() || k <= j {
        assert(vertices_from(faces, i, j, k, epsilon).len() == 0);
    } else if k >= faces.len() {
        lemma_vertices_from_on_face(faces, i, j + 1, j + 2, epsilon);
        assert(vertices_from(faces, i, j, k, epsilon) == vertices_from(
            faces,
            i,
            j + 1,
            j + 2,
            epsilon,
        ));
    } else {
        lemma_vertices_from_on_face(faces, i, j, k + 1, epsilon);
        let all = vertices_from(faces, i, j, k, epsilon);
        let rest = vertices_from(faces, i, j, k + 1, epsilon);
        assert forall|t: int| 0 <= t < all.len() implies excess(
            faces[i].plane(),
            #[trigger] all[t],
        ) == 0real by {
            match candidate_vertex(faces, i, j, k, epsilon) {
                Some(point) => {
                    if t > 0 {
                        assert(all[t] == rest[t - 1]);
                    } else {
                        lemma_meeting_point_on_planes(
                            faces[i].plane(),
                            faces[j].plane(),
                            faces[k].plane(),
                        );
                    }
                },
                None => {},
            }
        }
    }
}

/// Every vertex of a face lies on the plane of the face.
pub proof fn lemma_face_vertices_on_face(faces: Seq<FaceModel>, i: int, epsilon: real)
    requires
        0 <= i < faces.len(),
    ensures
        forall|t: int|
            0 <= t < face_vertices(faces, i, epsilon).len() ==> excess(
                faces[i].plane(),
                #[trigger] face_vertices(faces, i, epsilon)[t],
            ) == 0real,
{
    lemma_vertices_from_on_face(faces, i, 0, 1, epsilon);
}

} // verus!
