//! A brush: a convex solid given as the intersection of half-spaces.

use crate::data::brush_face::{excess, meeting_point, planes_meet, BrushFace, FaceModel};
use crate::number::rational::Rational;
use crate::vector::{Real3, Vec3};
use vstd::prelude::*;

verus! {

/// Whether `point` lies in every half-space of `faces`, at tolerance `epsilon`.
pub open spec fn solid_contains(faces: Seq<FaceModel>, point: Real3, epsilon: real) -> bool {
    forall|f: int| 0 <= f < faces.len() ==> excess(#[trigger] faces[f].plane(), point) <= epsilon
}

/// The vertex that the planes of faces `i`, `j` and `k` give to face `i`:
/// the point where they meet, if they do and it lies in the solid.
pub open spec fn candidate_vertex(faces: Seq<FaceModel>, i: int, j: int, k: int, epsilon: real)
    -> Option<Real3> {
    let point = meeting_point(faces[i].plane(), faces[j].plane(), faces[k].plane());
    if j != i && k != i && planes_meet(faces[i].plane(), faces[j].plane(), faces[k].plane(), epsilon)
        && solid_contains(faces, point, epsilon) {
        Some(point)
    } else {
        None
    }
}

/// The vertices that the pairs of faces from `(j, k)` on give to face `i`.
/// The pairs `(j, k)` with `j < k` are taken in lexicographic order.
pub open spec fn vertices_from(faces: Seq<FaceModel>, i: int, j: int, k: int, epsilon: real) -> Seq<
    Real3,
>
    decreases faces.len() - j, faces.len() - k,
{
    if j < 0 || j >= faces.len() || k <= j {
        Seq::empty()
    } else if k >= faces.len() {
        vertices_from(faces, i, j + 1, j + 2, epsilon)
    } else {
        match candidate_vertex(faces, i, j, k, epsilon) {
            Some(point) => seq![point] + vertices_from(faces, i, j, k + 1, epsilon),
            None => vertices_from(faces, i, j, k + 1, epsilon),
        }
    }
}

/// The vertices of face `i`, unordered: every point where the plane of the
/// face meets the planes of two other faces and that lies in the solid.
/// A point where more than three planes meet occurs once for each such pair.
pub open spec fn face_vertices(faces: Seq<FaceModel>, i: int, epsilon: real) -> Seq<Real3> {
    vertices_from(faces, i, 0, 1, epsilon)
}

/// Every vertex that the pairs from `(j, k)` on give to a face lies in the solid.
pub proof fn lemma_vertices_from_contained(
    faces: Seq<FaceModel>,
    i: int,
    j: int,
    k: int,
    epsilon: real,
)
    ensures
        forall|t: int|
            0 <= t < vertices_from(faces, i, j, k, epsilon).len() ==> solid_contains(
                faces,
                #[trigger] vertices_from(faces, i, j, k, epsilon)[t],
                epsilon,
            ),
    decreases faces.len() - j, faces.len() - k,
{
    if j < 0 || j >= faces.len() || k <= j {
        assert(vertices_from(faces, i, j, k, epsilon).len() == 0);
    } else if k >= faces.len() {
        lemma_vertices_from_contained(faces, i, j + 1, j + 2, epsilon);
        assert(vertices_from(faces, i, j, k, epsilon) == vertices_from(
            faces,
            i,
            j + 1,
            j + 2,
            epsilon,
        ));
    } else {
        lemma_vertices_from_contained(faces, i, j, k + 1, epsilon);
        let all = vertices_from(faces, i, j, k, epsilon);
        let rest = vertices_from(faces, i, j, k + 1, epsilon);
        assert forall|t: int| 0 <= t < all.len() implies solid_contains(
            faces,
            #[trigger] all[t],
            epsilon,
        ) by {
            match candidate_vertex(faces, i, j, k, epsilon) {
                Some(point) => {
                    if t > 0 {
                        assert(all[t] == rest[t - 1]);
                    }
                },
                None => {},
            }
        }
    }
}

/// Every vertex of every face of a solid lies in the solid: for each face
/// of the solid, it is outside the half-space of that face by no more than
/// the tolerance.
pub proof fn lemma_face_vertices_contained(faces: Seq<FaceModel>, i: int, epsilon: real)
    ensures
        forall|t: int, f: int|
            0 <= t < face_vertices(faces, i, epsilon).len() && 0 <= f < faces.len() ==> excess(
                #[trigger] faces[f].plane(),
                #[trigger] face_vertices(faces, i, epsilon)[t],
            ) <= epsilon,
{
    lemma_vertices_from_contained(faces, i, 0, 1, epsilon);
    assert forall|t: int, f: int|
        0 <= t < face_vertices(faces, i, epsilon).len() && 0 <= f < faces.len() implies excess(
        #[trigger] faces[f].plane(),
        #[trigger] face_vertices(faces, i, epsilon)[t],
    ) <= epsilon by {
        assert(solid_contains(faces, vertices_from(faces, i, 0, 1, epsilon)[t], epsilon));
    }
}

/// What a list of points holds.
pub open spec fn points_view(points: Seq<Vec3>) -> Seq<Real3> {
    Seq::new(points.len(), |t: int| points[t]@)
}

/// What a list of faces holds.
pub open spec fn faces_view(faces: Seq<BrushFace>) -> Seq<FaceModel> {
    Seq::new(faces.len(), |i: int| faces[i]@)
}

/// A convex solid bounded by the planes of its faces.
#[derive(Debug)]
pub struct Brush {
    /// The faces that span a plane.
    pub faces: Vec<BrushFace>,
    /// How many faces of the solid were left out because their points lie
    /// on one line and span no plane.
    pub degenerate_faces: usize,
}

impl View for Brush {
    type V = Seq<FaceModel>;

    open spec fn view(&self) -> Seq<FaceModel> {
        faces_view(self.faces@)
    }
}

impl Brush {
    /// Whether `point` lies in the solid: in the half-space of every face,
    /// or outside it by no more than `epsilon`.
    pub fn contains(&self, point: &Vec3, epsilon: &Rational) -> (inside: bool)
        ensures
            inside == solid_contains(self@, point@, epsilon@),
    {
        let mut f: usize = 0;
        while f < self.faces.len()
            invariant
                f <= self.faces.len(),
                forall|g: int| 0 <= g < f ==> excess(#[trigger] self@[g].plane(), point@) <= epsilon@,
            decreases self.faces.len() - f,
        {
            let e = self.faces[f].excess(point);
            if !e.le(epsilon) {
                assert(self@[f as int] == self.faces@[f as int]@);
                return false;
            }
            assert(self@[f as int] == self.faces@[f as int]@);
            f += 1;
        }
        true
    }

    /// The vertices of face `i`, unordered: every point where the plane of
    /// the face meets the planes of two other faces and that lies in the solid.
    pub fn face_vertices(&self, i: usize, epsilon: &Rational) -> (vertices: Vec<Vec3>)
        requires
            i < self.faces.len(),
        ensures
            points_view(vertices@) == face_vertices(self@, i as int, epsilon@),
    {
        let n = self.faces.len();
        let mut out: Vec<Vec3> = Vec::new();
        let mut j: usize = 0;
        assert(points_view(out@) =~= Seq::<Real3>::empty());
        while j < n
            invariant
                n == self.faces.len(),
                i < n,
                j <= n,
                points_view(out@) + vertices_from(self@, i as int, j as int, j + 1, epsilon@)
                    == face_vertices(self@, i as int, epsilon@),
            decreases n - j,
        {
            let mut k: usize = j + 1;
            while k < n
                invariant
                    n == self.faces.len(),
                    i < n,
                    j < k <= n,
                    points_view(out@) + vertices_from(self@, i as int, j as int, k as int, epsilon@)
                        == face_vertices(self@, i as int, epsilon@),
                decreases n - k,
            {
                let ghost before = points_view(out@);
                let ghost rest = vertices_from(self@, i as int, j as int, k + 1, epsilon@);
                proof {
                    assert(self@[i as int] == self.faces@[i as int]@);
                    assert(self@[j as int] == self.faces@[j as int]@);
                    assert(self@[k as int] == self.faces@[k as int]@);
                }
                if j != i && k != i {
                    match self.faces[i].intersect_faces(&self.faces[j], &self.faces[k], epsilon) {
                        Some(point) => {
                            if self.contains(&point, epsilon) {
                                out.push(point);
                                proof {
                                    assert(points_view(out@) =~= before.push(point@));
                                    assert(before.push(point@) + rest =~= before + (seq![point@]
                                        + rest));
                                }
                            }
                        },
                        None => {},
                    }
                }
                k += 1;
            }
            j += 1;
        }
        proof {
            assert(points_view(out@) + Seq::<Real3>::empty() =~= points_view(out@));
        }
        out
    }
}

} // verus!
