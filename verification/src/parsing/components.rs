//! The larger parts of the level format: points, texture axes, faces,
//! brushes and entities.

use crate::data::brush::faces_view;
use crate::data::brush_face::{face_model, AxisModel, DegenerateGeometryError, FaceModel};
use crate::data::{
    brush_model, brushes_view, Brush, BrushFace, BrushModel, Entity, EntityModel, Properties, UvAxis,
};
use crate::number::rational::Rational;
use crate::parsing::grammar::{
    byte_at, face_outcome, parse_axes, parse_brush, parse_brushes, parse_corners, parse_entity,
    parse_face, parse_faces, parse_placement, parse_point, parse_properties,
    parse_properties_into, parse_uv_axis,
    skip_ignored, with_first_face, Rule, SyntaxError,
};
use crate::parsing::util::{escaped_string, generic_list, identifier, ignored, number, numbers_view};
use crate::vector::{Real3, Vec3};
use vstd::prelude::*;

verus! {

/// Matches a point in round brackets: three numbers.
pub fn point(input: &[u8], start: usize) -> (r: Result<(Vec3, usize), SyntaxError>)
    ensures
        match r {
            Ok((p, end)) => parse_point(input@, start as int) == Ok::<(Real3, int), SyntaxError>(
                (p@, end as int),
            ) && start < end <= input@.len(),
            Err(e) => parse_point(input@, start as int) == Err::<(Real3, int), SyntaxError>(e),
        },
{
    if start >= input.len() || input[start] != 40 {
        return Err(SyntaxError { rule: Rule::Point, position: start });
    }
    match generic_list(input, start + 1, 3) {
        Err(p) => Err(SyntaxError { rule: Rule::Point, position: p }),
        Ok((mut numbers, end)) => {
            if end >= input.len() || input[end] != 41 {
                return Err(SyntaxError { rule: Rule::Point, position: end });
            }
            let ghost values = numbers_view(numbers@);
            assert(values[0] == numbers@[0]@ && values[1] == numbers@[1]@ && values[2]
                == numbers@[2]@);
            let z = numbers.pop().unwrap();
            let y = numbers.pop().unwrap();
            let x = numbers.pop().unwrap();
            Ok((Vec3::new(x, y, z), end + 1))
        },
    }
}

/// Matches a texture axis in square brackets: three numbers for the
/// direction and one for the offset.
pub fn uv_axis(input: &[u8], start: usize) -> (r: Result<(UvAxis, usize), SyntaxError>)
    ensures
        match r {
            Ok((axis, end)) => parse_uv_axis(input@, start as int) == Ok::<
                (AxisModel, int),
                SyntaxError,
            >((axis@, end as int)) && start < end <= input@.len(),
            Err(e) => parse_uv_axis(input@, start as int) == Err::<(AxisModel, int), SyntaxError>(
                e,
            ),
        },
{
    if start >= input.len() || input[start] != 91 {
        return Err(SyntaxError { rule: Rule::UvAxis, position: start });
    }
    match generic_list(input, start + 1, 4) {
        Err(p) => Err(SyntaxError { rule: Rule::UvAxis, position: p }),
        Ok((mut numbers, end)) => {
            if end >= input.len() || input[end] != 93 {
                return Err(SyntaxError { rule: Rule::UvAxis, position: end });
            }
            let ghost values = numbers_view(numbers@);
            assert(values[0] == numbers@[0]@ && values[1] == numbers@[1]@ && values[2]
                == numbers@[2]@ && values[3] == numbers@[3]@);
            let offset = numbers.pop().unwrap();
            let z = numbers.pop().unwrap();
            let y = numbers.pop().unwrap();
            let x = numbers.pop().unwrap();
            Ok((UvAxis { axis: Vec3::new(x, y, z), offset }, end + 1))
        },
    }
}

fn corners(input: &[u8], start: usize) -> (r: Result<((Vec3, Vec3, Vec3), usize), SyntaxError>)
    ensures
        match r {
            Ok((c, end)) => parse_corners(input@, start as int) == Ok::<
                ((Real3, Real3, Real3), int),
                SyntaxError,
            >(((c.0@, c.1@, c.2@), end as int)) && start < end <= input@.len(),
            Err(e) => parse_corners(input@, start as int) == Err::<
                ((Real3, Real3, Real3), int),
                SyntaxError,
            >(e),
        },
{
    let (p0, a) = match point(input, start) {
        Ok(found) => found,
        Err(e) => {
            return Err(e);
        },
    };
    let (p1, b) = match point(input, ignored(input, a)) {
        Ok(found) => found,
        Err(e) => {
            return Err(e);
        },
    };
    let (p2, c) = match point(input, ignored(input, b)) {
        Ok(found) => found,
        Err(e) => {
            return Err(e);
        },
    };
    Ok(((p0, p1, p2), c))
}

fn axes(input: &[u8], start: usize) -> (r: Result<((UvAxis, UvAxis), usize), SyntaxError>)
    requires
        start <= input@.len(),
    ensures
        match r {
            Ok((found, end)) => parse_axes(input@, start as int) == Ok::<
                ((AxisModel, AxisModel), int),
                SyntaxError,
            >(((found.0@, found.1@), end as int)) && start < end <= input@.len(),
            Err(e) => parse_axes(input@, start as int) == Err::<
                ((AxisModel, AxisModel), int),
                SyntaxError,
            >(e),
        },
{
    let (u, a) = match uv_axis(input, ignored(input, start)) {
        Ok(found) => found,
        Err(e) => {
            return Err(e);
        },
    };
    let (v, b) = match uv_axis(input, ignored(input, a)) {
        Ok(found) => found,
        Err(e) => {
            return Err(e);
        },
    };
    Ok(((u, v), b))
}

fn placement(input: &[u8], start: usize) -> (r: Result<
    ((Rational, Rational, Rational), usize),
    SyntaxError,
>)
    requires
        start <= input@.len(),
    ensures
        match r {
            Ok((found, end)) => parse_placement(input@, start as int) == Ok::<
                ((real, real, real), int),
                SyntaxError,
            >(((found.0@, found.1@, found.2@), end as int)) && start < end <= input@.len(),
            Err(e) => parse_placement(input@, start as int) == Err::<
                ((real, real, real), int),
                SyntaxError,
            >(e),
        },
{
    let first = ignored(input, start);
    let (rotation, a) = match number(input, first) {
        Some(found) => found,
        None => {
            return Err(SyntaxError { rule: Rule::BrushFace, position: first });
        },
    };
    let second = ignored(input, a);
    let (x_scale, b) = match number(input, second) {
        Some(found) => found,
        None => {
            return Err(SyntaxError { rule: Rule::BrushFace, position: second });
        },
    };
    let third = ignored(input, b);
    let (y_scale, c) = match number(input, third) {
        Some(found) => found,
        None => {
            return Err(SyntaxError { rule: Rule::BrushFace, position: third });
        },
    };
    Ok(((rotation, x_scale, y_scale), c))
}

fn copy_range(input: &[u8], from: usize, to: usize) -> (bytes: Vec<u8>)
    requires
        from <= to <= input@.len(),
    ensures
        bytes@ == input@.subrange(from as int, to as int),
{
    let mut bytes: Vec<u8> = Vec::new();
    let mut i = from;
    while i < to
        invariant
            from <= i <= to <= input@.len(),
            bytes@ =~= input@.subrange(from as int, i as int),
        decreases to - i,
    {
        bytes.push(input[i]);
        i += 1;
    }
    bytes
}

/// What the outcome of building a face holds.
pub open spec fn outcome_view(outcome: Result<BrushFace, DegenerateGeometryError>) -> Result<
    FaceModel,
    DegenerateGeometryError,
> {
    match outcome {
        Ok(face) => Ok(face@),
        Err(e) => Err(e),
    }
}

/// Matches one face: three points, the name of a texture, two texture
/// axes, and three numbers for rotation and scales. Returns the face, or
/// the reason why these parts make none.
pub fn brush_face(input: &[u8], start: usize) -> (r: Result<
    (Result<BrushFace, DegenerateGeometryError>, usize),
    SyntaxError,
>)
    ensures
        match r {
            Ok((outcome, end)) => parse_face(input@, start as int) == Ok::<
                (Result<FaceModel, DegenerateGeometryError>, int),
                SyntaxError,
            >((outcome_view(outcome), end as int)) && start < end <= input@.len(),
            Err(e) => parse_face(input@, start as int) == Err::<
                (Result<FaceModel, DegenerateGeometryError>, int),
                SyntaxError,
            >(e),
        },
{
    let (points, a) = match corners(input, start) {
        Ok(found) => found,
        Err(e) => {
            return Err(e);
        },
    };
    let name_start = ignored(input, a);
    let name_end = identifier(input, name_start);
    let texture = copy_range(input, name_start, name_end);
    let (found_axes, b) = match axes(input, name_end) {
        Ok(found) => found,
        Err(e) => {
            return Err(e);
        },
    };
    let (found_placement, end) = match placement(input, b) {
        Ok(found) => found,
        Err(e) => {
            return Err(e);
        },
    };
    let ghost model = FaceModel {
        p0: points.0@,
        p1: points.1@,
        p2: points.2@,
        texture: texture@,
        u: found_axes.0@,
        v: found_axes.1@,
        rotation: found_placement.0@,
        x_scale: found_placement.1@,
        y_scale: found_placement.2@,
    };
    let (p0, p1, p2) = points;
    let (u, v) = found_axes;
    let (rotation, x_scale, y_scale) = found_placement;
    let corner_list = [p0, p1, p2];
    let ghost built = face_model(corner_list@, texture@, u@, v@, rotation@, x_scale@, y_scale@);
    assert(built == model);
    let outcome = BrushFace::new(corner_list, texture, u, v, rotation, x_scale, y_scale);
    assert(outcome_view(outcome) == face_outcome(model));
    Ok((outcome, end))
}

/// The outcome `rest` with the faces of `done` put in front of its faces.
pub open spec fn faces_joined(done: BrushModel, rest: Result<(BrushModel, int), SyntaxError>)
    -> Result<(BrushModel, int), SyntaxError> {
    match rest {
        Ok((brush, end)) => Ok(
            (
                BrushModel {
                    faces: done.faces + brush.faces,
                    dropped: done.dropped + brush.dropped,
                },
                end,
            ),
        ),
        Err(e) => Err(e),
    }
}

proof fn lemma_faces_joined_push(
    done: BrushModel,
    outcome: Result<FaceModel, DegenerateGeometryError>,
    rest: Result<(BrushModel, int), SyntaxError>,
)
    ensures
        faces_joined(
            done,
            match rest {
                Ok((brush, end)) => Ok((with_first_face(outcome, brush), end)),
                Err(e) => Err(e),
            },
        ) == faces_joined(
            match outcome {
                Ok(face) => BrushModel { faces: done.faces.push(face), dropped: done.dropped },
                Err(_) => BrushModel { faces: done.faces, dropped: done.dropped + 1 },
            },
            rest,
        ),
{
    match rest {
        Ok((brush, end)) => {
            match outcome {
                Ok(face) => {
                    assert(done.faces + (seq![face] + brush.faces) =~= done.faces.push(face)
                        + brush.faces);
                },
                Err(_) => {},
            }
        },
        Err(e) => {},
    }
}

/// Matches a brush: in braces, one face or more. A face whose points span
/// no plane is counted and left out.
pub fn brush(input: &[u8], start: usize) -> (r: Result<(Brush, usize), SyntaxError>)
    ensures
        match r {
            Ok((found, end)) => parse_brush(input@, start as int) == Ok::<
                (BrushModel, int),
                SyntaxError,
            >((brush_model(found), end as int)) && start < end <= input@.len(),
            Err(e) => parse_brush(input@, start as int) == Err::<(BrushModel, int), SyntaxError>(
                e,
            ),
        },
{
    if start >= input.len() || input[start] != 123 {
        return Err(SyntaxError { rule: Rule::Brush, position: start });
    }
    let first = ignored(input, start + 1);
    if first >= input.len() || input[first] != 40 {
        return Err(SyntaxError { rule: Rule::Brush, position: first });
    }
    let mut faces: Vec<BrushFace> = Vec::new();
    let mut dropped: usize = 0;
    let mut pos = first;
    let ghost total = parse_faces(input@, first as int);
    proof {
        assert(faces_view(faces@) =~= Seq::<FaceModel>::empty());
        match total {
            Ok((b, end)) => {
                assert(Seq::<FaceModel>::empty() + b.faces =~= b.faces);
            },
            Err(e) => {},
        }
    }
    loop
        invariant
            start < first <= pos <= input@.len(),
            dropped <= pos - first,
            byte_at(input@, start as int) == Some(123u8),
            first == skip_ignored(input@, start + 1),
            byte_at(input@, first as int) == Some(40u8),
            total == parse_faces(input@, first as int),
            total == faces_joined(
                BrushModel { faces: faces_view(faces@), dropped: dropped as int },
                parse_faces(input@, pos as int),
            ),
        decreases input.len() - pos,
    {
        let ghost done = BrushModel { faces: faces_view(faces@), dropped: dropped as int };
        if pos < input.len() && input[pos] == 125 {
            proof {
                assert(done.faces + Seq::<FaceModel>::empty() =~= done.faces);
            }
            return Ok((Brush { faces, degenerate_faces: dropped }, pos + 1));
        }
        if pos >= input.len() || input[pos] != 40 {
            return Err(SyntaxError { rule: Rule::Brush, position: pos });
        }
        match brush_face(input, pos) {
            Err(e) => {
                return Err(e);
            },
            Ok((outcome, end)) => {
                let next = ignored(input, end);
                proof {
                    lemma_faces_joined_push(
                        done,
                        outcome_view(outcome),
                        parse_faces(input@, next as int),
                    );
                }
                match outcome {
                    Ok(face) => {
                        faces.push(face);
                        proof {
                            assert(faces_view(faces@) =~= done.faces.push(face@));
                        }
                    },
                    Err(_) => {
                        dropped += 1;
                    },
                }
                pos = next;
            },
        }
    }
}

/// The outcome `rest` with `done` put in front of its brushes.
pub open spec fn brushes_joined(
    done: Seq<BrushModel>,
    rest: Result<(Seq<BrushModel>, int), SyntaxError>,
) -> Result<(Seq<BrushModel>, int), SyntaxError> {
    match rest {
        Ok((brushes, end)) => Ok((done + brushes, end)),
        Err(e) => Err(e),
    }
}

/// The outcome `rest` with `done` put in front of its entities.
pub open spec fn entities_joined(
    done: Seq<EntityModel>,
    rest: Result<(Seq<EntityModel>, int), SyntaxError>,
) -> Result<(Seq<EntityModel>, int), SyntaxError> {
    match rest {
        Ok((entities, end)) => Ok((done + entities, end)),
        Err(e) => Err(e),
    }
}

proof fn lemma_brushes_joined_push(
    done: Seq<BrushModel>,
    brush: BrushModel,
    rest: Result<(Seq<BrushModel>, int), SyntaxError>,
)
    ensures
        brushes_joined(
            done,
            match rest {
                Ok((brushes, end)) => Ok((seq![brush] + brushes, end)),
                Err(e) => Err(e),
            },
        ) == brushes_joined(done.push(brush), rest),
{
    match rest {
        Ok((brushes, end)) => {
            assert(done + (seq![brush] + brushes) =~= done.push(brush) + brushes);
        },
        Err(e) => {},
    }
}

/// Putting one more entity behind those done is the same as putting it in
/// front of the rest.
pub proof fn lemma_entities_joined_push(
    done: Seq<EntityModel>,
    entity: EntityModel,
    rest: Result<(Seq<EntityModel>, int), SyntaxError>,
)
    ensures
        entities_joined(
            done,
            match rest {
                Ok((entities, end)) => Ok((seq![entity] + entities, end)),
                Err(e) => Err(e),
            },
        ) == entities_joined(done.push(entity), rest),
{
    match rest {
        Ok((entities, end)) => {
            assert(done + (seq![entity] + entities) =~= done.push(entity) + entities);
        },
        Err(e) => {},
    }
}

fn properties(input: &[u8], start: usize) -> (r: Result<(Properties, usize), SyntaxError>)
    requires
        start <= input@.len(),
    ensures
        match r {
            Ok((found, end)) => parse_properties(input@, start as int) == Ok::<
                (Seq<(Seq<u8>, Seq<u8>)>, int),
                SyntaxError,
            >((found@, end as int)) && start <= end <= input@.len(),
            Err(e) => parse_properties(input@, start as int) == Err::<
                (Seq<(Seq<u8>, Seq<u8>)>, int),
                SyntaxError,
            >(e),
        },
{
    let mut found = Properties::new();
    let mut pos = start;
    let ghost total = parse_properties(input@, start as int);
    loop
        invariant
            start <= pos <= input@.len(),
            total == parse_properties(input@, start as int),
            total == parse_properties_into(input@, pos as int, found@),
        decreases input.len() - pos,
    {
        if pos >= input.len() || input[pos] != 34 {
            return Ok((found, pos));
        }
        let (key, a) = match escaped_string(input, pos) {
            Ok(text) => text,
            Err(e) => {
                return Err(e);
            },
        };
        let (value, b) = match escaped_string(input, ignored(input, a)) {
            Ok(text) => text,
            Err(e) => {
                return Err(e);
            },
        };
        let next = ignored(input, b);
        found.insert(key, value);
        pos = next;
    }
}

fn brushes(input: &[u8], start: usize) -> (r: Result<(Vec<Brush>, usize), SyntaxError>)
    requires
        start <= input@.len(),
    ensures
        match r {
            Ok((found, end)) => parse_brushes(input@, start as int) == Ok::<
                (Seq<BrushModel>, int),
                SyntaxError,
            >((brushes_view(found@), end as int)) && start <= end <= input@.len(),
            Err(e) => parse_brushes(input@, start as int) == Err::<
                (Seq<BrushModel>, int),
                SyntaxError,
            >(e),
        },
{
    let mut found: Vec<Brush> = Vec::new();
    let mut pos = start;
    let ghost total = parse_brushes(input@, start as int);
    proof {
        assert(brushes_view(found@) =~= Seq::<BrushModel>::empty());
        match total {
            Ok((b, end)) => {
                assert(Seq::<BrushModel>::empty() + b =~= b);
            },
            Err(e) => {},
        }
    }
    loop
        invariant
            start <= pos <= input@.len(),
            total == parse_brushes(input@, start as int),
            total == brushes_joined(brushes_view(found@), parse_brushes(input@, pos as int)),
        decreases input.len() - pos,
    {
        let ghost done = brushes_view(found@);
        if pos >= input.len() || input[pos] != 123 {
            proof {
                assert(done + Seq::<BrushModel>::empty() =~= done);
            }
            return Ok((found, pos));
        }
        match brush(input, pos) {
            Err(e) => {
                return Err(e);
            },
            Ok((one, end)) => {
                let next = ignored(input, end);
                proof {
                    lemma_brushes_joined_push(
                        done,
                        brush_model(one),
                        parse_brushes(input@, next as int),
                    );
                }
                found.push(one);
                proof {
                    assert(brushes_view(found@) =~= done.push(brush_model(one)));
                }
                pos = next;
            },
        }
    }
}

/// Matches an entity: in braces, one property or more, then brushes.
pub fn entity(input: &[u8], start: usize) -> (r: Result<(Entity, usize), SyntaxError>)
    ensures
        match r {
            Ok((found, end)) => parse_entity(input@, start as int) == Ok::<
                (EntityModel, int),
                SyntaxError,
            >((found@, end as int)) && start < end <= input@.len(),
            Err(e) => parse_entity(input@, start as int) == Err::<(EntityModel, int), SyntaxError>(
                e,
            ),
        },
{
    if start >= input.len() || input[start] != 123 {
        return Err(SyntaxError { rule: Rule::Entity, position: start });
    }
    let first = ignored(input, start + 1);
    if first >= input.len() || input[first] != 34 {
        return Err(SyntaxError { rule: Rule::Entity, position: first });
    }
    let (found_properties, a) = match properties(input, first) {
        Ok(found) => found,
        Err(e) => {
            return Err(e);
        },
    };
    let (found_brushes, b) = match brushes(input, a) {
        Ok(found) => found,
        Err(e) => {
            return Err(e);
        },
    };
    if b >= input.len() || input[b] != 125 {
        return Err(SyntaxError { rule: Rule::Entity, position: b });
    }
    Ok((Entity { properties: found_properties, brushes: found_brushes }, b + 1))
}

} // verus!
