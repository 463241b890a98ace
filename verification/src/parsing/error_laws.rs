//! Where parsing can fail: at or behind the position where a rule starts,
//! and never behind the end of the input.

use crate::parsing::grammar::{
    backslash, byte_at, identifier_end, lemma_axes_bounds, lemma_brush_bounds,
    lemma_brushes_bounds, lemma_corners_bounds, lemma_entity_bounds, lemma_face_bounds,
    lemma_identifier_end_bounds, lemma_number_bounds, lemma_number_list_bounds,
    lemma_numbers_from_bounds, lemma_point_bounds, lemma_properties_bounds,
    lemma_skip_ignored_bounds, lemma_string_bounds, lemma_uv_axis_bounds, numbers_from,
    parse_axes, parse_brush, parse_brushes, parse_corners, parse_entities, parse_entity,
    parse_face, parse_faces, parse_level, parse_number, parse_number_list, parse_placement,
    parse_point, parse_properties, parse_properties_into, parse_string, parse_uv_axis, quote,
    skip_ignored, string_body,
};
use crate::data::properties::with_property;
use vstd::prelude::*;

verus! {

proof fn lemma_numbers_from_failure(input: Seq<u8>, pos: int, n: nat)
    requires
        0 <= pos <= input.len(),
        numbers_from(input, pos, n) is Err,
    ensures
        pos <= numbers_from(input, pos, n)->Err_0 <= input.len(),
    decreases n,
{
    if n > 0 {
        match parse_number(input, pos) {
            None => {},
            Some((value, end)) => {
                lemma_number_bounds(input, pos);
                if n > 1 {
                    lemma_skip_ignored_bounds(input, end);
                    let next = skip_ignored(input, end);
                    if next != end {
                        lemma_numbers_from_failure(input, next, (n - 1) as nat);
                    }
                }
            },
        }
    }
}

proof fn lemma_number_list_failure(input: Seq<u8>, pos: int, n: nat)
    requires
        0 <= pos <= input.len(),
        parse_number_list(input, pos, n) is Err,
    ensures
        pos <= parse_number_list(input, pos, n)->Err_0 <= input.len(),
{
    lemma_skip_ignored_bounds(input, pos);
    let start = skip_ignored(input, pos);
    if numbers_from(input, start, n) is Err {
        lemma_numbers_from_failure(input, start, n);
    } else {
        lemma_numbers_from_bounds(input, start, n);
        lemma_skip_ignored_bounds(input, (numbers_from(input, start, n)->Ok_0).1);
    }
}

proof fn lemma_string_body_failure(input: Seq<u8>, pos: int)
    requires
        0 <= pos <= input.len(),
        string_body(input, pos) is Err,
    ensures
        pos <= string_body(input, pos)->Err_0 <= input.len(),
    decreases input.len() - pos,
{
    if pos >= input.len() {
    } else if input[pos] == quote() {
    } else if input[pos] == backslash() {
        if pos + 1 < input.len() && (input[pos + 1] == backslash() || input[pos + 1] == quote()
            || input[pos + 1] == 10u8) {
            lemma_string_body_failure(input, pos + 2);
        }
    } else {
        lemma_string_body_failure(input, pos + 1);
    }
}

/// Whether the outcome `position` of a failed rule that started at `pos`
/// lies between `pos` and the end of the input.
pub open spec fn inside(input: Seq<u8>, pos: int, position: usize) -> bool {
    pos <= position <= input.len()
}

proof fn lemma_string_failure(input: Seq<u8>, pos: int)
    requires
        0 <= pos <= input.len() <= usize::MAX,
        parse_string(input, pos) is Err,
    ensures
        inside(input, pos, (parse_string(input, pos)->Err_0).position),
{
    if byte_at(input, pos) == Some(quote()) {
        lemma_string_body_failure(input, pos + 1);
    }
}

proof fn lemma_point_failure(input: Seq<u8>, pos: int)
    requires
        0 <= pos <= input.len() <= usize::MAX,
        parse_point(input, pos) is Err,
    ensures
        inside(input, pos, (parse_point(input, pos)->Err_0).position),
{
    if byte_at(input, pos) == Some(40u8) {
        if parse_number_list(input, pos + 1, 3) is Err {
            lemma_number_list_failure(input, pos + 1, 3);
        } else {
            lemma_number_list_bounds(input, pos + 1, 3);
        }
    }
}

proof fn lemma_uv_axis_failure(input: Seq<u8>, pos: int)
    requires
        0 <= pos <= input.len() <= usize::MAX,
        parse_uv_axis(input, pos) is Err,
    ensures
        inside(input, pos, (parse_uv_axis(input, pos)->Err_0).position),
{
    if byte_at(input, pos) == Some(91u8) {
        if parse_number_list(input, pos + 1, 4) is Err {
            lemma_number_list_failure(input, pos + 1, 4);
        } else {
            lemma_number_list_bounds(input, pos + 1, 4);
        }
    }
}

proof fn lemma_corners_failure(input: Seq<u8>, pos: int)
    requires
        0 <= pos <= input.len() <= usize::MAX,
        parse_corners(input, pos) is Err,
    ensures
        inside(input, pos, (parse_corners(input, pos)->Err_0).position),
{
    if parse_point(input, pos) is Err {
        lemma_point_failure(input, pos);
    } else {
        lemma_point_bounds(input, pos);
        let a = (parse_point(input, pos)->Ok_0).1;
        lemma_skip_ignored_bounds(input, a);
        let second = skip_ignored(input, a);
        if parse_point(input, second) is Err {
            lemma_point_failure(input, second);
        } else {
            lemma_point_bounds(input, second);
            let b = (parse_point(input, second)->Ok_0).1;
            lemma_skip_ignored_bounds(input, b);
            lemma_point_failure(input, skip_ignored(input, b));
        }
    }
}

proof fn lemma_axes_failure(input: Seq<u8>, pos: int)
    requires
        0 <= pos <= input.len() <= usize::MAX,
        parse_axes(input, pos) is Err,
    ensures
        inside(input, pos, (parse_axes(input, pos)->Err_0).position),
{
    lemma_skip_ignored_bounds(input, pos);
    let first = skip_ignored(input, pos);
    if parse_uv_axis(input, first) is Err {
        lemma_uv_axis_failure(input, first);
    } else {
        lemma_uv_axis_bounds(input, first);
        let a = (parse_uv_axis(input, first)->Ok_0).1;
        lemma_skip_ignored_bounds(input, a);
        lemma_uv_axis_failure(input, skip_ignored(input, a));
    }
}

proof fn lemma_placement_failure(input: Seq<u8>, pos: int)
    requires
        0 <= pos <= input.len() <= usize::MAX,
        parse_placement(input, pos) is Err,
    ensures
        inside(input, pos, (parse_placement(input, pos)->Err_0).position),
{
    lemma_skip_ignored_bounds(input, pos);
    let first = skip_ignored(input, pos);
    if parse_number(input, first) is Some {
        lemma_number_bounds(input, first);
        let a = parse_number(input, first).unwrap().1;
        lemma_skip_ignored_bounds(input, a);
        let second = skip_ignored(input, a);
        if parse_number(input, second) is Some {
            lemma_number_bounds(input, second);
            let b = parse_number(input, second).unwrap().1;
            lemma_skip_ignored_bounds(input, b);
        }
    }
}

proof fn lemma_face_failure(input: Seq<u8>, pos: int)
    requires
        0 <= pos <= input.len() <= usize::MAX,
        parse_face(input, pos) is Err,
    ensures
        inside(input, pos, (parse_face(input, pos)->Err_0).position),
{
    if parse_corners(input, pos) is Err {
        lemma_corners_failure(input, pos);
    } else {
        lemma_corners_bounds(input, pos);
        let a = (parse_corners(input, pos)->Ok_0).1;
        lemma_skip_ignored_bounds(input, a);
        let name_start = skip_ignored(input, a);
        lemma_identifier_end_bounds(input, name_start);
        let name_end = identifier_end(input, name_start);
        if parse_axes(input, name_end) is Err {
            lemma_axes_failure(input, name_end);
        } else {
            lemma_axes_bounds(input, name_end);
            lemma_placement_failure(input, (parse_axes(input, name_end)->Ok_0).1);
        }
    }
}

proof fn lemma_faces_failure(input: Seq<u8>, pos: int)
    requires
        0 <= pos <= input.len() <= usize::MAX,
        parse_faces(input, pos) is Err,
    ensures
        inside(input, pos, (parse_faces(input, pos)->Err_0).position),
    decreases input.len() - pos,
{
    if byte_at(input, pos) == Some(125u8) {
    } else if byte_at(input, pos) == Some(40u8) {
        if parse_face(input, pos) is Err {
            lemma_face_failure(input, pos);
        } else {
            lemma_face_bounds(input, pos);
            let end = (parse_face(input, pos)->Ok_0).1;
            lemma_skip_ignored_bounds(input, end);
            lemma_faces_failure(input, skip_ignored(input, end));
        }
    }
}

proof fn lemma_brush_failure(input: Seq<u8>, pos: int)
    requires
        0 <= pos <= input.len() <= usize::MAX,
        parse_brush(input, pos) is Err,
    ensures
        inside(input, pos, (parse_brush(input, pos)->Err_0).position),
{
    if byte_at(input, pos) == Some(123u8) {
        lemma_skip_ignored_bounds(input, pos + 1);
        let first = skip_ignored(input, pos + 1);
        if byte_at(input, first) == Some(40u8) {
            lemma_faces_failure(input, first);
        }
    }
}

proof fn lemma_properties_into_failure(input: Seq<u8>, pos: int, done: Seq<(Seq<u8>, Seq<u8>)>)
    requires
        0 <= pos <= input.len() <= usize::MAX,
        parse_properties_into(input, pos, done) is Err,
    ensures
        inside(input, pos, (parse_properties_into(input, pos, done)->Err_0).position),
    decreases input.len() - pos,
{
    if byte_at(input, pos) == Some(quote()) {
        if parse_string(input, pos) is Err {
            lemma_string_failure(input, pos);
        } else {
            lemma_string_bounds(input, pos);
            let found = parse_string(input, pos)->Ok_0;
            lemma_skip_ignored_bounds(input, found.1);
            let second = skip_ignored(input, found.1);
            if parse_string(input, second) is Err {
                lemma_string_failure(input, second);
            } else {
                lemma_string_bounds(input, second);
                let other = parse_string(input, second)->Ok_0;
                lemma_skip_ignored_bounds(input, other.1);
                lemma_properties_into_failure(
                    input,
                    skip_ignored(input, other.1),
                    with_property(done, found.0, other.0),
                );
            }
        }
    }
}

proof fn lemma_properties_failure(input: Seq<u8>, pos: int)
    requires
        0 <= pos <= input.len() <= usize::MAX,
        parse_properties(input, pos) is Err,
    ensures
        inside(input, pos, (parse_properties(input, pos)->Err_0).position),
{
    lemma_properties_into_failure(input, pos, Seq::empty());
}

proof fn lemma_brushes_failure(input: Seq<u8>, pos: int)
    requires
        0 <= pos <= input.len() <= usize::MAX,
        parse_brushes(input, pos) is Err,
    ensures
        inside(input, pos, (parse_brushes(input, pos)->Err_0).position),
    decreases input.len() - pos,
{
    if byte_at(input, pos) == Some(123u8) {
        if parse_brush(input, pos) is Err {
            lemma_brush_failure(input, pos);
        } else {
            lemma_brush_bounds(input, pos);
            let a = (parse_brush(input, pos)->Ok_0).1;
            lemma_skip_ignored_bounds(input, a);
            lemma_brushes_failure(input, skip_ignored(input, a));
        }
    }
}

proof fn lemma_entity_failure(input: Seq<u8>, pos: int)
    requires
        0 <= pos <= input.len() <= usize::MAX,
        parse_entity(input, pos) is Err,
    ensures
        inside(input, pos, (parse_entity(input, pos)->Err_0).position),
{
    if byte_at(input, pos) == Some(123u8) {
        lemma_skip_ignored_bounds(input, pos + 1);
        let first = skip_ignored(input, pos + 1);
        if byte_at(input, first) == Some(quote()) {
            if parse_properties(input, first) is Err {
                lemma_properties_failure(input, first);
            } else {
                lemma_properties_bounds(input, first);
                let a = (parse_properties(input, first)->Ok_0).1;
                if parse_brushes(input, a) is Err {
                    lemma_brushes_failure(input, a);
                } else {
                    lemma_brushes_bounds(input, a);
                }
            }
        }
    }
}

proof fn lemma_entities_failure(input: Seq<u8>, pos: int)
    requires
        0 <= pos <= input.len() <= usize::MAX,
        parse_entities(input, pos) is Err,
    ensures
        inside(input, pos, (parse_entities(input, pos)->Err_0).position),
    decreases input.len() - pos,
{
    if byte_at(input, pos) == Some(123u8) {
        if parse_entity(input, pos) is Err {
            lemma_entity_failure(input, pos);
        } else {
            lemma_entity_bounds(input, pos);
            let a = (parse_entity(input, pos)->Ok_0).1;
            lemma_skip_ignored_bounds(input, a);
            lemma_entities_failure(input, skip_ignored(input, a));
        }
    }
}

proof fn lemma_entities_end(input: Seq<u8>, pos: int)
    requires
        0 <= pos <= input.len(),
        parse_entities(input, pos) is Ok,
    ensures
        pos <= (parse_entities(input, pos)->Ok_0).1 <= input.len(),
    decreases input.len() - pos,
{
    if byte_at(input, pos) == Some(123u8) {
        lemma_entity_bounds(input, pos);
        let a = (parse_entity(input, pos)->Ok_0).1;
        lemma_skip_ignored_bounds(input, a);
        lemma_entities_end(input, skip_ignored(input, a));
    }
}

/// Where a level fails to parse, the position of the failure lies inside
/// the input or at its end.
pub proof fn lemma_failure_inside_input(input: Seq<u8>)
    requires
        input.len() <= usize::MAX,
        parse_level(input) is Err,
    ensures
        (parse_level(input)->Err_0).position <= input.len(),
{
    lemma_skip_ignored_bounds(input, 0);
    let first = skip_ignored(input, 0);
    if byte_at(input, first) == Some(123u8) {
        if parse_entities(input, first) is Err {
            lemma_entities_failure(input, first);
        } else {
            lemma_entities_end(input, first);
        }
    }
}

} // verus!
