//! The grammar of the level format, as functions on bytes.
//!
//! Each function takes the whole input and a position, and says what the
//! rule matches there: a value and the position behind it, or a failure.

use crate::data::brush_face::{AxisModel, DegenerateGeometryError, FaceModel};
use crate::data::properties::with_property;
use crate::data::{BrushModel, EntityModel};
use crate::number::rational::quotient;
use crate::vector::Real3;
use vstd::prelude::*;

verus! {

/// A rule of the grammar.
#[derive(Clone, Copy, PartialEq, Eq, Debug, Structural)]
pub enum Rule {
    Level,
    Entity,
    Brush,
    BrushFace,
    Point,
    UvAxis,
    QuotedString,
}

/// Where and in which rule the input stopped fitting the grammar.
#[derive(Clone, Copy, PartialEq, Eq, Debug, Structural)]
pub struct SyntaxError {
    /// The innermost rule that was being matched.
    pub rule: Rule,
    /// The position in the input, in bytes, where the rule stopped matching.
    pub position: usize,
}

/// A failure of `rule` at `position`.
pub open spec fn failure(rule: Rule, position: int) -> SyntaxError {
    SyntaxError { rule, position: position as usize }
}

pub open spec fn quote() -> u8 {
    34
}

pub open spec fn backslash() -> u8 {
    92
}

pub open spec fn slash() -> u8 {
    47
}

pub open spec fn line_feed() -> u8 {
    10
}

pub open spec fn carriage_return() -> u8 {
    13
}

/// Whether a byte is a space, a tab, a carriage return or a line feed.
pub open spec fn is_space(b: u8) -> bool {
    b == 32 || b == 9 || b == 13 || b == 10
}

/// Whether a byte is a decimal digit.
pub open spec fn is_digit(b: u8) -> bool {
    48 <= b <= 57
}

/// The byte at a position, if the input reaches that far.
pub open spec fn byte_at(input: Seq<u8>, pos: int) -> Option<u8> {
    if 0 <= pos < input.len() {
        Some(input[pos])
    } else {
        None
    }
}

/// Whether a comment starts at `pos`: two slashes.
pub open spec fn starts_comment(input: Seq<u8>, pos: int) -> bool {
    byte_at(input, pos) == Some(slash()) && byte_at(input, pos + 1) == Some(slash())
}

/// The end of the line that `pos` is in: the position of the next carriage
/// return or line feed, or the end of the input.
pub open spec fn line_end(input: Seq<u8>, pos: int) -> int
    decreases input.len() - pos,
{
    if 0 <= pos < input.len() && input[pos] != line_feed() && input[pos] != carriage_return() {
        line_end(input, pos + 1)
    } else {
        pos
    }
}

/// The end of what is ignored from `pos` on, where `pos` is inside a
/// comment or not.
pub open spec fn skip_ignored_from(input: Seq<u8>, pos: int, in_comment: bool) -> int
    decreases input.len() - pos, (if in_comment { 1int } else { 0int }),
{
    if pos < 0 || pos >= input.len() {
        pos
    } else if in_comment {
        if input[pos] == line_feed() || input[pos] == carriage_return() {
            skip_ignored_from(input, pos, false)
        } else {
            skip_ignored_from(input, pos + 1, true)
        }
    } else if is_space(input[pos]) {
        skip_ignored_from(input, pos + 1, false)
    } else if starts_comment(input, pos) {
        skip_ignored_from(input, pos + 2, true)
    } else {
        pos
    }
}

/// The end of the whitespace and comments that start at `pos`.
pub open spec fn skip_ignored(input: Seq<u8>, pos: int) -> int {
    skip_ignored_from(input, pos, false)
}

/// The end of the run of bytes other than whitespace that starts at `pos`.
pub open spec fn identifier_end(input: Seq<u8>, pos: int) -> int
    decreases input.len() - pos,
{
    if 0 <= pos < input.len() && !is_space(input[pos]) {
        identifier_end(input, pos + 1)
    } else {
        pos
    }
}

/// The end of the run of digits that starts at `pos`.
pub open spec fn digits_end(input: Seq<u8>, pos: int) -> int
    decreases input.len() - pos,
{
    if 0 <= pos < input.len() && is_digit(input[pos]) {
        digits_end(input, pos + 1)
    } else {
        pos
    }
}

/// The number that the digits from `from` up to `to` spell.
pub open spec fn digits_value(input: Seq<u8>, from: int, to: int) -> nat
    decreases to - from,
{
    if to <= from {
        0
    } else {
        digits_value(input, from, to - 1) * 10 + (input[to - 1] - 48) as nat
    }
}

/// Ten to the power `n`.
pub open spec fn pow10(n: nat) -> nat
    decreases n,
{
    if n == 0 {
        1
    } else {
        10 * pow10((n - 1) as nat)
    }
}

/// The digits of a decimal number: whether a minus sign stands in front,
/// the number that all digits spell together, how many of them stand
/// behind the point, and where they end.
pub ghost struct Mantissa {
    pub negative: bool,
    pub digits: nat,
    pub places: nat,
    pub end: int,
}

/// The power of ten that scales a number: whether it is negative, its
/// magnitude, and where it ends.
pub ghost struct Exponent {
    pub negative: bool,
    pub value: nat,
    pub end: int,
}

/// The greatest magnitude of an exponent that is read.
pub open spec fn max_exponent() -> nat {
    400
}

/// The digits of the decimal number that starts at `pos`: an optional
/// sign, digits, and optionally a point and more digits. There must be a
/// digit before or behind the point.
pub open spec fn parse_mantissa(input: Seq<u8>, pos: int) -> Option<Mantissa> {
    let negative = byte_at(input, pos) == Some(45u8);
    let int_start = if byte_at(input, pos) == Some(45u8) || byte_at(input, pos) == Some(43u8) {
        pos + 1
    } else {
        pos
    };
    let int_end = digits_end(input, int_start);
    let has_point = byte_at(input, int_end) == Some(46u8);
    let frac_start = int_end + 1;
    let end = if has_point {
        digits_end(input, frac_start)
    } else {
        int_end
    };
    let places = if has_point {
        (end - frac_start) as nat
    } else {
        0nat
    };
    let whole = digits_value(input, int_start, int_end);
    let part = if has_point {
        digits_value(input, frac_start, end)
    } else {
        0nat
    };
    if int_end == int_start && places == 0 {
        None
    } else {
        Some(Mantissa { negative, digits: whole * pow10(places) + part, places, end })
    }
}

/// The exponent that starts at `pos`: the letter `e` in either case, an
/// optional sign, and digits. Without a digit there is no exponent.
pub open spec fn parse_exponent(input: Seq<u8>, pos: int) -> Option<Exponent> {
    let start = if byte_at(input, pos + 1) == Some(45u8) || byte_at(input, pos + 1) == Some(43u8) {
        pos + 2
    } else {
        pos + 1
    };
    let end = digits_end(input, start);
    if (byte_at(input, pos) == Some(101u8) || byte_at(input, pos) == Some(69u8)) && end > start {
        Some(
            Exponent {
                negative: byte_at(input, pos + 1) == Some(45u8),
                value: digits_value(input, start, end),
                end,
            },
        )
    } else {
        None
    }
}

/// The decimal number that starts at `pos`: an optional sign, digits with
/// or without a point, and optionally an exponent. Its value is exact. A
/// number with an exponent beyond `max_exponent()` is not read.
pub open spec fn parse_number(input: Seq<u8>, pos: int) -> Option<(real, int)> {
    match parse_mantissa(input, pos) {
        None => None,
        Some(m) => {
            let signed = if m.negative {
                -(m.digits as int)
            } else {
                m.digits as int
            };
            match parse_exponent(input, m.end) {
                None => Some((quotient(signed, pow10(m.places) as int), m.end)),
                Some(e) => if e.value > max_exponent() {
                    None
                } else if e.negative {
                    Some((quotient(signed, (pow10(m.places) * pow10(e.value)) as int), e.end))
                } else {
                    Some((quotient(signed * pow10(e.value), pow10(m.places) as int), e.end))
                },
            }
        },
    }
}

/// `n` numbers from `pos` on, with whitespace or comments between each two.
/// On success the position behind the last number; on failure the position
/// where a number or a separator was missing.
pub open spec fn numbers_from(input: Seq<u8>, pos: int, n: nat) -> Result<(Seq<real>, int), int>
    decreases n,
{
    if n == 0 {
        Ok((Seq::empty(), pos))
    } else {
        match parse_number(input, pos) {
            None => Err(pos),
            Some((value, end)) => if n == 1 {
                Ok((seq![value], end))
            } else {
                let next = skip_ignored(input, end);
                if next == end {
                    Err(end)
                } else {
                    match numbers_from(input, next, (n - 1) as nat) {
                        Ok((rest, last)) => Ok((seq![value] + rest, last)),
                        Err(p) => Err(p),
                    }
                }
            },
        }
    }
}

/// A list of exactly `n` numbers with whitespace or comments round and
/// between them. One number more makes the list fail where that number starts.
pub open spec fn parse_number_list(input: Seq<u8>, pos: int, n: nat) -> Result<
    (Seq<real>, int),
    int,
> {
    let start = skip_ignored(input, pos);
    match numbers_from(input, start, n) {
        Err(p) => Err(p),
        Ok((values, end)) => {
            let after = skip_ignored(input, end);
            if (n == 0 || after > end) && parse_number(input, after) is Some {
                Err(after)
            } else {
                Ok((values, after))
            }
        },
    }
}

/// The rest of a quoted string from `pos` on: its bytes, with each escape
/// replaced by what it stands for, and the position behind the closing
/// quote. A backslash escapes a backslash, a quote or a line feed and
/// nothing else. On failure the position of the offending byte, or the end
/// of the input where the closing quote is missing.
pub open spec fn string_body(input: Seq<u8>, pos: int) -> Result<(Seq<u8>, int), int>
    decreases input.len() - pos,
{
    if pos < 0 || pos >= input.len() {
        Err(pos)
    } else if input[pos] == quote() {
        Ok((Seq::empty(), pos + 1))
    } else if input[pos] == backslash() {
        if pos + 1 < input.len() && (input[pos + 1] == backslash() || input[pos + 1] == quote()
            || input[pos + 1] == line_feed()) {
            match string_body(input, pos + 2) {
                Ok((rest, end)) => Ok((seq![input[pos + 1]] + rest, end)),
                Err(p) => Err(p),
            }
        } else {
            Err(pos + 1)
        }
    } else {
        match string_body(input, pos + 1) {
            Ok((rest, end)) => Ok((seq![input[pos]] + rest, end)),
            Err(p) => Err(p),
        }
    }
}

/// A quoted string at `pos`.
pub open spec fn parse_string(input: Seq<u8>, pos: int) -> Result<(Seq<u8>, int), SyntaxError> {
    if byte_at(input, pos) == Some(quote()) {
        match string_body(input, pos + 1) {
            Ok(found) => Ok(found),
            Err(p) => Err(failure(Rule::QuotedString, p)),
        }
    } else {
        Err(failure(Rule::QuotedString, pos))
    }
}

/// What is ignored ends at or behind where it starts, inside the input.
pub proof fn lemma_skip_ignored_from_bounds(input: Seq<u8>, pos: int, in_comment: bool)
    requires
        0 <= pos <= input.len(),
    ensures
        pos <= skip_ignored_from(input, pos, in_comment) <= input.len(),
    decreases input.len() - pos, (if in_comment { 1int } else { 0int }),
{
    if pos >= input.len() {
    } else if in_comment {
        if input[pos] == line_feed() || input[pos] == carriage_return() {
            lemma_skip_ignored_from_bounds(input, pos, false);
        } else {
            lemma_skip_ignored_from_bounds(input, pos + 1, true);
        }
    } else if is_space(input[pos]) {
        lemma_skip_ignored_from_bounds(input, pos + 1, false);
    } else if starts_comment(input, pos) {
        lemma_skip_ignored_from_bounds(input, pos + 2, true);
    }
}

/// What is ignored ends at or behind where it starts, inside the input.
pub proof fn lemma_skip_ignored_bounds(input: Seq<u8>, pos: int)
    requires
        0 <= pos <= input.len(),
    ensures
        pos <= skip_ignored(input, pos) <= input.len(),
{
    lemma_skip_ignored_from_bounds(input, pos, false);
}

/// A name ends at or behind where it starts, inside the input.
pub proof fn lemma_identifier_end_bounds(input: Seq<u8>, pos: int)
    requires
        0 <= pos <= input.len(),
    ensures
        pos <= identifier_end(input, pos) <= input.len(),
    decreases input.len() - pos,
{
    if pos < input.len() && !is_space(input[pos]) {
        lemma_identifier_end_bounds(input, pos + 1);
    }
}

/// A run of digits ends at or behind where it starts, inside the input.
pub proof fn lemma_digits_end_bounds(input: Seq<u8>, pos: int)
    requires
        0 <= pos <= input.len(),
    ensures
        pos <= digits_end(input, pos) <= input.len(),
    decreases input.len() - pos,
{
    if pos < input.len() && is_digit(input[pos]) {
        lemma_digits_end_bounds(input, pos + 1);
    }
}

/// A number takes at least one byte and ends inside the input.
pub proof fn lemma_number_bounds(input: Seq<u8>, pos: int)
    requires
        0 <= pos <= input.len(),
        parse_number(input, pos) is Some,
    ensures
        pos < parse_number(input, pos).unwrap().1 <= input.len(),
{
    let int_start = if byte_at(input, pos) == Some(45u8) || byte_at(input, pos) == Some(43u8) {
        pos + 1
    } else {
        pos
    };
    lemma_digits_end_bounds(input, int_start);
    let int_end = digits_end(input, int_start);
    if byte_at(input, int_end) == Some(46u8) {
        lemma_digits_end_bounds(input, int_end + 1);
    }
    let end = parse_mantissa(input, pos).unwrap().end;
    if parse_exponent(input, end) is Some {
        let start = if byte_at(input, end + 1) == Some(45u8) || byte_at(input, end + 1) == Some(
            43u8,
        ) {
            end + 2
        } else {
            end + 1
        };
        lemma_digits_end_bounds(input, start);
    }
}

/// A run of numbers ends at or behind where it starts, inside the input,
/// and holds as many numbers as were asked for.
pub proof fn lemma_numbers_from_bounds(input: Seq<u8>, pos: int, n: nat)
    requires
        0 <= pos <= input.len(),
        numbers_from(input, pos, n) is Ok,
    ensures
        pos <= (numbers_from(input, pos, n)->Ok_0).1 <= input.len(),
        (numbers_from(input, pos, n)->Ok_0).0.len() == n,
    decreases n,
{
    if n > 0 {
        lemma_number_bounds(input, pos);
        if n > 1 {
            let end = parse_number(input, pos).unwrap().1;
            lemma_skip_ignored_bounds(input, end);
            lemma_numbers_from_bounds(input, skip_ignored(input, end), (n - 1) as nat);
        }
    }
}

/// A list of numbers ends at or behind where it starts, inside the input,
/// and holds as many numbers as were asked for.
pub proof fn lemma_number_list_bounds(input: Seq<u8>, pos: int, n: nat)
    requires
        0 <= pos <= input.len(),
        parse_number_list(input, pos, n) is Ok,
    ensures
        pos <= (parse_number_list(input, pos, n)->Ok_0).1 <= input.len(),
        (parse_number_list(input, pos, n)->Ok_0).0.len() == n,
{
    lemma_skip_ignored_bounds(input, pos);
    let start = skip_ignored(input, pos);
    lemma_numbers_from_bounds(input, start, n);
    lemma_skip_ignored_bounds(input, (numbers_from(input, start, n)->Ok_0).1);
}

/// The rest of a string ends behind where it starts, inside the input.
pub proof fn lemma_string_body_bounds(input: Seq<u8>, pos: int)
    requires
        0 <= pos <= input.len(),
        string_body(input, pos) is Ok,
    ensures
        pos < (string_body(input, pos)->Ok_0).1 <= input.len(),
    decreases input.len() - pos,
{
    if pos >= input.len() {
    } else if input[pos] == quote() {
    } else if input[pos] == backslash() {
        lemma_string_body_bounds(input, pos + 2);
    } else {
        lemma_string_body_bounds(input, pos + 1);
    }
}

/// A string takes at least one byte and ends inside the input.
pub proof fn lemma_string_bounds(input: Seq<u8>, pos: int)
    requires
        0 <= pos <= input.len(),
        parse_string(input, pos) is Ok,
    ensures
        pos < (parse_string(input, pos)->Ok_0).1 <= input.len(),
{
    lemma_string_body_bounds(input, pos + 1);
}

/// A point in round brackets: three numbers.
pub open spec fn parse_point(input: Seq<u8>, pos: int) -> Result<(Real3, int), SyntaxError> {
    if byte_at(input, pos) != Some(40u8) {
        Err(failure(Rule::Point, pos))
    } else {
        match parse_number_list(input, pos + 1, 3) {
            Err(p) => Err(failure(Rule::Point, p)),
            Ok((values, end)) => if byte_at(input, end) == Some(41u8) {
                Ok((Real3 { x: values[0], y: values[1], z: values[2] }, end + 1))
            } else {
                Err(failure(Rule::Point, end))
            },
        }
    }
}

/// A texture axis in square brackets: three numbers for the direction and
/// one for the offset.
pub open spec fn parse_uv_axis(input: Seq<u8>, pos: int) -> Result<(AxisModel, int), SyntaxError> {
    if byte_at(input, pos) != Some(91u8) {
        Err(failure(Rule::UvAxis, pos))
    } else {
        match parse_number_list(input, pos + 1, 4) {
            Err(p) => Err(failure(Rule::UvAxis, p)),
            Ok((values, end)) => if byte_at(input, end) == Some(93u8) {
                Ok(
                    (
                        AxisModel {
                            axis: Real3 { x: values[0], y: values[1], z: values[2] },
                            offset: values[3],
                        },
                        end + 1,
                    ),
                )
            } else {
                Err(failure(Rule::UvAxis, end))
            },
        }
    }
}

/// A point takes at least one byte and ends inside the input.
pub proof fn lemma_point_bounds(input: Seq<u8>, pos: int)
    requires
        0 <= pos <= input.len(),
        parse_point(input, pos) is Ok,
    ensures
        pos < (parse_point(input, pos)->Ok_0).1 <= input.len(),
{
    lemma_number_list_bounds(input, pos + 1, 3);
}

/// A texture axis takes at least one byte and ends inside the input.
pub proof fn lemma_uv_axis_bounds(input: Seq<u8>, pos: int)
    requires
        0 <= pos <= input.len(),
        parse_uv_axis(input, pos) is Ok,
    ensures
        pos < (parse_uv_axis(input, pos)->Ok_0).1 <= input.len(),
{
    lemma_number_list_bounds(input, pos + 1, 4);
}

/// What becomes of the parts of a face: a face, or the reason why there is
/// none. Three points on one line make no face.
pub open spec fn face_outcome(model: FaceModel) -> Result<FaceModel, DegenerateGeometryError> {
    if model.normal() == Real3::zero() {
        Err(DegenerateGeometryError::CollinearPoints)
    } else {
        Ok(model)
    }
}

/// The three numbers that close a face: rotation and the two scales.
pub open spec fn parse_placement(input: Seq<u8>, pos: int) -> Result<
    ((real, real, real), int),
    SyntaxError,
> {
    let first = skip_ignored(input, pos);
    match parse_number(input, first) {
        None => Err(failure(Rule::BrushFace, first)),
        Some((rotation, a)) => {
            let second = skip_ignored(input, a);
            match parse_number(input, second) {
                None => Err(failure(Rule::BrushFace, second)),
                Some((x_scale, b)) => {
                    let third = skip_ignored(input, b);
                    match parse_number(input, third) {
                        None => Err(failure(Rule::BrushFace, third)),
                        Some((y_scale, c)) => Ok(((rotation, x_scale, y_scale), c)),
                    }
                },
            }
        },
    }
}

/// The three points that open a face.
pub open spec fn parse_corners(input: Seq<u8>, pos: int) -> Result<
    ((Real3, Real3, Real3), int),
    SyntaxError,
> {
    match parse_point(input, pos) {
        Err(e) => Err(e),
        Ok((p0, a)) => match parse_point(input, skip_ignored(input, a)) {
            Err(e) => Err(e),
            Ok((p1, b)) => match parse_point(input, skip_ignored(input, b)) {
                Err(e) => Err(e),
                Ok((p2, c)) => Ok(((p0, p1, p2), c)),
            },
        },
    }
}

/// The two texture axes of a face.
pub open spec fn parse_axes(input: Seq<u8>, pos: int) -> Result<
    ((AxisModel, AxisModel), int),
    SyntaxError,
> {
    match parse_uv_axis(input, skip_ignored(input, pos)) {
        Err(e) => Err(e),
        Ok((u, a)) => match parse_uv_axis(input, skip_ignored(input, a)) {
            Err(e) => Err(e),
            Ok((v, b)) => Ok(((u, v), b)),
        },
    }
}

/// One face: three points, the name of a texture, two texture axes, and
/// three numbers for rotation and scales. The result holds the face, or
/// the reason why these parts make none.
pub open spec fn parse_face(input: Seq<u8>, pos: int) -> Result<
    (Result<FaceModel, DegenerateGeometryError>, int),
    SyntaxError,
> {
    match parse_corners(input, pos) {
        Err(e) => Err(e),
        Ok((corners, a)) => {
            let name_start = skip_ignored(input, a);
            let name_end = identifier_end(input, name_start);
            match parse_axes(input, name_end) {
                Err(e) => Err(e),
                Ok((axes, b)) => match parse_placement(input, b) {
                    Err(e) => Err(e),
                    Ok((placement, end)) => Ok(
                        (
                            face_outcome(
                                FaceModel {
                                    p0: corners.0,
                                    p1: corners.1,
                                    p2: corners.2,
                                    texture: input.subrange(name_start, name_end),
                                    u: axes.0,
                                    v: axes.1,
                                    rotation: placement.0,
                                    x_scale: placement.1,
                                    y_scale: placement.2,
                                },
                            ),
                            end,
                        ),
                    ),
                },
            }
        },
    }
}

/// The three points of a face take at least one byte and end inside the input.
pub proof fn lemma_corners_bounds(input: Seq<u8>, pos: int)
    requires
        0 <= pos <= input.len(),
        parse_corners(input, pos) is Ok,
    ensures
        pos < (parse_corners(input, pos)->Ok_0).1 <= input.len(),
{
    lemma_point_bounds(input, pos);
    let a = (parse_point(input, pos)->Ok_0).1;
    lemma_skip_ignored_bounds(input, a);
    lemma_point_bounds(input, skip_ignored(input, a));
    let b = (parse_point(input, skip_ignored(input, a))->Ok_0).1;
    lemma_skip_ignored_bounds(input, b);
    lemma_point_bounds(input, skip_ignored(input, b));
}

/// The two axes of a face end behind where they start, inside the input.
pub proof fn lemma_axes_bounds(input: Seq<u8>, pos: int)
    requires
        0 <= pos <= input.len(),
        parse_axes(input, pos) is Ok,
    ensures
        pos < (parse_axes(input, pos)->Ok_0).1 <= input.len(),
{
    lemma_skip_ignored_bounds(input, pos);
    lemma_uv_axis_bounds(input, skip_ignored(input, pos));
    let a = (parse_uv_axis(input, skip_ignored(input, pos))->Ok_0).1;
    lemma_skip_ignored_bounds(input, a);
    lemma_uv_axis_bounds(input, skip_ignored(input, a));
}

/// Rotation and scales end behind where they start, inside the input.
pub proof fn lemma_placement_bounds(input: Seq<u8>, pos: int)
    requires
        0 <= pos <= input.len(),
        parse_placement(input, pos) is Ok,
    ensures
        pos < (parse_placement(input, pos)->Ok_0).1 <= input.len(),
{
    lemma_skip_ignored_bounds(input, pos);
    let first = skip_ignored(input, pos);
    lemma_number_bounds(input, first);
    let a = parse_number(input, first).unwrap().1;
    lemma_skip_ignored_bounds(input, a);
    lemma_number_bounds(input, skip_ignored(input, a));
    let b = parse_number(input, skip_ignored(input, a)).unwrap().1;
    lemma_skip_ignored_bounds(input, b);
    lemma_number_bounds(input, skip_ignored(input, b));
}

/// A face takes at least one byte and ends inside the input.
pub proof fn lemma_face_bounds(input: Seq<u8>, pos: int)
    requires
        0 <= pos <= input.len(),
        parse_face(input, pos) is Ok,
    ensures
        pos < (parse_face(input, pos)->Ok_0).1 <= input.len(),
{
    lemma_corners_bounds(input, pos);
    let a = (parse_corners(input, pos)->Ok_0).1;
    lemma_skip_ignored_bounds(input, a);
    lemma_identifier_end_bounds(input, skip_ignored(input, a));
    let name_end = identifier_end(input, skip_ignored(input, a));
    lemma_axes_bounds(input, name_end);
    lemma_placement_bounds(input, (parse_axes(input, name_end)->Ok_0).1);
}

/// A brush with the outcome of one more face in front.
pub open spec fn with_first_face(
    outcome: Result<FaceModel, DegenerateGeometryError>,
    rest: BrushModel,
) -> BrushModel {
    match outcome {
        Ok(face) => BrushModel { faces: seq![face] + rest.faces, dropped: rest.dropped },
        Err(_) => BrushModel { faces: rest.faces, dropped: rest.dropped + 1 },
    }
}

/// The faces of a brush from `pos` on, up to the closing brace. `pos` is
/// the position of a face or of the brace.
pub open spec fn parse_faces(input: Seq<u8>, pos: int) -> Result<(BrushModel, int), SyntaxError>
    decreases input.len() - pos,
{
    if byte_at(input, pos) == Some(125u8) {
        Ok((BrushModel { faces: Seq::empty(), dropped: 0 }, pos + 1))
    } else if byte_at(input, pos) == Some(40u8) {
        match parse_face(input, pos) {
            Err(e) => Err(e),
            Ok((outcome, end)) => {
                proof {
                    lemma_face_bounds(input, pos);
                    lemma_skip_ignored_bounds(input, end);
                }
                match parse_faces(input, skip_ignored(input, end)) {
                    Err(e) => Err(e),
                    Ok((rest, last)) => Ok((with_first_face(outcome, rest), last)),
                }
            },
        }
    } else {
        Err(failure(Rule::Brush, pos))
    }
}

/// A brush: in braces, one face or more.
pub open spec fn parse_brush(input: Seq<u8>, pos: int) -> Result<(BrushModel, int), SyntaxError> {
    if byte_at(input, pos) != Some(123u8) {
        Err(failure(Rule::Brush, pos))
    } else {
        let first = skip_ignored(input, pos + 1);
        if byte_at(input, first) == Some(40u8) {
            parse_faces(input, first)
        } else {
            Err(failure(Rule::Brush, first))
        }
    }
}

/// The faces of a brush end behind where they start, inside the input.
pub proof fn lemma_faces_bounds(input: Seq<u8>, pos: int)
    requires
        0 <= pos <= input.len(),
        parse_faces(input, pos) is Ok,
    ensures
        pos < (parse_faces(input, pos)->Ok_0).1 <= input.len(),
    decreases input.len() - pos,
{
    if byte_at(input, pos) == Some(125u8) {
    } else if byte_at(input, pos) == Some(40u8) {
        lemma_face_bounds(input, pos);
        let end = (parse_face(input, pos)->Ok_0).1;
        lemma_skip_ignored_bounds(input, end);
        lemma_faces_bounds(input, skip_ignored(input, end));
    }
}

/// A brush takes at least one byte and ends inside the input.
pub proof fn lemma_brush_bounds(input: Seq<u8>, pos: int)
    requires
        0 <= pos <= input.len(),
        parse_brush(input, pos) is Ok,
    ensures
        pos < (parse_brush(input, pos)->Ok_0).1 <= input.len(),
{
    lemma_skip_ignored_bounds(input, pos + 1);
    lemma_faces_bounds(input, skip_ignored(input, pos + 1));
}

/// The properties from `pos` on, given to the names of `done` one after
/// another: pairs of strings, as long as a quote follows. A name that
/// occurs again gets the later value. Ends behind what is ignored after
/// the last pair.
pub open spec fn parse_properties_into(
    input: Seq<u8>,
    pos: int,
    done: Seq<(Seq<u8>, Seq<u8>)>,
) -> Result<(Seq<(Seq<u8>, Seq<u8>)>, int), SyntaxError>
    decreases input.len() - pos,
{
    if byte_at(input, pos) == Some(quote()) {
        match parse_string(input, pos) {
            Err(e) => Err(e),
            Ok((key, a)) => match parse_string(input, skip_ignored(input, a)) {
                Err(e) => Err(e),
                Ok((value, b)) => {
                    proof {
                        lemma_string_bounds(input, pos);
                        lemma_skip_ignored_bounds(input, a);
                        lemma_string_bounds(input, skip_ignored(input, a));
                        lemma_skip_ignored_bounds(input, b);
                    }
                    parse_properties_into(
                        input,
                        skip_ignored(input, b),
                        with_property(done, key, value),
                    )
                },
            },
        }
    } else {
        Ok((done, pos))
    }
}

/// The properties from `pos` on: one value for each name, the last one
/// given, in the order in which the names first occur.
pub open spec fn parse_properties(input: Seq<u8>, pos: int) -> Result<
    (Seq<(Seq<u8>, Seq<u8>)>, int),
    SyntaxError,
> {
    parse_properties_into(input, pos, Seq::empty())
}

/// The brushes from `pos` on, as long as an opening brace follows. Ends
/// behind what is ignored after the last brush.
pub open spec fn parse_brushes(input: Seq<u8>, pos: int) -> Result<
    (Seq<BrushModel>, int),
    SyntaxError,
>
    decreases input.len() - pos,
{
    if byte_at(input, pos) == Some(123u8) {
        match parse_brush(input, pos) {
            Err(e) => Err(e),
            Ok((brush, a)) => {
                proof {
                    lemma_brush_bounds(input, pos);
                    lemma_skip_ignored_bounds(input, a);
                }
                match parse_brushes(input, skip_ignored(input, a)) {
                    Err(e) => Err(e),
                    Ok((rest, end)) => Ok((seq![brush] + rest, end)),
                }
            },
        }
    } else {
        Ok((Seq::empty(), pos))
    }
}

/// An entity: in braces, one property or more, then brushes.
pub open spec fn parse_entity(input: Seq<u8>, pos: int) -> Result<(EntityModel, int), SyntaxError> {
    if byte_at(input, pos) != Some(123u8) {
        Err(failure(Rule::Entity, pos))
    } else {
        let first = skip_ignored(input, pos + 1);
        if byte_at(input, first) != Some(quote()) {
            Err(failure(Rule::Entity, first))
        } else {
            match parse_properties(input, first) {
                Err(e) => Err(e),
                Ok((properties, a)) => match parse_brushes(input, a) {
                    Err(e) => Err(e),
                    Ok((brushes, b)) => if byte_at(input, b) == Some(125u8) {
                        Ok((EntityModel { properties, brushes }, b + 1))
                    } else {
                        Err(failure(Rule::Entity, b))
                    },
                },
            }
        }
    }
}

/// Properties end at or behind where they start, inside the input.
pub proof fn lemma_properties_into_bounds(
    input: Seq<u8>,
    pos: int,
    done: Seq<(Seq<u8>, Seq<u8>)>,
)
    requires
        0 <= pos <= input.len(),
        parse_properties_into(input, pos, done) is Ok,
    ensures
        pos <= (parse_properties_into(input, pos, done)->Ok_0).1 <= input.len(),
    decreases input.len() - pos,
{
    if byte_at(input, pos) == Some(quote()) {
        lemma_string_bounds(input, pos);
        let found = parse_string(input, pos)->Ok_0;
        lemma_skip_ignored_bounds(input, found.1);
        lemma_string_bounds(input, skip_ignored(input, found.1));
        let second = parse_string(input, skip_ignored(input, found.1))->Ok_0;
        lemma_skip_ignored_bounds(input, second.1);
        lemma_properties_into_bounds(
            input,
            skip_ignored(input, second.1),
            with_property(done, found.0, second.0),
        );
    }
}

/// Properties end at or behind where they start, inside the input.
pub proof fn lemma_properties_bounds(input: Seq<u8>, pos: int)
    requires
        0 <= pos <= input.len(),
        parse_properties(input, pos) is Ok,
    ensures
        pos <= (parse_properties(input, pos)->Ok_0).1 <= input.len(),
{
    lemma_properties_into_bounds(input, pos, Seq::empty());
}

/// Brushes end at or behind where they start, inside the input.
pub proof fn lemma_brushes_bounds(input: Seq<u8>, pos: int)
    requires
        0 <= pos <= input.len(),
        parse_brushes(input, pos) is Ok,
    ensures
        pos <= (parse_brushes(input, pos)->Ok_0).1 <= input.len(),
    decreases input.len() - pos,
{
    if byte_at(input, pos) == Some(123u8) {
        lemma_brush_bounds(input, pos);
        let a = (parse_brush(input, pos)->Ok_0).1;
        lemma_skip_ignored_bounds(input, a);
        lemma_brushes_bounds(input, skip_ignored(input, a));
    }
}

/// An entity takes at least one byte and ends inside the input.
pub proof fn lemma_entity_bounds(input: Seq<u8>, pos: int)
    requires
        0 <= pos <= input.len(),
        parse_entity(input, pos) is Ok,
    ensures
        pos < (parse_entity(input, pos)->Ok_0).1 <= input.len(),
{
    lemma_skip_ignored_bounds(input, pos + 1);
    let first = skip_ignored(input, pos + 1);
    lemma_properties_bounds(input, first);
    lemma_brushes_bounds(input, (parse_properties(input, first)->Ok_0).1);
}

/// The entities from `pos` on, as long as an opening brace follows. Ends
/// behind what is ignored after the last entity.
pub open spec fn parse_entities(input: Seq<u8>, pos: int) -> Result<
    (Seq<EntityModel>, int),
    SyntaxError,
>
    decreases input.len() - pos,
{
    if byte_at(input, pos) == Some(123u8) {
        match parse_entity(input, pos) {
            Err(e) => Err(e),
            Ok((entity, a)) => {
                proof {
                    lemma_entity_bounds(input, pos);
                    lemma_skip_ignored_bounds(input, a);
                }
                match parse_entities(input, skip_ignored(input, a)) {
                    Err(e) => Err(e),
                    Ok((rest, end)) => Ok((seq![entity] + rest, end)),
                }
            },
        }
    } else {
        Ok((Seq::empty(), pos))
    }
}

/// A whole level: one entity or more, with nothing behind them but
/// whitespace and comments.
pub open spec fn parse_level(input: Seq<u8>) -> Result<Seq<EntityModel>, SyntaxError> {
    let first = skip_ignored(input, 0);
    if byte_at(input, first) != Some(123u8) {
        Err(failure(Rule::Level, first))
    } else {
        match parse_entities(input, first) {
            Err(e) => Err(e),
            Ok((entities, end)) => if end == input.len() {
                Ok(entities)
            } else {
                Err(failure(Rule::Level, end))
            },
        }
    }
}

} // verus!
