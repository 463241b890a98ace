//! The small parts of the level format: names, comments, numbers, strings.

use crate::number::integer::Integer;
use crate::number::natural::Natural;
use crate::number::rational::Rational;
use crate::parsing::grammar::{
    byte_at, digits_end, digits_value, identifier_end, is_space, line_end, numbers_from,
    parse_exponent, parse_mantissa, parse_number, parse_number_list, parse_string, pow10,
    skip_ignored, skip_ignored_from, starts_comment, string_body, Rule, SyntaxError,
};
use vstd::prelude::*;

verus! {

/// What a list of numbers holds.
pub open spec fn numbers_view(numbers: Seq<Rational>) -> Seq<real> {
    Seq::new(numbers.len(), |i: int| numbers[i]@)
}

fn space(b: u8) -> (r: bool)
    ensures
        r == is_space(b),
{
    b == 32 || b == 9 || b == 13 || b == 10
}

/// Matches a name: the run of bytes up to the next whitespace or the end.
/// Returns the position behind it.
pub fn identifier(input: &[u8], start: usize) -> (end: usize)
    ensures
        end == identifier_end(input@, start as int),
        start <= input@.len() ==> start <= end <= input@.len(),
{
    let mut pos = start;
    while pos < input.len() && !space(input[pos])
        invariant
            start <= pos,
            start <= input@.len() ==> pos <= input@.len(),
            identifier_end(input@, pos as int) == identifier_end(input@, start as int),
        decreases input.len() - pos,
    {
        pos += 1;
    }
    pos
}

/// Matches a comment: two slashes and the rest of the line. Returns the
/// position of the end of the line.
pub fn comment(input: &[u8], start: usize) -> (end: Option<usize>)
    ensures
        match end {
            Some(e) => starts_comment(input@, start as int) && e == line_end(
                input@,
                start + 2,
            ) && start + 2 <= e <= input@.len(),
            None => !starts_comment(input@, start as int),
        },
{
    if start >= input.len() || input.len() - start < 2 {
        return None;
    }
    if input[start] != 47 || input[start + 1] != 47 {
        return None;
    }
    let mut pos = start + 2;
    while pos < input.len() && input[pos] != 10 && input[pos] != 13
        invariant
            start + 2 <= pos <= input@.len(),
            line_end(input@, pos as int) == line_end(input@, start + 2),
        decreases input.len() - pos,
    {
        pos += 1;
    }
    Some(pos)
}

/// Skips whitespace and comments. Returns the position of the first byte
/// that is neither.
pub fn ignored(input: &[u8], start: usize) -> (end: usize)
    ensures
        end == skip_ignored(input@, start as int),
        start <= input@.len() ==> start <= end <= input@.len(),
{
    let mut pos = start;
    let mut in_comment = false;
    loop
        invariant
            start <= pos,
            start <= input@.len() ==> pos <= input@.len(),
            skip_ignored_from(input@, pos as int, in_comment) == skip_ignored(input@, start as int),
        ensures
            pos == skip_ignored(input@, start as int),
            start <= pos,
            start <= input@.len() ==> pos <= input@.len(),
        decreases
                input.len() - pos,
                (if in_comment {
                    1int
                } else {
                    0int
                }),
    {
        if pos >= input.len() {
            break ;
        }
        let b = input[pos];
        if in_comment {
            if b == 10 || b == 13 {
                in_comment = false;
            } else {
                pos += 1;
            }
        } else if space(b) {
            pos += 1;
        } else if b == 47 && input.len() - pos >= 2 && input[pos + 1] == 47 {
            pos += 2;
            in_comment = true;
        } else {
            break ;
        }
    }
    pos
}

proof fn lemma_pow10_positive(n: nat)
    ensures
        pow10(n) > 0,
    decreases n,
{
    if n > 0 {
        lemma_pow10_positive((n - 1) as nat);
    }
}

proof fn lemma_digits_step(whole: nat, part: nat, scale: nat, digit: nat)
    ensures
        (whole * scale + part) * 10 + digit == whole * (10 * scale) + (part * 10 + digit),
{
    assert((whole * scale + part) * 10 + digit == whole * (10 * scale) + (part * 10 + digit))
        by (nonlinear_arith);
}

proof fn lemma_scale_step(digits: nat, scale: nat)
    ensures
        (digits * scale) * 10 == digits * (10 * scale),
        (scale * digits) * 10 == (10 * scale) * digits,
{
    assert((digits * scale) * 10 == digits * (10 * scale)) by (nonlinear_arith);
    assert((scale * digits) * 10 == (10 * scale) * digits) by (nonlinear_arith);
}

proof fn lemma_negate_product(digits: int, scale: int)
    ensures
        (-digits) * scale == -(digits * scale),
{
    assert((-digits) * scale == -(digits * scale)) by (nonlinear_arith);
}

proof fn lemma_positive_product(a: nat, b: nat)
    requires
        a > 0,
        b > 0,
    ensures
        a * b > 0,
{
    assert(a * b > 0) by (nonlinear_arith)
        requires
            a > 0,
            b > 0,
    ;
}

/// Matches a decimal number: an optional sign, digits with or without a
/// point, and optionally an exponent. Returns its exact value and the
/// position behind it.
pub fn number(input: &[u8], start: usize) -> (r: Option<(Rational, usize)>)
    ensures
        match r {
            Some((value, end)) => parse_number(input@, start as int) == Some(
                (value@, end as int),
            ) && start < end <= input@.len(),
            None => parse_number(input@, start as int) is None,
        },
{
    if start >= input.len() {
        return None;
    }
    let negative = input[start] == 45;
    let int_start = if input[start] == 45 || input[start] == 43 {
        start + 1
    } else {
        start
    };
    let mut pos = int_start;
    let mut mantissa = Natural::zero();
    while pos < input.len() && 48 <= input[pos] && input[pos] <= 57
        invariant
            int_start <= pos <= input@.len(),
            digits_end(input@, pos as int) == digits_end(input@, int_start as int),
            mantissa@ == digits_value(input@, int_start as int, pos as int),
        decreases input.len() - pos,
    {
        mantissa = mantissa.mul_small_add(10, (input[pos] - 48) as u32);
        pos += 1;
    }
    let int_end = pos;
    let ghost whole = mantissa@;
    let mut scale = Natural::from_u64(1);
    let mut places: usize = 0;
    let has_point = pos < input.len() && input[pos] == 46;
    if has_point {
        pos += 1;
        let frac_start = pos;
        proof {
            assert(pow10(0) == 1);
            assert(whole * 1 + 0 == whole) by (nonlinear_arith);
        }
        while pos < input.len() && 48 <= input[pos] && input[pos] <= 57
            invariant
                frac_start == int_end + 1,
                frac_start <= pos <= input@.len(),
                places == pos - frac_start,
                digits_end(input@, pos as int) == digits_end(input@, frac_start as int),
                scale@ == pow10(places as nat),
                mantissa@ == whole * pow10(places as nat) + digits_value(
                    input@,
                    frac_start as int,
                    pos as int,
                ),
            decreases input.len() - pos,
        {
            proof {
                lemma_digits_step(
                    whole,
                    digits_value(input@, frac_start as int, pos as int),
                    pow10(places as nat),
                    (input@[pos as int] - 48) as nat,
                );
            }
            mantissa = mantissa.mul_small_add(10, (input[pos] - 48) as u32);
            scale = scale.mul_small_add(10, 0);
            places += 1;
            pos += 1;
        }
    } else {
        proof {
            assert(pow10(0) == 1);
            assert(whole * 1 + 0 == whole) by (nonlinear_arith);
        }
    }
    if int_end == int_start && places == 0 {
        return None;
    }
    let ghost found = parse_mantissa(input@, start as int).unwrap();
    assert(found.end == pos && found.digits == mantissa@ && found.places == places
        && found.negative == negative);
    proof {
        lemma_pow10_positive(places as nat);
    }
    let mut end = pos;
    if pos < input.len() && (input[pos] == 101 || input[pos] == 69) {
        let mut p = pos + 1;
        let down = p < input.len() && input[p] == 45;
        if p < input.len() && (input[p] == 45 || input[p] == 43) {
            p += 1;
        }
        let exp_start = p;
        let mut exponent: u32 = 0;
        let mut too_large = false;
        while p < input.len() && 48 <= input[p] && input[p] <= 57
            invariant
                exp_start <= p <= input@.len(),
                digits_end(input@, p as int) == digits_end(input@, exp_start as int),
                !too_large ==> exponent == digits_value(input@, exp_start as int, p as int)
                    && exponent <= 400,
                too_large ==> digits_value(input@, exp_start as int, p as int) > 400,
            decreases input.len() - p,
        {
            if !too_large {
                let next = exponent * 10 + (input[p] - 48) as u32;
                if next > 400 {
                    too_large = true;
                } else {
                    exponent = next;
                }
            }
            p += 1;
        }
        if p > exp_start {
            let ghost read = parse_exponent(input@, pos as int).unwrap();
            assert(read.end == p && read.negative == down && read.value == digits_value(
                input@,
                exp_start as int,
                p as int,
            ));
            if too_large {
                return None;
            }
            let ghost digits = mantissa@;
            let ghost base = scale@;
            let mut k: u32 = 0;
            proof {
                assert(pow10(0) == 1);
                assert(digits * 1 == digits) by (nonlinear_arith);
                assert(base * 1 == base) by (nonlinear_arith);
            }
            while k < exponent
                invariant
                    k <= exponent,
                    down ==> mantissa@ == digits && scale@ == base * pow10(k as nat),
                    !down ==> mantissa@ == digits * pow10(k as nat) && scale@ == base,
                decreases exponent - k,
            {
                proof {
                    lemma_scale_step(digits, pow10(k as nat));
                    lemma_scale_step(base, pow10(k as nat));
                }
                if down {
                    scale = scale.mul_small_add(10, 0);
                } else {
                    mantissa = mantissa.mul_small_add(10, 0);
                }
                k += 1;
            }
            proof {
                lemma_pow10_positive(exponent as nat);
                lemma_positive_product(base, pow10(exponent as nat));
                lemma_negate_product(digits as int, pow10(exponent as nat) as int);
            }
            end = p;
        } else {
            assert(parse_exponent(input@, pos as int) is None);
        }
    } else {
        assert(parse_exponent(input@, pos as int) is None);
    }
    let value = Rational::new(Integer::from_parts(negative, mantissa), scale).unwrap();
    Some((value, end))
}

/// Matches a list of exactly `n` numbers, with whitespace or comments round
/// and between them. Returns the numbers and the position behind the list,
/// or the position where the list stopped fitting.
pub fn generic_list(input: &[u8], start: usize, n: usize) -> (r: Result<(Vec<Rational>, usize), usize>)
    ensures
        match r {
            Ok((numbers, end)) => parse_number_list(input@, start as int, n as nat) == Ok::<
                (Seq<real>, int),
                int,
            >((numbers_view(numbers@), end as int)) && numbers@.len() == n && (start
                <= input@.len() ==> start <= end <= input@.len()),
            Err(p) => parse_number_list(input@, start as int, n as nat) == Err::<
                (Seq<real>, int),
                int,
            >(p as int),
        },
{
    let first = ignored(input, start);
    let mut numbers: Vec<Rational> = Vec::new();
    let mut pos = first;
    let mut i: usize = 0;
    let ghost total = numbers_from(input@, first as int, n as nat);
    assert(numbers_view(numbers@) =~= Seq::<real>::empty());
    while i < n
        invariant
            i <= n,
            first <= pos,
            first == skip_ignored(input@, start as int),
            start <= first,
            start <= input@.len() ==> pos <= input@.len(),
            numbers@.len() == i,
            total == numbers_from(input@, first as int, n as nat),
            i > 0 ==> pos > first,
            i == 0 ==> pos == first,
            i < n ==> total == prefixed(
                numbers_view(numbers@),
                numbers_from(
                    input@,
                    if i == 0 {
                        pos as int
                    } else {
                        skip_ignored(input@, pos as int)
                    },
                    (n - i) as nat,
                ),
            ),
            i < n && i > 0 ==> skip_ignored(input@, pos as int) > pos,
            i == n ==> total == Ok::<(Seq<real>, int), int>((numbers_view(numbers@), pos as int)),
        decreases n - i,
    {
        let at = if i == 0 {
            pos
        } else {
            ignored(input, pos)
        };
        let ghost before = numbers_view(numbers@);
        match number(input, at) {
            None => {
                return Err(at);
            },
            Some((value, end)) => {
                numbers.push(value);
                proof {
                    assert(numbers_view(numbers@) =~= before.push(value@));
                }
                if i + 1 < n {
                    let next = ignored(input, end);
                    if next == end {
                        return Err(end);
                    }
                    proof {
                        let rest = numbers_from(input@, next as int, (n - i - 1) as nat);
                        lemma_prefixed_push(before, value@, rest);
                    }
                } else {
                    proof {
                        assert(before + seq![value@] =~= before.push(value@));
                    }
                }
                pos = end;
            },
        }
        i += 1;
    }
    let after = ignored(input, pos);
    if n == 0 || after > pos {
        match number(input, after) {
            Some(_) => {
                return Err(after);
            },
            None => {},
        }
    }
    Ok((numbers, after))
}

/// The outcome `rest` with `prefix` put in front of its numbers.
pub open spec fn prefixed(prefix: Seq<real>, rest: Result<(Seq<real>, int), int>) -> Result<
    (Seq<real>, int),
    int,
> {
    match rest {
        Ok((values, end)) => Ok((prefix + values, end)),
        Err(p) => Err(p),
    }
}

proof fn lemma_prefixed_push(prefix: Seq<real>, value: real, rest: Result<(Seq<real>, int), int>)
    ensures
        prefixed(
            prefix,
            match rest {
                Ok((values, end)) => Ok((seq![value] + values, end)),
                Err(p) => Err(p),
            },
        ) == prefixed(prefix.push(value), rest),
{
    match rest {
        Ok((values, end)) => {
            assert(prefix + (seq![value] + values) =~= prefix.push(value) + values);
        },
        Err(p) => {},
    }
}

/// The outcome `rest` with `prefix` put in front of its bytes.
pub open spec fn prefixed_bytes(prefix: Seq<u8>, rest: Result<(Seq<u8>, int), int>) -> Result<
    (Seq<u8>, int),
    int,
> {
    match rest {
        Ok((bytes, end)) => Ok((prefix + bytes, end)),
        Err(p) => Err(p),
    }
}

/// Matches a quoted string. Returns its bytes, with each escape replaced by
/// what it stands for, and the position behind the closing quote.
pub fn escaped_string(input: &[u8], start: usize) -> (r: Result<(Vec<u8>, usize), SyntaxError>)
    ensures
        match r {
            Ok((text, end)) => parse_string(input@, start as int) == Ok::<
                (Seq<u8>, int),
                SyntaxError,
            >((text@, end as int)) && start < end <= input@.len(),
            Err(e) => parse_string(input@, start as int) == Err::<(Seq<u8>, int), SyntaxError>(e),
        },
{
    if start >= input.len() || input[start] != 34 {
        return Err(SyntaxError { rule: Rule::QuotedString, position: start });
    }
    let mut text: Vec<u8> = Vec::new();
    let mut pos = start + 1;
    let ghost total = string_body(input@, start + 1);
    assert(Seq::<u8>::empty() + Seq::<u8>::empty() =~= Seq::<u8>::empty());
    loop
        invariant
            start < pos <= input@.len(),
            byte_at(input@, start as int) == Some(34u8),
            total == string_body(input@, start + 1),
            total == prefixed_bytes(text@, string_body(input@, pos as int)),
        decreases input.len() - pos,
    {
        if pos >= input.len() {
            return Err(SyntaxError { rule: Rule::QuotedString, position: pos });
        }
        let b = input[pos];
        let ghost before = text@;
        if b == 34 {
            assert(before + Seq::<u8>::empty() =~= before);
            return Ok((text, pos + 1));
        } else if b == 92 {
            if input.len() - pos >= 2 && (input[pos + 1] == 92 || input[pos + 1] == 34 || input[pos
                + 1] == 10) {
                text.push(input[pos + 1]);
                proof {
                    lemma_prefixed_bytes_push(
                        before,
                        input@[pos + 1],
                        string_body(input@, pos + 2),
                    );
                }
                pos += 2;
            } else {
                return Err(SyntaxError { rule: Rule::QuotedString, position: pos + 1 });
            }
        } else {
            text.push(b);
            proof {
                lemma_prefixed_bytes_push(before, b, string_body(input@, pos + 1));
            }
            pos += 1;
        }
    }
}

proof fn lemma_prefixed_bytes_push(prefix: Seq<u8>, byte: u8, rest: Result<(Seq<u8>, int), int>)
    ensures
        prefixed_bytes(
            prefix,
            match rest {
                Ok((bytes, end)) => Ok((seq![byte] + bytes, end)),
                Err(p) => Err(p),
            },
        ) == prefixed_bytes(prefix.push(byte), rest),
{
    match rest {
        Ok((bytes, end)) => {
            assert(prefix + (seq![byte] + bytes) =~= prefix.push(byte) + bytes);
        },
        Err(p) => {},
    }
}

} // verus!
