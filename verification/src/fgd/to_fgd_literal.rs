//! Values as they are written in entity definition files.

use vstd::prelude::*;
use vstd::string::StringExecFns;

verus! {

/// The character of a decimal digit.
pub open spec fn digit_char(d: int) -> char {
    ((48 + d) as u8) as char
}

/// The decimal digits of a natural number, without leading zeros.
pub open spec fn decimal_digits(n: nat) -> Seq<char>
    decreases n,
{
    if n < 10 {
        seq![digit_char(n as int)]
    } else {
        decimal_digits(n / 10).push(digit_char((n % 10) as int))
    }
}

/// An integer in decimal, with a minus sign where it is negative.
pub open spec fn decimal(v: int) -> Seq<char> {
    if v < 0 {
        seq!['-'] + decimal_digits((-v) as nat)
    } else {
        decimal_digits(v as nat)
    }
}

/// A text in double quotes.
pub open spec fn quoted(text: Seq<char>) -> Seq<char> {
    seq!['"'] + text + seq!['"']
}

fn digit_text(d: u32) -> (text: &'static str)
    requires
        d < 10,
    ensures
        text@ == seq![digit_char(d as int)],
{
    proof {
        reveal_strlit("0");
        reveal_strlit("1");
        reveal_strlit("2");
        reveal_strlit("3");
        reveal_strlit("4");
        reveal_strlit("5");
        reveal_strlit("6");
        reveal_strlit("7");
        reveal_strlit("8");
        reveal_strlit("9");
    }
    let text = match d {
        0 => "0",
        1 => "1",
        2 => "2",
        3 => "3",
        4 => "4",
        5 => "5",
        6 => "6",
        7 => "7",
        8 => "8",
        _ => "9",
    };
    assert(text@ =~= seq![digit_char(d as int)]);
    text
}

/// Writes a number without sign in decimal.
pub fn digits_text(n: u32) -> (text: String)
    ensures
        text@ == decimal_digits(n as nat),
    decreases n,
{
    if n < 10 {
        String::from_str(digit_text(n))
    } else {
        let mut text = digits_text(n / 10);
        let ghost head = text@;
        text.append(digit_text(n % 10));
        assert(text@ =~= head.push(digit_char((n % 10) as int)));
        text
    }
}

/// Writes an integer in decimal.
pub fn decimal_text(v: i32) -> (text: String)
    ensures
        text@ == decimal(v as int),
{
    if v < 0 {
        let magnitude: u32 = if v == i32::MIN {
            0x8000_0000u32
        } else {
            (-v) as u32
        };
        proof {
            reveal_strlit("-");
            assert("-"@ =~= seq!['-']);
        }
        let mut text = String::from_str("-");
        text.append(digits_text(magnitude).as_str());
        text
    } else {
        digits_text(v as u32)
    }
}

/// A value that can be written into an entity definition file.
pub trait ToFgdLiteral {
    /// The text that stands for the value.
    spec fn fgd_literal(&self) -> Seq<char>;

    /// Writes the value.
    fn to_fgd_literal(&self) -> (text: String)
        ensures
            text@ == self.fgd_literal(),
    ;
}

impl ToFgdLiteral for String {
    open spec fn fgd_literal(&self) -> Seq<char> {
        quoted(self@)
    }

    fn to_fgd_literal(&self) -> (text: String) {
        proof {
            reveal_strlit("\"");
            assert("\""@ =~= seq!['"']);
        }
        let mut text = String::from_str("\"");
        text.append(self.as_str());
        text.append("\"");
        text
    }
}

impl ToFgdLiteral for i32 {
    open spec fn fgd_literal(&self) -> Seq<char> {
        decimal(*self as int)
    }

    fn to_fgd_literal(&self) -> (text: String) {
        decimal_text(*self)
    }
}

impl ToFgdLiteral for bool {
    open spec fn fgd_literal(&self) -> Seq<char> {
        if *self {
            "1"@
        } else {
            "0"@
        }
    }

    fn to_fgd_literal(&self) -> (text: String) {
        if *self {
            String::from_str("1")
        } else {
            String::from_str("0")
        }
    }
}

} // verus!
