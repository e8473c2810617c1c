//! Literal values spelled as written. A floating-point literal's spelling
//! is left to the host, which formats floating-point values.
use vstd::prelude::*;
use crate::ast::{NumLiteral, Value};
use crate::text::{decimal, decimal_string_u64, digit_char};

verus! {

/// The decimal spelling of a signed integer.
pub open spec fn signed_decimal(x: int) -> Seq<char> {
    if x < 0 {
        "-"@ + decimal((-x) as nat)
    } else {
        decimal(x as nat)
    }
}

/// A numeric literal as written, with a suffix for every type but `Int64`;
/// `None` for a floating-point literal.
pub open spec fn spec_num_literal_text(literal: NumLiteral) -> Option<Seq<char>> {
    match literal {
        NumLiteral::Int(x) => Some(signed_decimal(x as int)),
        NumLiteral::U8(x) => Some(decimal(x as nat) + "u8"@),
        NumLiteral::U16(x) => Some(decimal(x as nat) + "u16"@),
        NumLiteral::U32(x) => Some(decimal(x as nat) + "u32"@),
        NumLiteral::U64(x) => Some(decimal(x as nat) + "u64"@),
        NumLiteral::F64(_) | NumLiteral::F32(_) => None,
    }
}

/// An uppercase hexadecimal digit.
pub open spec fn upper_hex_char(d: nat) -> char {
    if d < 10 {
        digit_char(d)
    } else if d == 10 {
        'A'
    } else if d == 11 {
        'B'
    } else if d == 12 {
        'C'
    } else if d == 13 {
        'D'
    } else if d == 14 {
        'E'
    } else {
        'F'
    }
}

/// The uppercase hexadecimal spelling of `n`, without leading zeros.
pub open spec fn upper_hex(n: nat) -> Seq<char>
    decreases n,
{
    if n < 16 {
        seq![upper_hex_char(n)]
    } else {
        upper_hex(n / 16).push(upper_hex_char(n % 16))
    }
}

/// `text` with zeros in front up to four characters.
pub open spec fn padded_four(text: Seq<char>) -> Seq<char> {
    if text.len() < 4 {
        Seq::new((4 - text.len()) as nat, |i: int| '0') + text
    } else {
        text
    }
}

/// A literal value as written: `nil`, `true` or `false`, a number, the
/// text of a string, or a scalar as `U+` and at least four uppercase
/// hexadecimal digits; `None` for a floating-point literal.
pub open spec fn spec_value_text(value: Value) -> Option<Seq<char>> {
    match value {
        Value::Nil => Some("nil"@),
        Value::Bool(b) => Some(if b { "true"@ } else { "false"@ }),
        Value::Num(literal) => spec_num_literal_text(literal),
        Value::Str(text) => Some(text@),
        Value::Unicode(c) => Some("U+"@ + padded_four(upper_hex(c as nat))),
    }
}

fn upper_hex_digit(d: u32) -> (r: &'static str)
    requires
        d < 16,
    ensures
        r@ == seq![upper_hex_char(d as nat)],
{
    proof {
        reveal_strlit("0");
        reveal_strlit("1");
        reveal_strlit("2");
        reveal_strlit("3");
        reveal_strlit("4");
        reveal_strlit("5");
        reveal_strlit("6");
        reveal_strlit("7");
        reveal_strlit("8");
        reveal_strlit("9");
        reveal_strlit("A");
        reveal_strlit("B");
        reveal_strlit("C");
        reveal_strlit("D");
        reveal_strlit("E");
        reveal_strlit("F");
    }
    let r = match d {
        0 => "0",
        1 => "1",
        2 => "2",
        3 => "3",
        4 => "4",
        5 => "5",
        6 => "6",
        7 => "7",
        8 => "8",
        9 => "9",
        10 => "A",
        11 => "B",
        12 => "C",
        13 => "D",
        14 => "E",
        _ => "F",
    };
    assert(r@ =~= seq![upper_hex_char(d as nat)]);
    r
}

fn upper_hex_string(n: u32) -> (r: String)
    ensures
        r@ == upper_hex(n as nat),
    decreases n,
{
    let digit = upper_hex_digit(n % 16);
    if n < 16 {
        String::from_str(digit)
    } else {
        let mut s = upper_hex_string(n / 16);
        s.append(digit);
        assert(s@ =~= upper_hex((n / 16) as nat).push(upper_hex_char((n % 16) as nat)));
        s
    }
}

fn suffixed(n: u64, suffix: &str) -> (r: String)
    ensures
        r@ == decimal(n as nat) + suffix@,
{
    let mut s = decimal_string_u64(n);
    s.append(suffix);
    s
}

/// Spells a numeric literal as written (see `spec_num_literal_text`).
pub fn num_literal_text(literal: &NumLiteral) -> (r: Option<String>)
    ensures
        match r {
            Some(text) => spec_num_literal_text(*literal) == Some(text@),
            None => spec_num_literal_text(*literal) is None,
        },
{
    match literal {
        NumLiteral::Int(x) => {
            if *x < 0 {
                let magnitude = (0 - (*x as i128)) as u64;
                let mut s = String::from_str("-");
                let digits = decimal_string_u64(magnitude);
                s.append(digits.as_str());
                proof {
                    reveal_strlit("-");
                }
                Some(s)
            } else {
                Some(decimal_string_u64(*x as u64))
            }
        },
        NumLiteral::U8(x) => Some(suffixed(*x as u64, "u8")),
        NumLiteral::U16(x) => Some(suffixed(*x as u64, "u16")),
        NumLiteral::U32(x) => Some(suffixed(*x as u64, "u32")),
        NumLiteral::U64(x) => Some(suffixed(*x, "u64")),
        NumLiteral::F64(_) | NumLiteral::F32(_) => None,
    }
}

/// Spells a literal value as written (see `spec_value_text`).
pub fn value_text(value: &Value) -> (r: Option<String>)
    ensures
        match r {
            Some(text) => spec_value_text(*value) == Some(text@),
            None => spec_value_text(*value) is None,
        },
{
    match value {
        Value::Nil => Some(String::from_str("nil")),
        Value::Bool(b) => Some(String::from_str(if *b { "true" } else { "false" })),
        Value::Num(literal) => num_literal_text(literal),
        Value::Str(text) => Some(String::from_str(text.as_str())),
        Value::Unicode(c) => {
            let digits = upper_hex_string(*c);
            let mut s = String::from_str("U+");
            let n = digits.unicode_len();
            let mut k: usize = n;
            while k < 4
                invariant
                    n == digits@.len(),
                    n <= k <= 4 || (k == n && n > 4),
                    s@ == "U+"@ + Seq::new((k - n) as nat, |i: int| '0'),
                decreases 4 - k,
            {
                s.append("0");
                proof {
                    reveal_strlit("0");
                    assert(s@ =~= "U+"@ + Seq::new((k + 1 - n) as nat, |i: int| '0'));
                }
                k = k + 1;
            }
            s.append(digits.as_str());
            proof {
                if n < 4 {
                    assert(s@ =~= "U+"@ + padded_four(digits@));
                } else {
                    assert(s@ =~= "U+"@ + padded_four(digits@));
                }
            }
            Some(s)
        },
    }
}

} // verus!
