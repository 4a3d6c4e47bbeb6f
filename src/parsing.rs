//! Extraction of typed fields from 1-based, inclusive column ranges of a line.
use vstd::prelude::*;
use vstd::string::*;
use crate::error::{ErrorView, ParseError};
use crate::number::{parse_unsigned, unsigned_value};
use crate::text::{trim, trimmed};

verus! {

/// The characters of `line` at 0-based positions `start` up to `end`,
/// with both ends clamped to the length of the line.
pub open spec fn safe_slice(line: Seq<char>, start: int, end: int) -> Seq<char> {
    let n = line.len() as int;
    let s = if start < n { start } else { n };
    let e = if end < n { end } else { n };
    line.subrange(s, e)
}

/// The trimmed text of columns `start` to `end` (1-based, inclusive).
pub open spec fn field(line: Seq<char>, start: int, end: int) -> Seq<char> {
    trim(safe_slice(line, start - 1, end))
}

/// The character in column `pos`, unless it is blank or past the end of the line.
pub open spec fn opt_char(line: Seq<char>, pos: int) -> Option<char> {
    if pos <= line.len() && line[pos - 1] != ' ' {
        Some(line[pos - 1])
    } else {
        None
    }
}

/// The result of a fallible extraction, with the error seen through its view.
pub open spec fn result_view<T>(r: Result<T, ParseError>) -> Result<T, ErrorView> {
    match r {
        Ok(v) => Ok(v),
        Err(e) => Err(e@),
    }
}

/// An unsigned integer no larger than `max` read from `text`.
pub open spec fn bounded_int(text: Seq<char>, max: nat) -> Result<nat, ErrorView> {
    match unsigned_value(text, max) {
        Ok(v) => Ok(v),
        Err(e) => Err(ErrorView::InvalidInt(e)),
    }
}

/// The `u32` in columns `start` to `end`.
pub open spec fn int_field(line: Seq<char>, start: int, end: int) -> Result<u32, ErrorView> {
    match bounded_int(field(line, start, end), u32::MAX as nat) {
        Ok(v) => Ok(v as u32),
        Err(e) => Err(e),
    }
}

/// The part of a charge field before its sign column.
pub open spec fn charge_digits(line: Seq<char>, start: int, end: int) -> Seq<char> {
    safe_slice(line, start - 1, end - 1)
}

/// The formal charge of a line: its magnitude stands before the sign column,
/// and its sign is the last character of the whole line.
pub open spec fn charge_value(line: Seq<char>, start: int, end: int) -> Result<i8, ErrorView> {
    let digits = charge_digits(line, start, end);
    let sign = line.last();
    if sign == ' ' {
        Ok(0)
    } else if sign == '+' || sign == '-' {
        match bounded_int(trim(digits), 127) {
            Ok(v) => if sign == '+' {
                Ok(v as i8)
            } else {
                Ok((-v) as i8)
            },
            Err(e) => Err(e),
        }
    } else {
        Err(ErrorView::InvalidCharge(digits))
    }
}

/// The charge of a line is signed by its last character: a space gives 0;
/// `+` or `-` give the magnitude written before the sign column, with that
/// sign; any other character is an invalid charge holding the charge field.
pub proof fn charge_sign(line: Seq<char>, start: int, end: int)
    requires
        line.len() > 0,
    ensures
        line.last() == ' ' ==> charge_value(line, start, end) == Ok::<i8, ErrorView>(0),
        line.last() == '+' && bounded_int(trim(charge_digits(line, start, end)), 127) is Ok
            ==> charge_value(line, start, end) == Ok::<i8, ErrorView>(
            bounded_int(trim(charge_digits(line, start, end)), 127)->Ok_0 as i8,
        ),
        line.last() == '-' && bounded_int(trim(charge_digits(line, start, end)), 127) is Ok
            ==> charge_value(line, start, end) == Ok::<i8, ErrorView>(
            (-bounded_int(trim(charge_digits(line, start, end)), 127)->Ok_0) as i8,
        ),
        line.last() != ' ' && line.last() != '+' && line.last() != '-' ==> charge_value(
            line,
            start,
            end,
        ) == Err::<i8, ErrorView>(ErrorView::InvalidCharge(charge_digits(line, start, end))),
{
}

/// The characters of `line` at 0-based positions `start` up to `end`; where
/// the line is shorter, whatever of that range it holds.
pub fn get_save_slice(line: &str, start: usize, end: usize) -> (r: &str)
    requires
        start <= end,
    ensures
        r@ == safe_slice(line@, start as int, end as int),
        end >= line@.len() ==> r@ == line@.subrange(
            if start < line@.len() { start as int } else { line@.len() as int },
            line@.len() as int,
        ),
{
    let n = line.unicode_len();
    let s = if start < n { start } else { n };
    if end >= n {
        line.substring_char(s, n)
    } else {
        line.substring_char(s, end)
    }
}

/// The trimmed text of columns `start` to `end`.
pub fn get_string(line: &str, start: usize, end: usize) -> (r: String)
    requires
        1 <= start <= end + 1,
    ensures
        r@ == field(line@, start as int, end as int),
{
    trimmed(get_save_slice(line, start - 1, end)).to_owned()
}

/// The trimmed text of columns `start` to `end`, or `None` where it is empty.
pub fn get_opt_string(line: &str, start: usize, end: usize) -> (r: Option<String>)
    requires
        1 <= start <= end + 1,
    ensures
        field(line@, start as int, end as int).len() == 0 ==> r is None,
        field(line@, start as int, end as int).len() > 0 ==> r is Some && r->0@ == field(
            line@,
            start as int,
            end as int,
        ),
{
    let s = get_string(line, start, end);
    if s.as_str().unicode_len() == 0 {
        None
    } else {
        Some(s)
    }
}

/// The character in column `pos`; `None` where it is a space or lies past
/// the end of the line.
pub fn get_opt_char(line: &str, pos: usize) -> (r: Option<char>)
    requires
        1 <= pos,
    ensures
        r == opt_char(line@, pos as int),
{
    if pos > line.unicode_len() {
        return None;
    }
    let c = line.get_char(pos - 1);
    if c == ' ' {
        None
    } else {
        Some(c)
    }
}

/// The unsigned 32-bit integer in columns `start` to `end`.
pub fn get_int(line: &str, start: usize, end: usize) -> (r: Result<u32, ParseError>)
    requires
        1 <= start <= end + 1,
    ensures
        result_view(r) == int_field(line@, start as int, end as int),
{
    let text = get_string(line, start, end);
    match parse_unsigned(text.as_str(), u32::MAX) {
        Ok(v) => Ok(v),
        Err(e) => Err(ParseError::InvalidInt(e)),
    }
}

/// The formal charge held by columns `start` to `end`, signed by the last
/// character of the line: a space gives 0, `+` and `-` sign the magnitude
/// written before the last column, anything else is an invalid charge.
pub fn get_charge(line: &str, start: usize, end: usize) -> (r: Result<i8, ParseError>)
    requires
        line@.len() > 0,
        1 <= start <= end,
    ensures
        result_view(r) == charge_value(line@, start as int, end as int),
{
    let n = line.unicode_len();
    let sign = line.get_char(n - 1);
    let digits = get_save_slice(line, start - 1, end - 1);
    if sign == ' ' {
        Ok(0)
    } else if sign == '+' || sign == '-' {
        match parse_unsigned(trimmed(digits), 127) {
            Ok(v) => {
                let m = v as i8;
                if sign == '+' {
                    Ok(m)
                } else {
                    Ok(-m)
                }
            },
            Err(e) => Err(ParseError::InvalidInt(e)),
        }
    } else {
        Err(ParseError::InvalidCharge(digits.to_owned()))
    }
}

} // verus!
