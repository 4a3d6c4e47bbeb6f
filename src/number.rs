//! Unsigned decimal integers.
use vstd::prelude::*;
use vstd::string::*;
use crate::error::IntError;

verus! {

pub open spec fn is_digit(c: char) -> bool {
    48 <= (c as u32) && (c as u32) <= 57
}

/// The value of a string of decimal digits.
pub open spec fn digits_value(s: Seq<char>) -> nat
    decreases s.len(),
{
    if s.len() == 0 {
        0
    } else {
        digits_value(s.drop_last()) * 10 + ((s.last() as u32) - 48) as nat
    }
}

pub open spec fn all_digits(s: Seq<char>) -> bool {
    forall|i: int| 0 <= i < s.len() ==> is_digit(#[trigger] s[i])
}

/// `s` without one leading `+`.
pub open spec fn unsigned_digits(s: Seq<char>) -> Seq<char> {
    if s.len() > 0 && s[0] == '+' {
        s.drop_first()
    } else {
        s
    }
}

/// The unsigned integer that `s` writes, if it is at most `max`: an optional
/// `+` followed by one or more decimal digits.
pub open spec fn unsigned_value(s: Seq<char>, max: nat) -> Result<nat, IntError> {
    let d = unsigned_digits(s);
    if s.len() == 0 {
        Err(IntError::Empty)
    } else if d.len() == 0 || !all_digits(d) {
        Err(IntError::InvalidDigit)
    } else if digits_value(d) > max {
        Err(IntError::Overflow)
    } else {
        Ok(digits_value(d))
    }
}

proof fn lemma_value_grows(s: Seq<char>, k: int)
    requires
        0 <= k <= s.len(),
    ensures
        digits_value(s.take(k)) <= digits_value(s),
    decreases s.len(),
{
    if k < s.len() {
        assert(s.drop_last().take(k) =~= s.take(k));
        lemma_value_grows(s.drop_last(), k);
    } else {
        assert(s.take(k) =~= s);
    }
}

/// Whether the characters of `s` from `first` on are all decimal digits.
fn digits_from(s: &str, first: usize) -> (r: bool)
    requires
        first <= s@.len(),
    ensures
        r == all_digits(s@.subrange(first as int, s@.len() as int)),
{
    let n = s.unicode_len();
    let ghost d = s@.subrange(first as int, n as int);
    let mut i: usize = first;
    while i < n
        invariant
            n == s@.len(),
            first <= i <= n,
            d == s@.subrange(first as int, n as int),
            forall|k: int| 0 <= k < i - first ==> is_digit(#[trigger] d[k]),
        decreases n - i,
    {
        let u = s.get_char(i) as u32;
        if u < 48 || u > 57 {
            proof {
                assert(!is_digit(d[i - first]));
            }
            return false;
        }
        i = i + 1;
    }
    true
}

/// The value of the digits of `s` from `first` on, or `None` where it exceeds `max`.
fn bounded_value(s: &str, first: usize, max: u32) -> (r: Option<u32>)
    requires
        first <= s@.len(),
        all_digits(s@.subrange(first as int, s@.len() as int)),
    ensures
        match r {
            Some(v) => v as nat == digits_value(s@.subrange(first as int, s@.len() as int))
                && v <= max,
            None => digits_value(s@.subrange(first as int, s@.len() as int)) > max,
        },
{
    let n = s.unicode_len();
    let ghost d = s@.subrange(first as int, n as int);
    let mut acc: u64 = 0;
    let mut j: usize = first;
    while j < n
        invariant
            n == s@.len(),
            first <= j <= n,
            d == s@.subrange(first as int, n as int),
            all_digits(d),
            acc as nat == digits_value(d.take(j - first)),
            acc <= max,
        decreases n - j,
    {
        let c = s.get_char(j);
        proof {
            assert(d.take(j + 1 - first).drop_last() =~= d.take(j - first));
            assert(is_digit(d[j - first]));
            assert(d.take(j + 1 - first).last() == c);
        }
        acc = acc * 10 + ((c as u32) - 48) as u64;
        if acc > max as u64 {
            proof {
                lemma_value_grows(d, j + 1 - first);
            }
            return None;
        }
        j = j + 1;
    }
    proof {
        assert(d.take(n - first) =~= d);
    }
    Some(acc as u32)
}

/// Reads `s` as an unsigned decimal integer no larger than `max`.
pub fn parse_unsigned(s: &str, max: u32) -> (r: Result<u32, IntError>)
    ensures
        match unsigned_value(s@, max as nat) {
            Ok(v) => r == Ok::<u32, IntError>(v as u32),
            Err(e) => r == Err::<u32, IntError>(e),
        },
{
    let n = s.unicode_len();
    if n == 0 {
        return Err(IntError::Empty);
    }
    let first: usize = if s.get_char(0) == '+' { 1 } else { 0 };
    proof {
        assert(unsigned_digits(s@) =~= s@.subrange(first as int, n as int));
    }
    if first == n || !digits_from(s, first) {
        return Err(IntError::InvalidDigit);
    }
    match bounded_value(s, first, max) {
        Some(v) => Ok(v),
        None => Err(IntError::Overflow),
    }
}

} // verus!
