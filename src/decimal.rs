//! Decimal integers as text: an optional sign followed by one or more ASCII
//! digits, with no other characters, the grammar of Rust's `from_str` for
//! integers.

use vstd::prelude::*;

verus! {

/// Whether `c` is an ASCII digit.
pub open spec fn is_digit(c: u8) -> bool {
    48 <= c <= 57
}

/// Whether `s` is one or more ASCII digits.
pub open spec fn all_digits(s: Seq<u8>) -> bool {
    s.len() > 0 && forall|i: int| 0 <= i < s.len() ==> is_digit(#[trigger] s[i])
}

/// The number that the digits `s` write in base ten.
pub open spec fn digits_value(s: Seq<u8>) -> nat
    decreases s.len(),
{
    if s.len() == 0 {
        0
    } else {
        digits_value(s.drop_last()) * 10 + (s.last() - 48) as nat
    }
}

/// Whether `s` starts with a minus sign that a signed type accepts.
pub open spec fn negative(s: Seq<u8>, signed: bool) -> bool {
    signed && s.len() > 0 && s[0] == 45
}

/// The digits of `s` once a leading `+` (or, for a signed type, `-`) is
/// taken off.
pub open spec fn unsigned_part(s: Seq<u8>, signed: bool) -> Seq<u8> {
    if s.len() > 0 && (s[0] == 43 || negative(s, signed)) {
        s.drop_first()
    } else {
        s
    }
}

/// The value that `s` writes, for a type that is signed or not, and whose
/// values run from `min` to `max`; `None` where `s` is not a number of that
/// type.
pub open spec fn parse_int_spec(s: Seq<u8>, signed: bool, min: int, max: int) -> Option<int> {
    let body = unsigned_part(s, signed);
    if !all_digits(body) {
        None
    } else {
        let v: int = if negative(s, signed) {
            -digits_value(body)
        } else {
            digits_value(body) as int
        };
        if min <= v <= max {
            Some(v)
        } else {
            None
        }
    }
}

proof fn lemma_digits_prefix_le(s: Seq<u8>, k: int)
    requires
        0 <= k <= s.len(),
        forall|i: int| 0 <= i < s.len() ==> is_digit(#[trigger] s[i]),
    ensures
        digits_value(s.take(k)) <= digits_value(s),
    decreases s.len() - k,
{
    if k < s.len() {
        lemma_digits_prefix_le(s, k + 1);
        assert(s.take(k + 1).drop_last() =~= s.take(k));
        assert(digits_value(s.take(k + 1)) == digits_value(s.take(k)) * 10 + (s.take(k + 1).last()
            - 48) as nat);
    } else {
        assert(s.take(k) =~= s);
    }
}

/// The value of the digits of `s` from `start` on, if they are one or more
/// digits and their value is at most `limit`.
fn digits_up_to(s: &[u8], start: usize, limit: u64) -> (r: Option<u64>)
    requires
        start <= s@.len(),
    ensures
        match r {
            Some(v) => all_digits(s@.skip(start as int)) && v == digits_value(s@.skip(start as int))
                && v <= limit,
            None => !all_digits(s@.skip(start as int)) || digits_value(s@.skip(start as int))
                > limit,
        },
{
    let ghost body = s@.skip(start as int);
    if start >= s.len() {
        return None;
    }
    let mut acc: u64 = 0;
    let mut i: usize = start;
    while i < s.len()
        invariant
            start <= i <= s@.len(),
            body == s@.skip(start as int),
            forall|k: int| 0 <= k < i - start ==> is_digit(#[trigger] body[k]),
            acc == digits_value(body.take(i - start)),
            acc <= limit,
        decreases s.len() - i,
    {
        let c = s[i];
        if c < 48 || c > 57 {
            assert(!is_digit(body[i - start]));
            return None;
        }
        let d = (c - 48) as u64;
        assert(body.take(i + 1 - start).drop_last() =~= body.take(i - start));
        if d > limit || acc > (limit - d) / 10 {
            proof {
                assert(acc * 10 + d > limit) by (nonlinear_arith)
                    requires
                        d > limit || acc > (limit - d) / 10,
                        d <= limit ==> limit - d >= 0,
                ;
                if all_digits(body) {
                    lemma_digits_prefix_le(body, i + 1 - start);
                }
            }
            return None;
        }
        proof {
            assert(acc * 10 + d <= limit) by (nonlinear_arith)
                requires
                    acc <= (limit - d) / 10,
            ;
        }
        acc = acc * 10 + d;
        i = i + 1;
    }
    assert(body.take(i - start) =~= body);
    Some(acc)
}

/// Where the digits of `s` begin: past a leading `+`, or a leading `-` when
/// `signed`.
fn digits_start(s: &[u8], signed: bool) -> (r: usize)
    ensures
        r <= s@.len(),
        s@.skip(r as int) == unsigned_part(s@, signed),
        r == 1 <==> (s@.len() > 0 && (s@[0] == 43 || negative(s@, signed))),
        r == 0 || r == 1,
{
    if s.len() > 0 && (s[0] == 43 || (signed && s[0] == 45)) {
        assert(s@.skip(1) =~= s@.drop_first());
        1
    } else {
        assert(s@.skip(0) =~= s@);
        0
    }
}

/// The `i32` that `s` writes in decimal.
pub fn parse_i32(s: &[u8]) -> (r: Option<i32>)
    ensures
        match r {
            Some(v) => parse_int_spec(s@, true, i32::MIN as int, i32::MAX as int) == Some(v as int),
            None => parse_int_spec(s@, true, i32::MIN as int, i32::MAX as int) is None,
        },
{
    let start = digits_start(s, true);
    let neg = s.len() > 0 && s[0] == 45;
    let limit: u64 = if neg { 0x8000_0000 } else { 0x7fff_ffff };
    match digits_up_to(s, start, limit) {
        Some(v) => {
            if neg {
                Some((0 - (v as i64)) as i32)
            } else {
                Some(v as i32)
            }
        },
        None => None,
    }
}

/// The `usize` that `s` writes in decimal.
pub fn parse_usize(s: &[u8]) -> (r: Option<usize>)
    ensures
        match r {
            Some(v) => parse_int_spec(s@, false, 0, usize::MAX as int) == Some(v as int),
            None => parse_int_spec(s@, false, 0, usize::MAX as int) is None,
        },
{
    let start = digits_start(s, false);
    match digits_up_to(s, start, usize::MAX as u64) {
        Some(v) => Some(v as usize),
        None => None,
    }
}

/// The `u16` that `s` writes in decimal.
pub fn parse_u16(s: &[u8]) -> (r: Option<u16>)
    ensures
        match r {
            Some(v) => parse_int_spec(s@, false, 0, u16::MAX as int) == Some(v as int),
            None => parse_int_spec(s@, false, 0, u16::MAX as int) is None,
        },
{
    let start = digits_start(s, false);
    match digits_up_to(s, start, u16::MAX as u64) {
        Some(v) => Some(v as u16),
        None => None,
    }
}

} // verus!
