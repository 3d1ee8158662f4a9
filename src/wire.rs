//! Fixed-width integers, zero-terminated strings and UTF-8 text as they
//! appear on the wire.

use vstd::prelude::*;
use vstd::utf8::{decode_utf8, encode_utf8, valid_utf8};

verus! {

/// The four bytes of `u`, least significant first.
pub open spec fn u32_le(u: u32) -> Seq<u8> {
    seq![(u & 0xff) as u8, ((u >> 8u32) & 0xff) as u8, ((u >> 16u32) & 0xff) as u8, ((u >> 24u32) & 0xff) as u8]
}

/// The four bytes of `u`, most significant first.
pub open spec fn u32_be(u: u32) -> Seq<u8> {
    seq![((u >> 24u32) & 0xff) as u8, ((u >> 16u32) & 0xff) as u8, ((u >> 8u32) & 0xff) as u8, (u & 0xff) as u8]
}

/// The two bytes of `v`, most significant first.
pub open spec fn u16_be(v: u16) -> Seq<u8> {
    seq![((v >> 8u16) & 0xff) as u8, (v & 0xff) as u8]
}

/// The bits of `v` read as an unsigned number.
pub open spec fn i32_bits(v: i32) -> u32 {
    #[verifier::truncate] (v as u32)
}

/// The number whose bytes, least significant first, are `a`, `b`, `c`, `d`.
pub open spec fn u32_from_le(a: u8, b: u8, c: u8, d: u8) -> u32 {
    (a as u32) | ((b as u32) << 8u32) | ((c as u32) << 16u32) | ((d as u32) << 24u32)
}

/// The signed number whose two's complement bytes, least significant first,
/// are `a`, `b`, `c`, `d`.
pub open spec fn i32_from_le(a: u8, b: u8, c: u8, d: u8) -> i32 {
    #[verifier::truncate] (u32_from_le(a, b, c, d) as i32)
}

/// The byte of `d` at `i`, or zero past its end.
pub open spec fn byte_at(d: Seq<u8>, i: int) -> u8 {
    if 0 <= i < d.len() {
        d[i]
    } else {
        0
    }
}

/// The index of the first zero byte of `d` at or after `p`, or the length of
/// `d` if there is none.
pub open spec fn cstr_end(d: Seq<u8>, p: int) -> int
    decreases d.len() - p,
{
    if p < 0 || p >= d.len() || d[p] == 0 {
        p
    } else {
        cstr_end(d, p + 1)
    }
}

/// The bytes of the zero-terminated string that starts at `p`, without the
/// terminator; empty at or past the end of `d`.
pub open spec fn cstr_at(d: Seq<u8>, p: int) -> Seq<u8> {
    if 0 <= p < d.len() {
        d.subrange(p, cstr_end(d, p))
    } else {
        Seq::empty()
    }
}

/// The text of the bytes `b`, where they are valid UTF-8.
pub open spec fn utf8_text(b: Seq<u8>) -> Option<Seq<char>> {
    if valid_utf8(b) {
        Some(decode_utf8(b))
    } else {
        None
    }
}

/// A string starting at `p` ends at or after `p`, within `d` if it starts
/// within it, with no zero byte before its end and a zero byte at it.
pub proof fn lemma_cstr_end_bounds(d: Seq<u8>, p: int)
    requires
        0 <= p,
    ensures
        p <= cstr_end(d, p),
        p < d.len() ==> cstr_end(d, p) <= d.len(),
        p >= d.len() ==> cstr_end(d, p) == p,
        forall|k: int| p <= k < cstr_end(d, p) ==> d[k] != 0,
        cstr_end(d, p) < d.len() ==> d[cstr_end(d, p)] == 0,
    decreases d.len() - p,
{
    if p < d.len() && d[p] != 0 {
        lemma_cstr_end_bounds(d, p + 1);
    }
}

/// Appends the four bytes of `u`, most significant first.
pub fn push_u32_be(buf: &mut Vec<u8>, u: u32)
    ensures
        final(buf)@ == old(buf)@ + u32_be(u),
{
    buf.push(((u >> 24u32) & 0xff) as u8);
    buf.push(((u >> 16u32) & 0xff) as u8);
    buf.push(((u >> 8u32) & 0xff) as u8);
    buf.push((u & 0xff) as u8);
    assert(buf@ =~= old(buf)@ + u32_be(u));
}

/// Appends the four bytes of `u`, least significant first.
pub fn push_u32_le(buf: &mut Vec<u8>, u: u32)
    ensures
        final(buf)@ == old(buf)@ + u32_le(u),
{
    buf.push((u & 0xff) as u8);
    buf.push(((u >> 8u32) & 0xff) as u8);
    buf.push(((u >> 16u32) & 0xff) as u8);
    buf.push(((u >> 24u32) & 0xff) as u8);
    assert(buf@ =~= old(buf)@ + u32_le(u));
}

/// Appends the two bytes of `v`, most significant first.
pub fn push_u16_be(buf: &mut Vec<u8>, v: u16)
    ensures
        final(buf)@ == old(buf)@ + u16_be(v),
{
    buf.push(((v >> 8u16) & 0xff) as u8);
    buf.push((v & 0xff) as u8);
    assert(buf@ =~= old(buf)@ + u16_be(v));
}

/// Appends all of `src`.
pub fn push_all(buf: &mut Vec<u8>, src: &[u8])
    ensures
        final(buf)@ == old(buf)@ + src@,
{
    let mut i: usize = 0;
    while i < src.len()
        invariant
            i <= src@.len(),
            buf@ == old(buf)@ + src@.take(i as int),
        decreases src.len() - i,
    {
        buf.push(src[i]);
        i = i + 1;
        assert(buf@ =~= old(buf)@ + src@.take(i as int));
    }
    assert(src@.take(i as int) =~= src@);
}

/// The byte of `d` at `i`, or zero past its end.
pub fn byte_or_zero(d: &[u8], i: usize) -> (r: u8)
    ensures
        r == byte_at(d@, i as int),
{
    if i < d.len() {
        d[i]
    } else {
        0
    }
}

/// The index of the first zero byte of `d` at or after `p`, or the length of
/// `d` if there is none.
pub fn find_zero(d: &[u8], p: usize) -> (r: usize)
    ensures
        r == cstr_end(d@, p as int),
{
    if p >= d.len() {
        return p;
    }
    let mut i: usize = p;
    while i < d.len() && d[i] != 0
        invariant
            p <= i <= d@.len(),
            cstr_end(d@, p as int) == cstr_end(d@, i as int),
        decreases d.len() - i,
    {
        i = i + 1;
    }
    i
}

/// The bytes of `d` from `from` up to `to`.
pub fn slice_to_vec(d: &[u8], from: usize, to: usize) -> (r: Vec<u8>)
    requires
        from <= to <= d@.len(),
    ensures
        r@ == d@.subrange(from as int, to as int),
{
    let mut out: Vec<u8> = Vec::new();
    let mut i: usize = from;
    while i < to
        invariant
            from <= i <= to <= d@.len(),
            out@ == d@.subrange(from as int, i as int),
        decreases to - i,
    {
        out.push(d[i]);
        i = i + 1;
        assert(out@ =~= d@.subrange(from as int, i as int));
    }
    out
}

/// The zero-terminated string at `p` and the position just past its
/// terminator.
pub fn read_cstr(d: &[u8], p: usize) -> (r: (Vec<u8>, usize))
    requires
        p < usize::MAX,
        d@.len() < usize::MAX,
    ensures
        r.0@ == cstr_at(d@, p as int),
        r.1 == cstr_end(d@, p as int) + 1,
{
    proof {
        lemma_cstr_end_bounds(d@, p as int);
    }
    let end = find_zero(d, p);
    if p >= d.len() {
        return (Vec::new(), p + 1);
    }
    (slice_to_vec(d, p, end), end + 1)
}

/// Relies on `String::from_utf8`: it succeeds exactly on valid UTF-8, and
/// the string then holds the text those bytes encode.
#[verifier::external_body]
pub fn utf8_string(bytes: Vec<u8>) -> (r: Option<String>)
    ensures
        match r {
            Some(s) => utf8_text(bytes@) == Some(s@),
            None => utf8_text(bytes@) is None,
        },
{
    String::from_utf8(bytes).ok()
}

/// Whether two strings hold the same text, compared by their UTF-8 bytes.
pub fn same_text(a: &str, b: &str) -> (r: bool)
    ensures
        r == (a@ == b@),
{
    let x = a.as_bytes();
    let y = b.as_bytes();
    proof {
        vstd::utf8::encode_utf8_decode_utf8(a@);
        vstd::utf8::encode_utf8_decode_utf8(b@);
    }
    if x.len() != y.len() {
        return false;
    }
    let mut i: usize = 0;
    while i < x.len()
        invariant
            x@ == encode_utf8(a@),
            y@ == encode_utf8(b@),
            decode_utf8(x@) == a@,
            decode_utf8(y@) == b@,
            x@.len() == y@.len(),
            i <= x@.len(),
            forall|k: int| 0 <= k < i ==> x@[k] == y@[k],
        decreases x.len() - i,
    {
        if x[i] != y[i] {
            assert(x@ != y@);
            return false;
        }
        i = i + 1;
    }
    assert(x@ =~= y@);
    true
}

/// Relies on `String::push`: the character is appended at the end.
#[verifier::external_body]
pub fn push_char(s: &mut String, c: char)
    ensures
        final(s)@ == old(s)@.push(c),
{
    s.push(c);
}

/// The `u32` whose bytes, least significant first, start at `p` in `d`.
pub fn read_u32_le(d: &[u8], p: usize) -> (r: u32)
    requires
        p + 4 <= d@.len(),
    ensures
        r == u32_from_le(d@[p as int], d@[p + 1], d@[p + 2], d@[p + 3]),
{
    (d[p] as u32) | ((d[p + 1] as u32) << 8u32) | ((d[p + 2] as u32) << 16u32) | ((d[p + 3] as u32)
        << 24u32)
}

/// The bytes of `u`, least significant first, read back as `u`.
pub proof fn lemma_u32_le_round_trip(u: u32)
    ensures
        u32_from_le(u32_le(u)[0], u32_le(u)[1], u32_le(u)[2], u32_le(u)[3]) == u,
{
    assert(((u & 0xff) as u8 as u32) | ((((u >> 8u32) & 0xff) as u8 as u32) << 8u32) | ((((u >> 16u32)
        & 0xff) as u8 as u32) << 16u32) | ((((u >> 24u32) & 0xff) as u8 as u32) << 24u32) == u)
        by (bit_vector);
}

} // verus!
