//! The VarInt: a 32-bit integer written in one to five bytes, seven bits per
//! byte, least significant group first, with the high bit of every byte but
//! the last set.

use crate::errors::MinecraftProtocolError;
use crate::wire::i32_bits;
use vstd::prelude::*;

verus! {

/// The bits of a byte that carry data.
pub const SEGMENT_BITS: u8 = 0x7f;

/// The bit of a byte that says another byte follows.
pub const CONTINUE_BIT: u8 = 0x80;

/// The VarInt encoding of the 32-bit pattern `u`: its low seven bits, with
/// the continuation bit set if anything is left, then the encoding of the rest.
pub open spec fn varint_encode(u: nat) -> Seq<u8>
    decreases u,
{
    if u < 128 {
        seq![u as u8]
    } else {
        seq![(u % 128 + 128) as u8] + varint_encode(u / 128)
    }
}

/// The number that the bytes `b` stand for as base-128 digits, least
/// significant first, with each byte's continuation bit ignored.
pub open spec fn varint_value(b: Seq<u8>) -> int
    decreases b.len(),
{
    if b.len() == 0 {
        0
    } else {
        (b[0] % 128) as int + 128 * varint_value(b.drop_first())
    }
}

/// One more than the index of the first byte of `b`, from index `i` on, whose
/// continuation bit is clear, if that byte is among the first five.
pub open spec fn varint_len_from(b: Seq<u8>, i: nat) -> Option<nat>
    decreases 5 - i,
{
    if i >= 5 || i >= b.len() {
        None
    } else if b[i as int] < 128 {
        Some(i + 1)
    } else {
        varint_len_from(b, i + 1)
    }
}

/// The length of the VarInt at the start of `b`, if one ends within five bytes.
pub open spec fn varint_len(b: Seq<u8>) -> Option<nat> {
    varint_len_from(b, 0)
}

/// The value of a 32-bit two's complement pattern, taken modulo 2^32.
pub open spec fn wrap_i32(x: int) -> i32 {
    #[verifier::truncate] ((x % 0x1_0000_0000) as u32 as i32)
}

/// The VarInt at the start of `b` and the number of bytes it takes; an error
/// where the first five bytes (or all of `b`, if shorter) carry the
/// continuation bit.
pub open spec fn varint_decode(b: Seq<u8>) -> Result<(i32, nat), MinecraftProtocolError> {
    match varint_len(b) {
        Some(n) => Ok((wrap_i32(varint_value(b.take(n as int))), n)),
        None => Err(MinecraftProtocolError::InvalidVarInt),
    }
}

/// Whether `b` is the start of a VarInt that needs more bytes: it is shorter
/// than five bytes and every byte of it carries the continuation bit.
pub open spec fn varint_incomplete_spec(b: Seq<u8>) -> bool {
    b.len() < 5 && forall|i: int| 0 <= i < b.len() ==> b[i] >= 128
}

/// A VarInt, held as its bytes.
pub struct VarInt {
    bytes: Vec<u8>,
}

impl View for VarInt {
    type V = Seq<u8>;

    closed spec fn view(&self) -> Seq<u8> {
        self.bytes@
    }
}

proof fn lemma_low_bits(u: u32)
    ensures
        (u & 0x7f) as int == u as int % 128,
        (u >> 7u32) as int == u as int / 128,
        ((u & 0x7f) | 0x80) as int == u as int % 128 + 128,
{
    assert((u & 0x7f) == u % 128) by (bit_vector);
    assert((u >> 7u32) == u / 128) by (bit_vector);
    assert(((u & 0x7f) | 0x80) == (u % 128) + 128) by (bit_vector);
}

proof fn lemma_continue_bit(x: u8)
    ensures
        (x & 0x80 == 0) == (x < 128),
{
    assert((x & 0x80 == 0) == (x < 128)) by (bit_vector);
}

proof fn lemma_shift_in(x: u8, v: u32)
    ensures
        (((x & 0x7f) as u32) | (v << 7u32)) as int == ((x % 128) as int + 128 * v) % 0x1_0000_0000,
{
    assert((((x & 0x7f) as u32) | (v << 7u32)) as u64 == ((x % 128) as u64 + 128 * (v as u64))
        % 0x1_0000_0000) by (bit_vector);
}

/// Appending bytes past the end of a VarInt does not change where it ends.
proof fn lemma_len_from_prefix(b: Seq<u8>, c: Seq<u8>, i: nat)
    requires
        varint_len_from(b, i) is Some,
    ensures
        varint_len_from(b + c, i) == varint_len_from(b, i),
    decreases 5 - i,
{
    if i < 5 && i < b.len() && b[i as int] >= 128 {
        lemma_len_from_prefix(b, c, i + 1);
    }
}

/// A run of continuation bytes closed by one without, within five bytes, is
/// where a VarInt ends.
proof fn lemma_len_from_shape(b: Seq<u8>, i: nat, n: nat)
    requires
        i < n <= 5,
        n <= b.len(),
        forall|k: int| i <= k < n - 1 ==> b[k] >= 128,
        b[n - 1] < 128,
    ensures
        varint_len_from(b, i) == Some(n),
    decreases n - i,
{
    if i + 1 < n {
        lemma_len_from_shape(b, i + 1, n);
    }
}

/// 128 to the power `n`.
pub open spec fn pow128(n: nat) -> nat
    decreases n,
{
    if n == 0 {
        1
    } else {
        128 * pow128((n - 1) as nat)
    }
}

/// The encoding of `u` has every byte but the last marked as continued, reads
/// back as `u`, and takes no more bytes than the powers of 128 up to `u`.
proof fn lemma_encode_shape(u: nat, m: nat)
    requires
        u < pow128(m),
        m >= 1,
    ensures
        1 <= varint_encode(u).len() <= m,
        forall|k: int| 0 <= k < varint_encode(u).len() - 1 ==> varint_encode(u)[k] >= 128,
        varint_encode(u).last() < 128,
        varint_value(varint_encode(u)) == u,
    decreases u,
{
    let e = varint_encode(u);
    if u < 128 {
        assert(e.drop_first() =~= Seq::<u8>::empty());
        assert(varint_value(e.drop_first()) == 0);
    } else {
        let rest = varint_encode(u / 128);
        assert(m >= 2) by {
            if m == 1 {
                assert(pow128(1) == 128 * pow128(0));
            }
        }
        assert(u / 128 < pow128((m - 1) as nat));
        lemma_encode_shape(u / 128, (m - 1) as nat);
        assert(e.drop_first() =~= rest);
        assert(e[0] == (u % 128 + 128) as u8);
        assert(e[0] % 128 == u % 128);
        assert(u == u % 128 + 128 * (u / 128));
    }
}

/// The encoding of a 32-bit pattern is a VarInt of at most five bytes that
/// decodes to it, whatever follows it.
pub proof fn lemma_encode_decode(u: u32, rest: Seq<u8>)
    ensures
        1 <= varint_encode(u as nat).len() <= 5,
        varint_decode(varint_encode(u as nat) + rest) == Ok::<(i32, nat), MinecraftProtocolError>(
            (u as i32, varint_encode(u as nat).len()),
        ),
{
    let e = varint_encode(u as nat);
    reveal_with_fuel(pow128, 6);
    assert(pow128(5) == 34359738368nat);
    lemma_encode_shape(u as nat, 5);
    lemma_len_from_shape(e, 0, e.len());
    lemma_len_from_prefix(e, rest, 0);
    assert((e + rest).take(e.len() as int) =~= e);
    assert((u as int) % 0x1_0000_0000 == u as int);
}

/// Every `i32` survives encoding and decoding: the encoding takes one to five
/// bytes and decodes back to the same value.
pub proof fn lemma_varint_round_trip(v: i32)
    ensures
        1 <= varint_encode(i32_bits(v) as nat).len() <= 5,
        varint_decode(varint_encode(i32_bits(v) as nat)) == Ok::<(i32, nat), MinecraftProtocolError>(
            (v, varint_encode(i32_bits(v) as nat).len()),
        ),
{
    let u = i32_bits(v);
    lemma_encode_decode(u, Seq::empty());
    assert(varint_encode(u as nat) + Seq::<u8>::empty() =~= varint_encode(u as nat));
    assert((#[verifier::truncate] (v as u32)) as i32 == v) by (bit_vector);
}

/// Any bytes whose first five all carry the continuation bit are rejected as
/// a VarInt, whatever follows them.
pub proof fn lemma_overlong_rejected(b: Seq<u8>)
    requires
        b.len() >= 5,
        forall|i: int| 0 <= i < 5 ==> b[i] >= 128,
    ensures
        varint_decode(b) == Err::<(i32, nat), MinecraftProtocolError>(
            MinecraftProtocolError::InvalidVarInt,
        ),
{
    assert(varint_len_from(b, 5) is None);
    assert(varint_len_from(b, 4) is None);
    assert(varint_len_from(b, 3) is None);
    assert(varint_len_from(b, 2) is None);
    assert(varint_len_from(b, 1) is None);
}

proof fn lemma_incomplete_no_len(b: Seq<u8>, i: nat)
    requires
        varint_incomplete_spec(b),
    ensures
        varint_len_from(b, i) is None,
    decreases 5 - i,
{
    if i < 5 && i < b.len() {
        lemma_incomplete_no_len(b, i + 1);
    }
}

/// Bytes that still need more to form a VarInt do not decode: a reader must
/// wait for the byte that ends it.
pub proof fn lemma_incomplete_not_decoded(b: Seq<u8>)
    requires
        varint_incomplete_spec(b),
    ensures
        varint_decode(b) is Err,
{
    lemma_incomplete_no_len(b, 0);
}

/// Decodes the VarInt at the start of `data`, giving its value and the number
/// of bytes it takes.
pub fn decode_varint(data: &[u8]) -> (r: Result<(i32, usize), MinecraftProtocolError>)
    ensures
        match (r, varint_decode(data@)) {
            (Ok((v, n)), Ok((w, m))) => v == w && n == m && 1 <= n <= 5 && n <= data@.len(),
            (Err(e), Err(f)) => e == f,
            _ => false,
        },
{
    // find the byte that ends the VarInt
    let mut n: usize = 0;
    loop
        invariant
            n <= 5,
            n <= data@.len(),
            varint_len(data@) == varint_len_from(data@, n as nat),
        ensures
            n < 5,
            n < data@.len(),
            data@[n as int] < 128,
            varint_len(data@) == varint_len_from(data@, n as nat),
        decreases 5 - n,
    {
        if n >= 5 || n >= data.len() {
            return Err(MinecraftProtocolError::InvalidVarInt);
        }
        proof {
            lemma_continue_bit(data[n as int]);
        }
        if data[n] & CONTINUE_BIT == 0 {
            break;
        }
        n = n + 1;
    }
    n = n + 1;
    assert(varint_len(data@) == Some(n as nat));
    // fold the groups in from the most significant one
    let ghost b = data@.take(n as int);
    let mut value: u32 = 0;
    let mut i: usize = n;
    while i > 0
        invariant
            i <= n <= data@.len(),
            b == data@.take(n as int),
            value as int == varint_value(b.subrange(i as int, n as int)) % 0x1_0000_0000,
        decreases i,
    {
        i = i - 1;
        let byte = data[i];
        proof {
            lemma_shift_in(byte, value);
            let s = b.subrange(i as int, n as int);
            assert(s.drop_first() =~= b.subrange(i + 1, n as int));
            assert(s[0] == byte);
            let vr = varint_value(s.drop_first());
            vstd::arithmetic::div_mod::lemma_mul_mod_noop_right(128, vr, 0x1_0000_0000);
            vstd::arithmetic::div_mod::lemma_add_mod_noop((byte % 128) as int, 128 * vr, 0x1_0000_0000);
            vstd::arithmetic::div_mod::lemma_add_mod_noop(
                (byte % 128) as int,
                128 * (vr % 0x1_0000_0000),
                0x1_0000_0000,
            );
            vstd::arithmetic::div_mod::lemma_mod_twice(128 * vr, 0x1_0000_0000);
            vstd::arithmetic::div_mod::lemma_mod_twice(128 * (vr % 0x1_0000_0000), 0x1_0000_0000);
        }
        value = ((byte & SEGMENT_BITS) as u32) | (value << 7u32);
    }
    assert(b.subrange(0, n as int) =~= b);
    Ok((#[verifier::truncate] (value as i32), n))
}

/// Whether `data` is the start of a VarInt that needs more bytes: shorter
/// than five bytes, each with the continuation bit set.
pub fn varint_incomplete(data: &[u8]) -> (r: bool)
    ensures
        r == varint_incomplete_spec(data@),
{
    if data.len() >= 5 {
        return false;
    }
    let mut i: usize = 0;
    while i < data.len()
        invariant
            i <= data@.len() < 5,
            forall|k: int| 0 <= k < i ==> data@[k] >= 128,
        decreases data.len() - i,
    {
        if data[i] & CONTINUE_BIT == 0 {
            proof {
                lemma_continue_bit(data[i as int]);
            }
            return false;
        }
        proof {
            lemma_continue_bit(data[i as int]);
        }
        i = i + 1;
    }
    true
}

impl VarInt {
    /// A VarInt held as the given bytes.
    pub fn new(bytes: Vec<u8>) -> (r: Self)
        ensures
            r@ == bytes@,
    {
        VarInt { bytes }
    }

    /// The bytes of this VarInt.
    pub fn bytes(&self) -> (r: Vec<u8>)
        ensures
            r@ == self@,
    {
        self.bytes.clone()
    }

    /// The number of bytes of this VarInt.
    pub fn len(&self) -> (r: usize)
        ensures
            r == self@.len(),
    {
        self.bytes.len()
    }

    /// The encoding of `value`, whose bits are taken as an unsigned pattern.
    pub fn from(value: i32) -> (r: Self)
        ensures
            r@ == varint_encode(i32_bits(value) as nat),
            1 <= r@.len() <= 5,
    {
        let mut value: u32 = #[verifier::truncate] (value as u32);
        let ghost target = varint_encode(value as nat);
        let mut buffer: Vec<u8> = Vec::new();
        proof {
            reveal_with_fuel(pow128, 6);
            lemma_encode_shape(value as nat, 5);
        }
        loop
            invariant_except_break
                buffer@ + varint_encode(value as nat) == target,
            ensures
                buffer@ == target,
            decreases value,
        {
            proof {
                lemma_low_bits(value);
            }
            let temp = (value & (SEGMENT_BITS as u32)) as u8;
            value = value >> 7u32;
            if value != 0 {
                buffer.push(temp | CONTINUE_BIT);
                assert(buffer@ + varint_encode(value as nat) =~= target);
            } else {
                buffer.push(temp);
                assert(buffer@ =~= target);
                break;
            }
        }
        VarInt { bytes: buffer }
    }

    /// The value of this VarInt; an error where its first five bytes (or all
    /// of them, if fewer) carry the continuation bit.
    pub fn try_into(self) -> (r: Result<i32, MinecraftProtocolError>)
        ensures
            match (r, varint_decode(self@)) {
                (Ok(v), Ok((w, _))) => v == w,
                (Err(e), Err(f)) => e == f,
                _ => false,
            },
    {
        match decode_varint(self.bytes.as_slice()) {
            Ok((v, _)) => Ok(v),
            Err(e) => Err(e),
        }
    }
}

} // verus!
