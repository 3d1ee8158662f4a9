//! RCON packets and their wire form.

use crate::errors::RconProtocolError;
use crate::rcon::MAX_LEN_CLIENTBOUND;
use crate::wire::{cstr_end, find_zero, i32_bits, i32_from_le, lemma_cstr_end_bounds, push_char, push_u32_le, read_u32_le, u32_le, lemma_u32_le_round_trip};
use vstd::prelude::*;
use vstd::string::StrSliceExecFns;

verus! {

/// Whether `c` may stand in an RCON payload: ASCII, or the section sign
/// (0xa7) that some servers put before their replies.
pub open spec fn payload_char_ok(c: char) -> bool {
    (c as u32) < 0x80 || (c as u32) == 0xa7
}

/// Whether every character of `p` may stand in an RCON payload.
pub open spec fn payload_ok(p: Seq<char>) -> bool {
    forall|i: int| 0 <= i < p.len() ==> payload_char_ok(#[trigger] p[i])
}

/// Whether `s` may be the payload of an RCON packet.
pub fn is_valid_payload(s: &str) -> (r: bool)
    ensures
        r == payload_ok(s@),
{
    let mut ok = true;
    for c in it: s.chars()
        invariant
            it.seq() == s@,
            ok == (forall|i: int| 0 <= i < it.index() ==> payload_char_ok(#[trigger] s@[i])),
    {
        let code = c as u32;
        if !(code < 0x80 || code == 0xa7) {
            ok = false;
        }
    }
    ok
}

/// The type of an RCON packet.
#[derive(Debug, Clone, Copy, PartialEq, Eq, Structural)]
pub enum RconPacketType {
    /// A reply to a command (code 0).
    Response,
    /// A login request (code 3).
    Login,
    /// A command, or the reply to a login (code 2).
    RunCommand,
}

/// The wire code of a packet type.
pub open spec fn rcon_type_code(t: RconPacketType) -> i32 {
    match t {
        RconPacketType::Response => 0,
        RconPacketType::RunCommand => 2,
        RconPacketType::Login => 3,
    }
}

/// The packet type that a wire code stands for.
pub open spec fn rcon_type_of(code: i32) -> Result<RconPacketType, RconProtocolError> {
    if code == 0 {
        Ok(RconPacketType::Response)
    } else if code == 2 {
        Ok(RconPacketType::RunCommand)
    } else if code == 3 {
        Ok(RconPacketType::Login)
    } else {
        Err(RconProtocolError::InvalidPacketType)
    }
}

impl RconPacketType {
    /// The wire code of this packet type.
    pub fn code(self) -> (r: i32)
        ensures
            r == rcon_type_code(self),
    {
        match self {
            RconPacketType::Response => 0,
            RconPacketType::RunCommand => 2,
            RconPacketType::Login => 3,
        }
    }

    /// The packet type that `value` stands for; `InvalidPacketType` for any
    /// other code.
    pub fn try_from(value: i32) -> (r: Result<RconPacketType, RconProtocolError>)
        ensures
            r == rcon_type_of(value),
    {
        if value == 0 {
            Ok(RconPacketType::Response)
        } else if value == 2 {
            Ok(RconPacketType::RunCommand)
        } else if value == 3 {
            Ok(RconPacketType::Login)
        } else {
            Err(RconProtocolError::InvalidPacketType)
        }
    }
}

/// One RCON message.
#[derive(Debug)]
pub struct RconPacket {
    /// The id that ties a reply to its request.
    pub request_id: i32,
    /// The kind of message.
    pub packet_type: RconPacketType,
    /// The text carried: ASCII, or the section sign.
    pub payload: String,
}

/// The length field of a packet with a payload of `n` bytes: the two `i32`
/// fields, the payload and two zero bytes.
pub open spec fn remaining_length(n: nat) -> int {
    n as int + 2 * 4 + 2
}

/// The byte that stands for a payload character on the wire.
pub open spec fn char_byte(c: char) -> u8 {
    #[verifier::truncate] ((c as u32) as u8)
}

/// The bytes of a payload on the wire, one per character.
pub open spec fn payload_bytes(p: Seq<char>) -> Seq<u8> {
    p.map_values(|c: char| char_byte(c))
}

/// The characters that payload bytes stand for, one per byte.
pub open spec fn payload_chars(b: Seq<u8>) -> Seq<char> {
    b.map_values(|x: u8| x as char)
}

/// Whether a payload byte is ASCII or the section sign.
pub open spec fn payload_byte_ok(x: u8) -> bool {
    x < 0x80 || x == 0xa7
}

/// The wire form of a packet: the remaining length, the request id and the
/// type code, each a little-endian `i32`, then the payload and two zero
/// bytes.
pub open spec fn rcon_encode(id: i32, t: RconPacketType, p: Seq<char>) -> Seq<u8> {
    u32_le(i32_bits(remaining_length(p.len()) as i32)) + u32_le(i32_bits(id)) + u32_le(
        i32_bits(rcon_type_code(t)),
    ) + payload_bytes(p) + seq![0u8, 0u8]
}

/// The packet that the bytes `b` hold, or why they are rejected: in order, a
/// missing terminator or padding byte, a length field that does not match
/// the payload, a payload longer than a server may send, a payload byte that
/// is neither ASCII nor 0xa7, an unknown type code.
pub open spec fn rcon_decode(b: Seq<u8>) -> Result<(i32, RconPacketType, Seq<char>), RconProtocolError> {
    let len = i32_from_le(b[0], b[1], b[2], b[3]);
    let id = i32_from_le(b[4], b[5], b[6], b[7]);
    let code = i32_from_le(b[8], b[9], b[10], b[11]);
    let end = cstr_end(b, 12);
    let payload = b.subrange(12, end);
    if b.len() < 12 || end + 1 >= b.len() || b[end + 1] != 0 {
        Err(RconProtocolError::InvalidRconResponse)
    } else if remaining_length(payload.len()) != len as int {
        Err(RconProtocolError::InvalidRconResponse)
    } else if payload.len() > MAX_LEN_CLIENTBOUND {
        Err(RconProtocolError::PayloadTooLong)
    } else if !(forall|i: int| 0 <= i < payload.len() ==> payload_byte_ok(#[trigger] payload[i])) {
        Err(RconProtocolError::NonAsciiPayload)
    } else {
        match rcon_type_of(code) {
            Err(e) => Err(e),
            Ok(t) => Ok((id, t, payload_chars(payload))),
        }
    }
}

/// The length field of a packet whose payload is `payload`.
pub fn get_remaining_length(payload: &str) -> (r: i32)
    requires
        remaining_length(payload@.len()) <= i32::MAX,
    ensures
        r == remaining_length(payload@.len()),
{
    let n = payload.unicode_len();
    (n + 2 * 4 + 2) as i32
}

impl RconPacket {
    /// A packet; `NonAsciiPayload` where the payload holds a character that
    /// is neither ASCII nor the section sign.
    pub fn new(request_id: i32, packet_type: RconPacketType, payload: String) -> (r: Result<
        Self,
        RconProtocolError,
    >)
        ensures
            match r {
                Ok(p) => payload_ok(payload@) && p.request_id == request_id && p.packet_type
                    == packet_type && p.payload@ == payload@,
                Err(e) => !payload_ok(payload@) && e == RconProtocolError::NonAsciiPayload,
            },
    {
        if !is_valid_payload(payload.as_str()) {
            return Err(RconProtocolError::NonAsciiPayload);
        }
        Ok(RconPacket { request_id, packet_type, payload })
    }

    /// The wire form of this packet.
    pub fn bytes(self) -> (r: Vec<u8>)
        requires
            payload_ok(self.payload@),
            remaining_length(self.payload@.len()) <= i32::MAX,
        ensures
            r@ == rcon_encode(self.request_id, self.packet_type, self.payload@),
    {
        let len = get_remaining_length(self.payload.as_str());
        let mut buf: Vec<u8> = Vec::new();
        push_u32_le(&mut buf, #[verifier::truncate] (len as u32));
        push_u32_le(&mut buf, #[verifier::truncate] (self.request_id as u32));
        push_u32_le(&mut buf, #[verifier::truncate] (self.packet_type.code() as u32));
        let ghost head = buf@;
        for c in it: self.payload.as_str().chars()
            invariant
                it.seq() == self.payload@,
                buf@ == head + payload_bytes(self.payload@.take(it.index() as int)),
        {
            assert(self.payload@.take(it.index() + 1).drop_last() =~= self.payload@.take(it.index() as int));
            buf.push(#[verifier::truncate] ((c as u32) as u8));
            assert(buf@ =~= head + payload_bytes(self.payload@.take(it.index() + 1)));
        }
        assert(self.payload@.take(self.payload@.len() as int) =~= self.payload@);
        buf.push(0);
        buf.push(0);
        assert(buf@ =~= rcon_encode(self.request_id, self.packet_type, self.payload@));
        buf
    }
}

impl RconPacket {
    /// The packet that the bytes `b` hold: its length field, request id and
    /// type code, then a zero-terminated payload and one zero byte of
    /// padding.
    pub fn try_from(b: &[u8]) -> (r: Result<RconPacket, RconProtocolError>)
        requires
            b@.len() < usize::MAX,
        ensures
            match r {
                Ok(p) => rcon_decode(b@) == Ok::<(i32, RconPacketType, Seq<char>), RconProtocolError>(
                    (p.request_id, p.packet_type, p.payload@),
                ),
                Err(e) => rcon_decode(b@) == Err::<(i32, RconPacketType, Seq<char>), RconProtocolError>(e),
            },
    {
        if b.len() < 12 {
            return Err(RconProtocolError::InvalidRconResponse);
        }
        let len = #[verifier::truncate] (read_u32_le(b, 0) as i32);
        let request_id = #[verifier::truncate] (read_u32_le(b, 4) as i32);
        let code = #[verifier::truncate] (read_u32_le(b, 8) as i32);
        let end = find_zero(b, 12);
        proof {
            lemma_cstr_end_bounds(b@, 12);
        }
        // a zero terminates the payload and one more zero pads the packet
        if end + 1 >= b.len() || b[end + 1] != 0 {
            return Err(RconProtocolError::InvalidRconResponse);
        }
        let n = end - 12;
        if len < 10 || (len - 10) as usize != n {
            return Err(RconProtocolError::InvalidRconResponse);
        }
        if n > MAX_LEN_CLIENTBOUND {
            return Err(RconProtocolError::PayloadTooLong);
        }
        let ghost raw = b@.subrange(12, end as int);
        let mut payload = String::new();
        let mut i: usize = 12;
        while i < end
            invariant
                12 <= i <= end < b@.len(),
                raw == b@.subrange(12, end as int),
                end == cstr_end(b@, 12),
                end + 1 < b@.len(),
                b@[end + 1] == 0,
                remaining_length(raw.len()) == len as int,
                raw.len() <= MAX_LEN_CLIENTBOUND,
                len == i32_from_le(b@[0], b@[1], b@[2], b@[3]),
                forall|k: int| 0 <= k < i - 12 ==> payload_byte_ok(#[trigger] raw[k]),
                payload@ == payload_chars(raw.take(i - 12)),
            decreases end - i,
        {
            let x = b[i];
            if !(x < 0x80 || x == 0xa7) {
                assert(!payload_byte_ok(raw[i - 12]));
                assert(!(forall|k: int| 0 <= k < raw.len() ==> payload_byte_ok(#[trigger] raw[k])));
                return Err(RconProtocolError::NonAsciiPayload);
            }
            push_char(&mut payload, x as char);
            assert(raw.take(i + 1 - 12) =~= raw.take(i - 12).push(x));
            assert(payload@ =~= payload_chars(raw.take(i + 1 - 12)));
            i = i + 1;
        }
        assert(raw.take(end - 12) =~= raw);
        let packet_type = RconPacketType::try_from(code)?;
        Ok(RconPacket { request_id, packet_type, payload })
    }
}

proof fn lemma_char_byte(c: char)
    requires
        payload_char_ok(c),
    ensures
        char_byte(c) as u32 == c as u32,
        char_byte(c) as char == c,
        payload_byte_ok(char_byte(c)),
{
    let x = c as u32;
    assert(x < 256 ==> (#[verifier::truncate] (x as u8)) as u32 == x) by (bit_vector);
    let b = char_byte(c);
    assert((b as char) as u32 == b as u32);
    vstd::utf8::char_u32_cast(c, x);
}

proof fn lemma_i32_bits_round_trip(v: i32)
    ensures
        (#[verifier::truncate] (i32_bits(v) as i32)) == v,
{
    assert((#[verifier::truncate] ((#[verifier::truncate] (v as u32)) as i32)) == v) by (bit_vector);
}

proof fn lemma_cstr_end_at(d: Seq<u8>, p: int, q: int)
    requires
        0 <= p <= q < d.len(),
        forall|k: int| p <= k < q ==> d[k] != 0,
        d[q] == 0,
    ensures
        cstr_end(d, p) == q,
    decreases q - p,
{
    if p < q {
        lemma_cstr_end_at(d, p + 1, q);
    }
}

/// The length field of an encoded packet reads the payload length plus
/// ten: the two `i32` fields, the payload and the two zero bytes.
pub proof fn lemma_rcon_length_field(id: i32, t: RconPacketType, p: Seq<char>)
    requires
        remaining_length(p.len()) <= i32::MAX,
    ensures
        ({
            let e = rcon_encode(id, t, p);
            i32_from_le(e[0], e[1], e[2], e[3]) as int == remaining_length(p.len())
        }),
{
    let len = remaining_length(p.len()) as i32;
    lemma_i32_bits_round_trip(len);
    lemma_u32_le_round_trip(i32_bits(len));
}

/// Encoding a packet and decoding the bytes gives back its request id, type
/// and payload, for any payload the packet may carry that holds no zero
/// character and fits in one packet from a server.
pub proof fn lemma_rcon_round_trip(id: i32, t: RconPacketType, p: Seq<char>)
    requires
        payload_ok(p),
        forall|i: int| 0 <= i < p.len() ==> (#[trigger] p[i] as u32) != 0,
        p.len() <= MAX_LEN_CLIENTBOUND,
    ensures
        rcon_decode(rcon_encode(id, t, p)) == Ok::<(i32, RconPacketType, Seq<char>), RconProtocolError>(
            (id, t, p),
        ),
{
    let e = rcon_encode(id, t, p);
    let n = p.len() as int;
    let len = remaining_length(p.len()) as i32;
    let code = rcon_type_code(t);
    lemma_i32_bits_round_trip(len);
    lemma_i32_bits_round_trip(id);
    lemma_i32_bits_round_trip(code);
    lemma_u32_le_round_trip(i32_bits(len));
    lemma_u32_le_round_trip(i32_bits(id));
    lemma_u32_le_round_trip(i32_bits(code));
    let pb = payload_bytes(p);
    assert(e.len() == 12 + n + 2);
    assert forall|k: int| 0 <= k < n implies e[12 + k] == pb[k] && pb[k] != 0 && payload_byte_ok(
        #[trigger] pb[k],
    ) by {
        lemma_char_byte(p[k]);
    }
    assert forall|k: int| 12 <= k < 12 + n implies e[k] != 0 by {
        assert(e[k] == pb[k - 12]);
    }
    assert(e[12 + n] == 0);
    lemma_cstr_end_at(e, 12, 12 + n);
    assert(e.subrange(12, 12 + n) =~= pb);
    assert(e[0] == u32_le(i32_bits(len))[0]);
    assert(e[4] == u32_le(i32_bits(id))[0]);
    assert(e[8] == u32_le(i32_bits(code))[0]);
    assert(e.subrange(0, 4) =~= u32_le(i32_bits(len)));
    assert(e.subrange(4, 8) =~= u32_le(i32_bits(id)));
    assert(e.subrange(8, 12) =~= u32_le(i32_bits(code)));
    assert forall|k: int| 0 <= k < n implies #[trigger] payload_chars(pb)[k] == p[k] by {
        lemma_char_byte(p[k]);
    }
    assert(payload_chars(pb) =~= p);
}

/// The frame of a packet whose payload bytes are `pb`.
pub open spec fn frame_with_payload(id: i32, t: RconPacketType, pb: Seq<u8>) -> Seq<u8> {
    u32_le(i32_bits(remaining_length(pb.len()) as i32)) + u32_le(i32_bits(id)) + u32_le(
        i32_bits(rcon_type_code(t)),
    ) + pb + seq![0u8, 0u8]
}

/// A well-formed frame with a payload a server may send is accepted exactly
/// when each payload byte is ASCII or the section sign 0xa7; any other byte
/// makes it `NonAsciiPayload`.
pub proof fn lemma_payload_bytes_checked(id: i32, t: RconPacketType, pb: Seq<u8>)
    requires
        forall|i: int| 0 <= i < pb.len() ==> #[trigger] pb[i] != 0,
        pb.len() <= MAX_LEN_CLIENTBOUND,
    ensures
        (forall|i: int| 0 <= i < pb.len() ==> payload_byte_ok(#[trigger] pb[i])) ==> rcon_decode(
            frame_with_payload(id, t, pb),
        ) == Ok::<(i32, RconPacketType, Seq<char>), RconProtocolError>((id, t, payload_chars(pb))),
        !(forall|i: int| 0 <= i < pb.len() ==> payload_byte_ok(#[trigger] pb[i])) ==> rcon_decode(
            frame_with_payload(id, t, pb),
        ) == Err::<(i32, RconPacketType, Seq<char>), RconProtocolError>(
            RconProtocolError::NonAsciiPayload,
        ),
{
    let e = frame_with_payload(id, t, pb);
    let n = pb.len() as int;
    let len = remaining_length(pb.len()) as i32;
    let code = rcon_type_code(t);
    lemma_i32_bits_round_trip(len);
    lemma_i32_bits_round_trip(id);
    lemma_i32_bits_round_trip(code);
    lemma_u32_le_round_trip(i32_bits(len));
    lemma_u32_le_round_trip(i32_bits(id));
    lemma_u32_le_round_trip(i32_bits(code));
    assert forall|k: int| 12 <= k < 12 + n implies e[k] != 0 by {
        assert(e[k] == pb[k - 12]);
    }
    assert(e[12 + n] == 0);
    lemma_cstr_end_at(e, 12, 12 + n);
    assert(e.subrange(12, 12 + n) =~= pb);
    if !(forall|i: int| 0 <= i < pb.len() ==> payload_byte_ok(#[trigger] pb[i])) {
        let w = choose|i: int| 0 <= i < pb.len() && !payload_byte_ok(#[trigger] pb[i]);
        assert(!payload_byte_ok(e.subrange(12, 12 + n)[w]));
    }
}

} // verus!
