//! Query packet types and the requests a client sends.

use crate::errors::QueryProtocolError;
use crate::wire::{i32_bits, push_u32_be, u32_be};
use vstd::prelude::*;

verus! {

/// The type of a query packet.
#[derive(Debug, Clone, Copy, PartialEq, Eq, Structural)]
pub enum QueryPacketType {
    /// Obtains a challenge token (type 9).
    Handshake,
    /// Asks for statistics (type 0).
    Stat,
}

/// The wire code of a packet type.
pub open spec fn packet_type_code(t: QueryPacketType) -> u8 {
    match t {
        QueryPacketType::Handshake => 9,
        QueryPacketType::Stat => 0,
    }
}

/// The packet type that a wire code stands for.
pub open spec fn packet_type_of(code: u8) -> Result<QueryPacketType, QueryProtocolError> {
    if code == 9 {
        Ok(QueryPacketType::Handshake)
    } else if code == 0 {
        Ok(QueryPacketType::Stat)
    } else {
        Err(QueryProtocolError::InvalidPacketType)
    }
}

impl QueryPacketType {
    /// The wire code of this packet type.
    pub fn code(self) -> (r: u8)
        ensures
            r == packet_type_code(self),
    {
        match self {
            QueryPacketType::Handshake => 9,
            QueryPacketType::Stat => 0,
        }
    }

    /// The packet type that `value` stands for; `InvalidPacketType` for any
    /// other code.
    pub fn try_from(value: u8) -> (r: Result<QueryPacketType, QueryProtocolError>)
        ensures
            r == packet_type_of(value),
    {
        if value == 9 {
            Ok(QueryPacketType::Handshake)
        } else if value == 0 {
            Ok(QueryPacketType::Stat)
        } else {
            Err(QueryProtocolError::InvalidPacketType)
        }
    }
}

/// The start of a request of type `t` for the session `session`.
pub open spec fn request_head(t: QueryPacketType, session: i32) -> Seq<u8> {
    seq![0xfeu8, 0xfdu8, packet_type_code(t)] + u32_be(i32_bits(session))
}

fn push_head(buf: &mut Vec<u8>, t: QueryPacketType, session: i32)
    requires
        old(buf)@.len() == 0,
    ensures
        final(buf)@ == request_head(t, session),
{
    buf.push(0xfe);
    buf.push(0xfd);
    buf.push(t.code());
    push_u32_be(buf, #[verifier::truncate] (session as u32));
    assert(buf@ =~= request_head(t, session));
}

/// The handshake request: magic, type 9 and the session id, big-endian.
pub fn handshake_request(session: i32) -> (r: Vec<u8>)
    ensures
        r@ == request_head(QueryPacketType::Handshake, session),
{
    let mut buf: Vec<u8> = Vec::new();
    push_head(&mut buf, QueryPacketType::Handshake, session);
    buf
}

/// The basic stat request: magic, type 0, the session id and the challenge
/// token, both big-endian.
pub fn basic_stat_request(session: i32, token: i32) -> (r: Vec<u8>)
    ensures
        r@ == request_head(QueryPacketType::Stat, session) + u32_be(i32_bits(token)),
{
    let mut buf: Vec<u8> = Vec::new();
    push_head(&mut buf, QueryPacketType::Stat, session);
    push_u32_be(&mut buf, #[verifier::truncate] (token as u32));
    buf
}

/// The full stat request: the basic stat request followed by four zero
/// bytes.
pub fn full_stat_request(session: i32, token: i32) -> (r: Vec<u8>)
    ensures
        r@ == request_head(QueryPacketType::Stat, session) + u32_be(i32_bits(token)) + seq![
            0u8,
            0u8,
            0u8,
            0u8,
        ],
{
    let mut buf = basic_stat_request(session, token);
    push_u32_be(&mut buf, 0);
    assert(u32_be(0) =~= seq![0u8, 0u8, 0u8, 0u8]) by {
        assert(((0u32 >> 24u32) & 0xff) as u8 == 0 && ((0u32 >> 16u32) & 0xff) as u8 == 0 && ((0u32
            >> 8u32) & 0xff) as u8 == 0 && (0u32 & 0xff) as u8 == 0) by (bit_vector);
    }
    buf
}

} // verus!
