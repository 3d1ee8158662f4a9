//! The status (server list ping) protocol: a handshake, a status request,
//! and a reply that carries the server's state as JSON text.
//!
//! Decoding that JSON into [`data::StatusResponse`] is left to the caller;
//! this module guarantees the text it hands over is the UTF-8 string the
//! server sent.

pub mod data;

use crate::errors::MinecraftProtocolError;
use crate::packet::{frame, Packet, PacketId};
use crate::varint::{decode_varint, lemma_encode_decode, varint_decode, varint_encode, VarInt};
use crate::wire::{i32_bits, slice_to_vec, u16_be, utf8_string, utf8_text};
use vstd::prelude::*;
use vstd::string::StringSliceAdditionalSpecFns;

verus! {

/// The protocol version sent in the handshake: -1, as the status exchange
/// does not depend on it.
pub const PROTOCOL_VERSION: i32 = -1;

/// The payload of the handshake: the protocol version, the host name as a
/// string, the port big-endian and the next state (1, status).
pub open spec fn handshake_payload(host: Seq<u8>, port: u16) -> Seq<u8> {
    varint_encode(i32_bits(PROTOCOL_VERSION) as nat) + varint_encode(host.len()) + host + u16_be(port)
        + varint_encode(1)
}

/// The handshake packet that opens a status exchange with `host` on `port`.
pub fn handshake_packet(host: &str, port: u16) -> (r: Vec<u8>)
    requires
        host.spec_bytes().len() + 16 <= i32::MAX,
    ensures
        r@ == frame(0, handshake_payload(host.spec_bytes(), port)),
{
    proof {
        lemma_encode_decode(i32_bits(PROTOCOL_VERSION), Seq::empty());
        lemma_encode_decode(host.spec_bytes().len() as u32, Seq::empty());
        lemma_encode_decode(1, Seq::empty());
    }
    let packet = Packet::builder(PacketId::Handshake).add_varint(&VarInt::from(PROTOCOL_VERSION)).add_string(
        host,
    ).add_u16(port).add_varint(&PacketId::Status.varint()).build();
    packet.bytes()
}

/// The status request: an empty packet with id 0.
pub fn status_request_packet() -> (r: Vec<u8>)
    ensures
        r@ == frame(0, Seq::empty()),
{
    Packet::builder(PacketId::Handshake).build().bytes()
}

/// The number of bytes that follow the length field of a status reply; a
/// negative length makes the reply invalid.
pub fn body_length(len: i32) -> (r: Result<usize, MinecraftProtocolError>)
    ensures
        match r {
            Ok(n) => len >= 0 && n == len,
            Err(e) => len < 0 && e == MinecraftProtocolError::InvalidStatusResponse,
        },
{
    if len < 0 {
        Err(MinecraftProtocolError::InvalidStatusResponse)
    } else {
        Ok(len as usize)
    }
}

/// The JSON text of a status reply, given the bytes that follow its length:
/// the packet id, which must be 0, then a string, its length as a VarInt
/// followed by that many bytes of UTF-8.
pub open spec fn status_body_spec(b: Seq<u8>) -> Result<Seq<char>, MinecraftProtocolError> {
    match varint_decode(b) {
        Err(e) => Err(e),
        Ok(head) => if head.0 != 0 {
            Err(MinecraftProtocolError::InvalidStatusResponse)
        } else {
            let rest = b.skip(head.1 as int);
            match varint_decode(rest) {
                Err(e) => Err(e),
                Ok(len) => if len.0 < 0 || len.1 + len.0 > rest.len() {
                    Err(MinecraftProtocolError::InvalidStatusResponse)
                } else {
                    match utf8_text(rest.subrange(len.1 as int, len.1 + len.0)) {
                        Some(t) => Ok(t),
                        None => Err(MinecraftProtocolError::InvalidStatusResponse),
                    }
                },
            }
        },
    }
}

/// The JSON text of a status reply, given the bytes that follow its length.
pub fn parse_status_body(body: &[u8]) -> (r: Result<String, MinecraftProtocolError>)
    ensures
        match r {
            Ok(s) => status_body_spec(body@) == Ok::<Seq<char>, MinecraftProtocolError>(s@),
            Err(e) => status_body_spec(body@) == Err::<Seq<char>, MinecraftProtocolError>(e),
        },
{
    let (id, n) = decode_varint(body)?;
    if id != 0 {
        return Err(MinecraftProtocolError::InvalidStatusResponse);
    }
    let rest = slice_to_vec(body, n, body.len());
    assert(rest@ =~= body@.skip(n as int));
    let (len, m) = decode_varint(rest.as_slice())?;
    if len < 0 || (len as usize) > rest.len() - m {
        return Err(MinecraftProtocolError::InvalidStatusResponse);
    }
    let text = slice_to_vec(rest.as_slice(), m, m + len as usize);
    match utf8_string(text) {
        Some(s) => Ok(s),
        None => Err(MinecraftProtocolError::InvalidStatusResponse),
    }
}

} // verus!
