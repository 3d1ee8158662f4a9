//! Status protocol packets: a VarInt length, the packet id and the payload.

use crate::errors::MinecraftProtocolError;
use crate::varint::{varint_encode, VarInt};
use crate::wire::{push_all, push_u16_be, u16_be};
use vstd::prelude::*;
use vstd::string::StringSliceAdditionalSpecFns;

verus! {

/// The id of a status protocol packet.
#[derive(Debug, Clone, Copy, PartialEq, Eq, Structural)]
pub enum PacketId {
    /// The handshake, and also the status request (id 0).
    Handshake,
    /// The next state that asks for the status (id 1).
    Status,
}

/// The number of a packet id.
pub open spec fn packet_id_number(id: PacketId) -> u8 {
    match id {
        PacketId::Handshake => 0,
        PacketId::Status => 1,
    }
}

impl PacketId {
    /// The number of this packet id.
    pub fn number(self) -> (r: u8)
        ensures
            r == packet_id_number(self),
    {
        match self {
            PacketId::Handshake => 0,
            PacketId::Status => 1,
        }
    }

    /// The packet id numbered `value`; `InvalidState` for any other number.
    pub fn try_from(value: u8) -> (r: Result<PacketId, MinecraftProtocolError>)
        ensures
            match r {
                Ok(id) => value <= 1 && packet_id_number(id) == value,
                Err(e) => value > 1 && e == MinecraftProtocolError::InvalidState,
            },
    {
        match value {
            0 => Ok(PacketId::Handshake),
            1 => Ok(PacketId::Status),
            _ => Err(MinecraftProtocolError::InvalidState),
        }
    }

    /// The VarInt of this packet id.
    pub fn varint(self) -> (r: VarInt)
        ensures
            r@ == varint_encode(packet_id_number(self) as nat),
    {
        VarInt::from(self.number() as i32)
    }
}

/// The wire form of a packet with id `id` and payload `payload`: the VarInt
/// length of what follows, the VarInt id, the payload.
pub open spec fn frame(id: u8, payload: Seq<u8>) -> Seq<u8> {
    varint_encode((varint_encode(id as nat).len() + payload.len()) as nat) + varint_encode(id as nat)
        + payload
}

/// A status protocol packet.
#[derive(Debug)]
pub struct Packet {
    id: PacketId,
    payload: Vec<u8>,
}

impl View for Packet {
    type V = (u8, Seq<u8>);

    closed spec fn view(&self) -> (u8, Seq<u8>) {
        (packet_id_number(self.id), self.payload@)
    }
}

impl Packet {
    /// A builder for a packet with id `id`.
    pub fn builder(id: PacketId) -> (r: PacketBuilder)
        ensures
            r@ == (packet_id_number(id), Seq::<u8>::empty()),
    {
        PacketBuilder::new(id)
    }

    /// The wire form of this packet.
    pub fn bytes(self) -> (r: Vec<u8>)
        requires
            self@.1.len() < i32::MAX,
        ensures
            r@ == frame(self@.0, self@.1),
    {
        let id = self.id.varint();
        let len = id.len() + self.payload.len();
        proof {
            assert(varint_encode(packet_id_number(self.id) as nat).len() == 1) by {
                reveal_with_fuel(varint_encode, 2);
            }
        }
        let mut out = VarInt::from(len as i32).bytes();
        proof {
            assert(crate::wire::i32_bits(len as i32) as nat == len as nat) by {
                assert(len <= 0x7fff_ffff);
                let l = len as i32;
                assert(l >= 0 ==> (#[verifier::truncate] (l as u32)) as int == l as int) by (bit_vector);
            }
        }
        push_all(&mut out, id.bytes().as_slice());
        push_all(&mut out, self.payload.as_slice());
        out
    }
}

/// Builds the payload of a status protocol packet.
#[derive(Debug)]
pub struct PacketBuilder {
    id: PacketId,
    bytes: Vec<u8>,
}

impl View for PacketBuilder {
    type V = (u8, Seq<u8>);

    closed spec fn view(&self) -> (u8, Seq<u8>) {
        (packet_id_number(self.id), self.bytes@)
    }
}

impl PacketBuilder {
    /// A builder with an empty payload.
    pub fn new(id: PacketId) -> (r: Self)
        ensures
            r@ == (packet_id_number(id), Seq::<u8>::empty()),
    {
        PacketBuilder { id, bytes: Vec::new() }
    }

    /// Appends the bytes of a VarInt.
    pub fn add_varint(self, varint: &VarInt) -> (r: Self)
        ensures
            r@ == (self@.0, self@.1 + varint@),
    {
        let mut this = self;
        push_all(&mut this.bytes, varint.bytes().as_slice());
        this
    }

    /// Appends a string: the VarInt of its length in bytes, then its UTF-8
    /// bytes.
    pub fn add_string(self, string: &str) -> (r: Self)
        requires
            string.spec_bytes().len() <= i32::MAX,
        ensures
            r@ == (self@.0, self@.1 + varint_encode(string.spec_bytes().len()) + string.spec_bytes()),
    {
        let n = string.len();
        proof {
            let l = n as i32;
            assert(l >= 0 ==> (#[verifier::truncate] (l as u32)) as int == l as int) by (bit_vector);
        }
        let mut this = self.add_varint(&VarInt::from(n as i32));
        push_all(&mut this.bytes, string.as_bytes());
        this
    }

    /// Appends a `u16`, most significant byte first.
    pub fn add_u16(self, short: u16) -> (r: Self)
        ensures
            r@ == (self@.0, self@.1 + u16_be(short)),
    {
        let mut this = self;
        push_u16_be(&mut this.bytes, short);
        this
    }

    /// The packet with the id and payload built so far.
    pub fn build(self) -> (r: Packet)
        ensures
            r@ == self@,
    {
        Packet { id: self.id, payload: self.bytes }
    }
}

} // verus!
