//! The errors of the three protocols.

use vstd::prelude::*;

verus! {

/// An error from the status (server list ping) protocol.
#[derive(Debug, Clone, Copy, PartialEq, Eq, Structural)]
pub enum MinecraftProtocolError {
    /// VarInt data was invalid: five bytes without a terminating byte.
    InvalidVarInt,
    /// A packet id that the protocol does not define.
    InvalidState,
    /// The status response had the wrong packet id or an undecodable payload.
    InvalidStatusResponse,
}

/// An error from the RCON protocol.
#[derive(Debug, Clone, Copy, PartialEq, Eq, Structural)]
pub enum RconProtocolError {
    /// The payload held a byte that is neither ASCII nor the section sign (0xa7).
    NonAsciiPayload,
    /// Authentication failed: the server answered with request id -1.
    AuthFailed,
    /// Invalid or unexpected packet type.
    InvalidPacketType,
    /// The length field or the padding of a packet was wrong.
    InvalidRconResponse,
    /// The payload is longer than the protocol allows in that direction.
    PayloadTooLong,
    /// The reply carried a request id other than the one sent (and other than -1).
    RequestIdMismatch,
}

/// An error from the query protocol.
#[derive(Debug, Clone, Copy, PartialEq, Eq, Structural)]
pub enum QueryProtocolError {
    /// A packet type other than the one the exchange expects (9 for the
    /// handshake, 0 for a stat).
    InvalidPacketType,
    /// An unexpected packet type.
    UnexpectedPacketType,
    /// The session id in the reply is not the one that was sent.
    SessionIdMismatch,
    /// The challenge token was unusable.
    InvalidChallengeToken,
    /// A numeric field did not hold a number of the expected type.
    CannotParseInt,
    /// A string field was not valid UTF-8.
    InvalidUtf8,
    /// A required key of the key/value section was missing.
    InvalidKeyValueSection,
}

impl MinecraftProtocolError {
    /// The message that describes this error.
    pub fn message(&self) -> (r: &'static str) {
        match self {
            MinecraftProtocolError::InvalidVarInt => "invalid varint data",
            MinecraftProtocolError::InvalidState => "invalid state",
            MinecraftProtocolError::InvalidStatusResponse => "invalid status response",
        }
    }
}

impl RconProtocolError {
    /// The message that describes this error.
    pub fn message(&self) -> (r: &'static str) {
        match self {
            RconProtocolError::NonAsciiPayload => "non-ascii payload",
            RconProtocolError::AuthFailed => "authentication failed",
            RconProtocolError::InvalidPacketType => "invalid packet type",
            RconProtocolError::InvalidRconResponse => "invalid rcon response",
            RconProtocolError::PayloadTooLong => "payload too long",
            RconProtocolError::RequestIdMismatch => "request id mismatch",
        }
    }
}

impl QueryProtocolError {
    /// The message that describes this error.
    pub fn message(&self) -> (r: &'static str) {
        match self {
            QueryProtocolError::InvalidPacketType => "invalid packet type",
            QueryProtocolError::UnexpectedPacketType => "unexpected packet type",
            QueryProtocolError::SessionIdMismatch => "session id mismatch",
            QueryProtocolError::InvalidChallengeToken => "invalid challenge token",
            QueryProtocolError::CannotParseInt => "cannot parse int",
            QueryProtocolError::InvalidUtf8 => "invalid UTF-8",
            QueryProtocolError::InvalidKeyValueSection => "invalid key/value section",
        }
    }
}

} // verus!
