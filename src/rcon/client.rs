//! The decisions of an RCON session: what to send for a login or a command,
//! and what each reply from the server means.

use crate::errors::RconProtocolError;
use crate::rcon::packet::{
    payload_ok, rcon_encode, RconPacket, RconPacketType,
};
use crate::rcon::{MAX_LEN_CLIENTBOUND, MAX_LEN_SERVERBOUND};
use vstd::prelude::*;
use vstd::string::{StrSliceExecFns, StringExecFns};

verus! {

/// The request id the client puts on every request.
pub const REQUEST_ID: i32 = 1;

/// The request id with which the server reports a failed login.
pub const AUTH_FAILED_ID: i32 = -1;

/// The wire form of a request of type `t` that carries `text`, or why it
/// cannot be sent: a character that is neither ASCII nor the section sign,
/// or more than 1446 characters.
pub open spec fn request_spec(t: RconPacketType, text: Seq<char>) -> Result<Seq<u8>, RconProtocolError> {
    if !payload_ok(text) {
        Err(RconProtocolError::NonAsciiPayload)
    } else if text.len() > MAX_LEN_SERVERBOUND {
        Err(RconProtocolError::PayloadTooLong)
    } else {
        Ok(rcon_encode(REQUEST_ID, t, text))
    }
}

fn request(t: RconPacketType, text: &str) -> (r: Result<Vec<u8>, RconProtocolError>)
    ensures
        match r {
            Ok(b) => request_spec(t, text@) == Ok::<Seq<u8>, RconProtocolError>(b@),
            Err(e) => request_spec(t, text@) == Err::<Seq<u8>, RconProtocolError>(e),
        },
{
    let packet = RconPacket::new(REQUEST_ID, t, text.to_owned())?;
    if text.unicode_len() > MAX_LEN_SERVERBOUND {
        return Err(RconProtocolError::PayloadTooLong);
    }
    Ok(packet.bytes())
}

/// The login request for `password`.
pub fn login_request(password: &str) -> (r: Result<Vec<u8>, RconProtocolError>)
    ensures
        match r {
            Ok(b) => request_spec(RconPacketType::Login, password@) == Ok::<Seq<u8>, RconProtocolError>(b@),
            Err(e) => request_spec(RconPacketType::Login, password@) == Err::<Seq<u8>, RconProtocolError>(e),
        },
{
    request(RconPacketType::Login, password)
}

/// The request that runs `command`.
pub fn command_request(command: &str) -> (r: Result<Vec<u8>, RconProtocolError>)
    ensures
        match r {
            Ok(b) => request_spec(RconPacketType::RunCommand, command@) == Ok::<Seq<u8>, RconProtocolError>(b@),
            Err(e) => request_spec(RconPacketType::RunCommand, command@) == Err::<Seq<u8>, RconProtocolError>(e),
        },
{
    request(RconPacketType::RunCommand, command)
}

/// What the reply to a login says: it must have the type of a command, and
/// the request id -1 means the password was wrong.
pub open spec fn login_reply_spec(t: RconPacketType, id: i32) -> Result<(), RconProtocolError> {
    if t != RconPacketType::RunCommand {
        Err(RconProtocolError::InvalidPacketType)
    } else if id == AUTH_FAILED_ID {
        Err(RconProtocolError::AuthFailed)
    } else if id != REQUEST_ID {
        Err(RconProtocolError::RequestIdMismatch)
    } else {
        Ok(())
    }
}

/// Checks the reply to a login.
pub fn check_login_reply(reply: &RconPacket) -> (r: Result<(), RconProtocolError>)
    ensures
        r == login_reply_spec(reply.packet_type, reply.request_id),
{
    if reply.packet_type != RconPacketType::RunCommand {
        return Err(RconProtocolError::InvalidPacketType);
    }
    if reply.request_id == AUTH_FAILED_ID {
        Err(RconProtocolError::AuthFailed)
    } else if reply.request_id != REQUEST_ID {
        Err(RconProtocolError::RequestIdMismatch)
    } else {
        Ok(())
    }
}

/// One reply packet of a command: the text so far grows by its payload, and
/// a payload shorter than the longest a server sends ends the reply.
pub open spec fn reply_step(text: Seq<char>, id: i32, payload: Seq<char>) -> Result<
    (Seq<char>, bool),
    RconProtocolError,
> {
    if id == AUTH_FAILED_ID {
        Err(RconProtocolError::AuthFailed)
    } else if id != REQUEST_ID {
        Err(RconProtocolError::RequestIdMismatch)
    } else {
        Ok((text + payload, payload.len() < MAX_LEN_CLIENTBOUND))
    }
}

/// Takes one reply packet of a command into `text`; says whether the reply
/// is complete.
pub fn accept_reply(text: &mut String, reply: &RconPacket) -> (r: Result<bool, RconProtocolError>)
    ensures
        match r {
            Ok(done) => reply_step(old(text)@, reply.request_id, reply.payload@) == Ok::<
                (Seq<char>, bool),
                RconProtocolError,
            >((final(text)@, done)),
            Err(e) => reply_step(old(text)@, reply.request_id, reply.payload@) == Err::<
                (Seq<char>, bool),
                RconProtocolError,
            >(e) && final(text)@ == old(text)@,
        },
{
    if reply.request_id == AUTH_FAILED_ID {
        return Err(RconProtocolError::AuthFailed);
    } else if reply.request_id != REQUEST_ID {
        return Err(RconProtocolError::RequestIdMismatch);
    }
    text.append(reply.payload.as_str());
    // a full packet may be followed by more; the protocol gives no surer sign
    Ok(reply.payload.as_str().unicode_len() < MAX_LEN_CLIENTBOUND)
}

/// The payloads of `packets`, joined in order.
pub open spec fn joined(packets: Seq<RconPacket>) -> Seq<char>
    decreases packets.len(),
{
    if packets.len() == 0 {
        Seq::empty()
    } else {
        packets[0].payload@ + joined(packets.drop_first())
    }
}

/// The outcome of taking `packets` in order into a reply that holds `text`:
/// the text and whether the reply is complete, stopping at the packet that
/// completes it.
pub open spec fn replies_from(text: Seq<char>, packets: Seq<RconPacket>) -> Result<
    (Seq<char>, bool),
    RconProtocolError,
>
    decreases packets.len(),
{
    if packets.len() == 0 {
        Ok((text, false))
    } else {
        match reply_step(text, packets[0].request_id, packets[0].payload@) {
            Err(e) => Err(e),
            Ok(r) => if r.1 {
                Ok(r)
            } else {
                replies_from(r.0, packets.drop_first())
            },
        }
    }
}

/// A reply that the server split into full packets and one shorter last
/// packet, all with the client's request id, is put back together whole:
/// the reply completes at the last packet and holds all payloads in order.
pub proof fn lemma_split_reply_joined(text: Seq<char>, packets: Seq<RconPacket>)
    requires
        packets.len() > 0,
        forall|i: int| 0 <= i < packets.len() ==> (#[trigger] packets[i]).request_id == REQUEST_ID,
        forall|i: int| 0 <= i < packets.len() - 1 ==> (#[trigger] packets[i]).payload@.len() == MAX_LEN_CLIENTBOUND,
        packets.last().payload@.len() < MAX_LEN_CLIENTBOUND,
    ensures
        replies_from(text, packets) == Ok::<(Seq<char>, bool), RconProtocolError>(
            (text + joined(packets), true),
        ),
    decreases packets.len(),
{
    let rest = packets.drop_first();
    if packets.len() == 1 {
        assert(rest.len() == 0);
        assert(joined(rest) =~= Seq::<char>::empty());
        assert(text + joined(packets) =~= text + packets[0].payload@);
    } else {
        assert forall|i: int| 0 <= i < rest.len() implies (#[trigger] rest[i]).request_id == REQUEST_ID by {
            assert(rest[i] == packets[i + 1]);
        }
        assert forall|i: int| 0 <= i < rest.len() - 1 implies (#[trigger] rest[i]).payload@.len() == MAX_LEN_CLIENTBOUND by {
            assert(rest[i] == packets[i + 1]);
        }
        assert(rest.last() == packets.last());
        lemma_split_reply_joined(text + packets[0].payload@, rest);
        assert(text + packets[0].payload@ + joined(rest) =~= text + joined(packets));
    }
}

} // verus!
