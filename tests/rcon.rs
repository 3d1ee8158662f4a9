use mc_query::errors::RconProtocolError;
use mc_query::rcon::client::{accept_reply, check_login_reply, command_request, login_request};
use mc_query::rcon::packet::{get_remaining_length, RconPacket, RconPacketType};

fn packet(id: i32, t: RconPacketType, payload: &str) -> RconPacket {
    RconPacket { request_id: id, packet_type: t, payload: payload.to_string() }
}

fn frame(len: i32, id: i32, code: i32, payload: &[u8], tail: &[u8]) -> Vec<u8> {
    let mut b = Vec::new();
    b.extend_from_slice(&len.to_le_bytes());
    b.extend_from_slice(&id.to_le_bytes());
    b.extend_from_slice(&code.to_le_bytes());
    b.extend_from_slice(payload);
    b.extend_from_slice(tail);
    b
}

#[test]
fn encodes_a_login_packet() {
    let bytes = login_request("pass").unwrap();
    assert_eq!(bytes, frame(14, 1, 3, b"pass", &[0, 0]));
}

#[test]
fn round_trip_keeps_id_type_and_payload() {
    let cases = [
        (1, RconPacketType::Login, "mc-query-test"),
        (-7, RconPacketType::RunCommand, "time set day"),
        (i32::MAX, RconPacketType::Response, ""),
        (0, RconPacketType::Response, "\u{a7}6Done"),
    ];
    for (id, t, payload) in cases {
        let bytes = packet(id, t, payload).bytes();
        let n = payload.chars().count();
        assert_eq!(i32::from_le_bytes([bytes[0], bytes[1], bytes[2], bytes[3]]) as usize, 2 * 4 + n + 2);
        assert_eq!(bytes.len(), 4 + 2 * 4 + n + 2);
        let back = RconPacket::try_from(&bytes).unwrap();
        assert_eq!(back.request_id, id);
        assert_eq!(back.packet_type, t);
        assert_eq!(back.payload, payload);
    }
}

#[test]
fn section_sign_is_one_byte_on_the_wire() {
    let bytes = packet(1, RconPacketType::Response, "\u{a7}a").bytes();
    assert_eq!(&bytes[12..], &[0xa7, b'a', 0, 0]);
}

#[test]
fn payload_with_section_sign_is_accepted() {
    let p = RconPacket::new(1, RconPacketType::RunCommand, "\u{a7}ahello".to_string()).unwrap();
    assert_eq!(p.payload, "\u{a7}ahello");
    let decoded = RconPacket::try_from(&frame(14, 1, 0, &[0xa7, b'h', b'e', b'y'], &[0, 0])).unwrap();
    assert_eq!(decoded.payload, "\u{a7}hey");
}

#[test]
fn other_non_ascii_payload_is_rejected() {
    let err = RconPacket::new(1, RconPacketType::RunCommand, "caf\u{e9}".to_string()).unwrap_err();
    assert_eq!(err, RconProtocolError::NonAsciiPayload);
    assert_eq!(login_request("p\u{e4}ss").unwrap_err(), RconProtocolError::NonAsciiPayload);
    let decoded = RconPacket::try_from(&frame(11, 1, 0, &[0xe9], &[0, 0]));
    assert_eq!(decoded.unwrap_err(), RconProtocolError::NonAsciiPayload);
}

#[test]
fn bad_padding_is_rejected() {
    let decoded = RconPacket::try_from(&frame(12, 1, 0, b"ab", &[0, 7]));
    assert_eq!(decoded.unwrap_err(), RconProtocolError::InvalidRconResponse);
    let truncated = RconPacket::try_from(&frame(12, 1, 0, b"ab", &[0]));
    assert_eq!(truncated.unwrap_err(), RconProtocolError::InvalidRconResponse);
    let short = RconPacket::try_from(&[1, 2, 3]);
    assert_eq!(short.unwrap_err(), RconProtocolError::InvalidRconResponse);
}

#[test]
fn wrong_length_field_is_rejected() {
    let decoded = RconPacket::try_from(&frame(13, 1, 0, b"ab", &[0, 0]));
    assert_eq!(decoded.unwrap_err(), RconProtocolError::InvalidRconResponse);
}

#[test]
fn unknown_type_is_rejected() {
    let decoded = RconPacket::try_from(&frame(12, 1, 5, b"ab", &[0, 0]));
    assert_eq!(decoded.unwrap_err(), RconProtocolError::InvalidPacketType);
    assert_eq!(RconPacketType::try_from(1), Err(RconProtocolError::InvalidPacketType));
    assert_eq!(RconPacketType::try_from(3), Ok(RconPacketType::Login));
    assert_eq!(RconPacketType::RunCommand.code(), 2);
}

#[test]
fn remaining_length_counts_header_and_padding() {
    assert_eq!(get_remaining_length(""), 10);
    assert_eq!(get_remaining_length("time set day"), 22);
}

#[test]
fn long_command_is_too_long() {
    let command = "a".repeat(1447);
    assert_eq!(command_request(&command).unwrap_err(), RconProtocolError::PayloadTooLong);
    assert!(command_request(&"a".repeat(1446)).is_ok());
}

#[test]
fn wrong_password_fails_authentication() {
    let reply = packet(-1, RconPacketType::RunCommand, "");
    assert_eq!(check_login_reply(&reply), Err(RconProtocolError::AuthFailed));
}

#[test]
fn login_reply_with_other_id_is_a_mismatch() {
    let reply = packet(5, RconPacketType::RunCommand, "");
    assert_eq!(check_login_reply(&reply), Err(RconProtocolError::RequestIdMismatch));
    let reply = packet(0, RconPacketType::RunCommand, "");
    assert_eq!(check_login_reply(&reply), Err(RconProtocolError::RequestIdMismatch));
}

#[test]
fn login_reply_of_wrong_type_is_invalid() {
    let reply = packet(1, RconPacketType::Response, "");
    assert_eq!(check_login_reply(&reply), Err(RconProtocolError::InvalidPacketType));
    assert_eq!(check_login_reply(&packet(1, RconPacketType::RunCommand, "")), Ok(()));
}

#[test]
fn command_reply_errors() {
    let mut text = String::from("kept");
    assert_eq!(
        accept_reply(&mut text, &packet(-1, RconPacketType::Response, "x")),
        Err(RconProtocolError::AuthFailed)
    );
    assert_eq!(
        accept_reply(&mut text, &packet(2, RconPacketType::Response, "x")),
        Err(RconProtocolError::RequestIdMismatch)
    );
    assert_eq!(text, "kept");
}

#[test]
fn multi_packet_reply_is_joined() {
    let first = "a".repeat(4096);
    let second = "b".repeat(4096);
    let last = "the end";
    let replies = [
        packet(1, RconPacketType::Response, &first),
        packet(1, RconPacketType::Response, &second),
        packet(1, RconPacketType::Response, last),
    ];
    let mut text = String::new();
    let mut used = 0;
    for reply in &replies {
        used += 1;
        if accept_reply(&mut text, reply).unwrap() {
            break;
        }
    }
    assert_eq!(used, 3);
    assert_eq!(text, format!("{first}{second}{last}"));
}

#[test]
fn short_reply_is_complete() {
    let mut text = String::new();
    assert_eq!(accept_reply(&mut text, &packet(1, RconPacketType::Response, "Set the time to 1000")), Ok(true));
    assert_eq!(text, "Set the time to 1000");
}

#[test]
fn oversized_server_payload_is_too_long() {
    let big = vec![b'a'; 4097];
    let decoded = RconPacket::try_from(&frame(4097 + 10, 1, 0, &big, &[0, 0]));
    assert_eq!(decoded.unwrap_err(), RconProtocolError::PayloadTooLong);
    let full = vec![b'a'; 4096];
    let decoded = RconPacket::try_from(&frame(4096 + 10, 1, 0, &full, &[0, 0])).unwrap();
    assert_eq!(decoded.payload.len(), 4096);
}
