use mc_query::errors::MinecraftProtocolError;
use mc_query::packet::{Packet, PacketBuilder, PacketId};
use mc_query::status::{body_length, handshake_packet, parse_status_body, status_request_packet};
use mc_query::varint::VarInt;

fn body(id: i32, payload: &[u8]) -> Vec<u8> {
    let mut b = VarInt::from(id).bytes();
    b.extend_from_slice(&VarInt::from(payload.len() as i32).bytes());
    b.extend_from_slice(payload);
    b
}

#[test]
fn builds_handshake() {
    let bytes = handshake_packet("localhost", 25565);
    let mut expected = vec![19, 0, 0xff, 0xff, 0xff, 0xff, 0x0f, 9];
    expected.extend_from_slice(b"localhost");
    expected.extend_from_slice(&[0x63, 0xdd, 1]);
    assert_eq!(bytes, expected);
}

#[test]
fn builds_status_request() {
    assert_eq!(status_request_packet(), vec![1, 0]);
}

#[test]
fn builder_frames_payload() {
    let packet: Packet = PacketBuilder::new(PacketId::Status).add_u16(0x0102).add_string("ab").build();
    assert_eq!(packet.bytes(), vec![6, 1, 1, 2, 2, b'a', b'b']);
    let packet = Packet::builder(PacketId::Handshake).add_varint(&VarInt::from(300)).build();
    assert_eq!(packet.bytes(), vec![3, 0, 0xac, 0x02]);
}

#[test]
fn packet_ids() {
    assert_eq!(PacketId::try_from(0), Ok(PacketId::Handshake));
    assert_eq!(PacketId::try_from(1), Ok(PacketId::Status));
    assert_eq!(PacketId::try_from(2), Err(MinecraftProtocolError::InvalidState));
    assert_eq!(PacketId::Status.number(), 1);
}

#[test]
fn status_reply_gives_json_text() {
    let json = r#"{"version":{"name":"1.20","protocol":763},"players":{"max":20,"online":3},"description":"A server"}"#;
    let text = parse_status_body(&body(0, json.as_bytes())).unwrap();
    assert_eq!(text, json);
    let value: serde_json::Value = serde_json::from_str(&text).unwrap();
    assert_eq!(value["players"]["online"].as_u64(), Some(3));
    assert_eq!(value["players"]["max"].as_u64(), Some(20));
    assert_eq!(value["version"]["protocol"].as_u64(), Some(763));
}

#[test]
fn status_reply_with_other_id_is_invalid() {
    assert_eq!(parse_status_body(&body(1, b"{}")), Err(MinecraftProtocolError::InvalidStatusResponse));
}

#[test]
fn status_reply_with_bad_text_is_invalid() {
    assert_eq!(parse_status_body(&body(0, &[0xff, 0xfe])), Err(MinecraftProtocolError::InvalidStatusResponse));
    let mut short = body(0, b"{}");
    short.pop();
    assert_eq!(parse_status_body(&short), Err(MinecraftProtocolError::InvalidStatusResponse));
}

#[test]
fn status_reply_with_bad_varint_is_invalid() {
    assert_eq!(
        parse_status_body(&[0x80, 0x80, 0x80, 0x80, 0x80, 0x80]),
        Err(MinecraftProtocolError::InvalidVarInt)
    );
}

#[test]
fn error_messages() {
    assert_eq!(MinecraftProtocolError::InvalidVarInt.message(), "invalid varint data");
    assert_eq!(mc_query::errors::RconProtocolError::AuthFailed.message(), "authentication failed");
    assert_eq!(mc_query::errors::QueryProtocolError::InvalidUtf8.message(), "invalid UTF-8");
}

#[test]
fn body_length_must_not_be_negative() {
    assert_eq!(body_length(120), Ok(120));
    assert_eq!(body_length(0), Ok(0));
    assert_eq!(body_length(-1), Err(MinecraftProtocolError::InvalidStatusResponse));
}
