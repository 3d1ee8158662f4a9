use mc_query::errors::QueryProtocolError;
use mc_query::query::packet::{basic_stat_request, full_stat_request, handshake_request, QueryPacketType};
use mc_query::query::{
    new_session_id, parse_basic_stat, parse_full_stat, parse_handshake_reply, retry_after_timeout,
    session_id_from,
};

fn reply(t: u8, session: i32) -> Vec<u8> {
    let mut b = vec![t];
    b.extend_from_slice(&session.to_be_bytes());
    b
}

fn cstr(b: &mut Vec<u8>, s: &str) {
    b.extend_from_slice(s.as_bytes());
    b.push(0);
}

fn basic_reply(session: i32, num: &str) -> Vec<u8> {
    let mut b = reply(0, session);
    cstr(&mut b, "A Minecraft Server");
    cstr(&mut b, "SMP");
    cstr(&mut b, "world");
    cstr(&mut b, num);
    cstr(&mut b, "20");
    b.extend_from_slice(&[0xdd, 0x63]);
    cstr(&mut b, "127.0.0.1");
    b
}

fn full_reply(session: i32, pairs: &[(&str, &str)], players: &[&str]) -> Vec<u8> {
    let mut b = reply(0, session);
    b.extend_from_slice(b"splitnum\x00\x80\x00");
    for (k, v) in pairs {
        cstr(&mut b, k);
        cstr(&mut b, v);
    }
    b.push(0);
    b.extend_from_slice(b"\x01player_\x00\x00");
    for p in players {
        cstr(&mut b, p);
    }
    b.push(0);
    b
}

fn standard_pairs() -> Vec<(&'static str, &'static str)> {
    vec![
        ("hostname", "A Minecraft Server"),
        ("gametype", "SMP"),
        ("game_id", "MINECRAFT"),
        ("version", "1.20.1"),
        ("plugins", ""),
        ("map", "world"),
        ("numplayers", "2"),
        ("maxplayers", "20"),
        ("hostport", "25565"),
        ("hostip", "127.0.0.1"),
    ]
}

#[test]
fn session_ids_have_no_high_nibbles() {
    for raw in [0u32, 1, 0xffff_ffff, 0xf0f0_f0f0, 0x1234_5678, 0x8000_0000] {
        let id = session_id_from(raw);
        assert_eq!(id as u32 & 0xf0f0_f0f0, 0);
        assert_eq!(id as u32, raw & 0x0f0f_0f0f);
    }
    for _ in 0..100 {
        let id = new_session_id().expect("the random source failed");
        assert_eq!(id as u32 & 0xf0f0_f0f0, 0);
    }
}

#[test]
fn builds_requests() {
    assert_eq!(handshake_request(0x0102_0304), vec![0xfe, 0xfd, 9, 1, 2, 3, 4]);
    assert_eq!(
        basic_stat_request(1, 9513307),
        vec![0xfe, 0xfd, 0, 0, 0, 0, 1, 0x00, 0x91, 0x29, 0x5b]
    );
    assert_eq!(
        full_stat_request(1, 9513307),
        vec![0xfe, 0xfd, 0, 0, 0, 0, 1, 0x00, 0x91, 0x29, 0x5b, 0, 0, 0, 0]
    );
    assert_eq!(QueryPacketType::Handshake.code(), 9);
    assert_eq!(QueryPacketType::try_from(0), Ok(QueryPacketType::Stat));
    assert_eq!(QueryPacketType::try_from(1), Err(QueryProtocolError::InvalidPacketType));
}

#[test]
fn reads_challenge_token() {
    let mut b = reply(9, 1);
    cstr(&mut b, "9513307");
    assert_eq!(parse_handshake_reply(&b, 1), Ok(9513307));
    let mut b = reply(9, 1);
    cstr(&mut b, "-4");
    assert_eq!(parse_handshake_reply(&b, 1), Ok(-4));
}

#[test]
fn rejects_bad_challenge_token() {
    let mut b = reply(9, 1);
    cstr(&mut b, "12x");
    assert_eq!(parse_handshake_reply(&b, 1), Err(QueryProtocolError::CannotParseInt));
    let mut b = reply(9, 1);
    b.extend_from_slice(&[0xff, 0]);
    assert_eq!(parse_handshake_reply(&b, 1), Err(QueryProtocolError::InvalidUtf8));
}

#[test]
fn rejects_wrong_header() {
    let mut b = reply(9, 2);
    cstr(&mut b, "1");
    assert_eq!(parse_handshake_reply(&b, 1), Err(QueryProtocolError::SessionIdMismatch));
    let mut b = reply(0, 1);
    cstr(&mut b, "1");
    assert_eq!(parse_handshake_reply(&b, 1), Err(QueryProtocolError::InvalidPacketType));
    let mut b = reply(3, 1);
    cstr(&mut b, "1");
    assert_eq!(parse_handshake_reply(&b, 1), Err(QueryProtocolError::InvalidPacketType));
}

#[test]
fn reads_basic_stat() {
    let s = parse_basic_stat(&basic_reply(1, "2"), 1).unwrap();
    assert_eq!(s.motd, "A Minecraft Server");
    assert_eq!(s.game_type, "SMP");
    assert_eq!(s.map, "world");
    assert_eq!(s.num_players, 2);
    assert_eq!(s.max_players, 20);
    assert_eq!(s.host_port, 25565);
    assert_eq!(s.host_ip, "127.0.0.1");
}

#[test]
fn basic_stat_errors() {
    assert_eq!(parse_basic_stat(&reply(9, 1), 1).unwrap_err(), QueryProtocolError::InvalidPacketType);
    assert_eq!(parse_basic_stat(&basic_reply(1, "two"), 1).unwrap_err(), QueryProtocolError::CannotParseInt);
    assert_eq!(parse_basic_stat(&basic_reply(2, "2"), 1).unwrap_err(), QueryProtocolError::SessionIdMismatch);
    let mut b = reply(0, 1);
    b.extend_from_slice(&[0xc3, 0x28, 0]);
    assert_eq!(parse_basic_stat(&b, 1).unwrap_err(), QueryProtocolError::InvalidUtf8);
}

#[test]
fn truncated_basic_stat_reads_zeros() {
    let mut b = reply(0, 1);
    cstr(&mut b, "motd");
    assert_eq!(parse_basic_stat(&b, 1).unwrap_err(), QueryProtocolError::CannotParseInt);
}

#[test]
fn reads_full_stat() {
    let s = parse_full_stat(&full_reply(7, &standard_pairs(), &["Steve", "Alex"]), 7).unwrap();
    assert_eq!(s.motd, "A Minecraft Server");
    assert_eq!(s.game_type, "SMP");
    assert_eq!(s.game_id, "MINECRAFT");
    assert_eq!(s.version, "1.20.1");
    assert_eq!(s.plugins, "");
    assert_eq!(s.map, "world");
    assert_eq!(s.num_players, 2);
    assert_eq!(s.max_players, 20);
    assert_eq!(s.host_port, 25565);
    assert_eq!(s.host_ip, "127.0.0.1");
    assert_eq!(s.players, vec!["Steve".to_string(), "Alex".to_string()]);
}

#[test]
fn full_stat_with_no_players() {
    let s = parse_full_stat(&full_reply(7, &standard_pairs(), &[]), 7).unwrap();
    assert!(s.players.is_empty());
}

#[test]
fn later_key_replaces_earlier_one() {
    let mut pairs = standard_pairs();
    pairs.push(("map", "nether"));
    let s = parse_full_stat(&full_reply(7, &pairs, &[]), 7).unwrap();
    assert_eq!(s.map, "nether");
}

#[test]
fn full_stat_without_hostport_is_invalid() {
    let pairs: Vec<_> = standard_pairs().into_iter().filter(|(k, _)| *k != "hostport").collect();
    let err = parse_full_stat(&full_reply(7, &pairs, &["Steve"]), 7).unwrap_err();
    assert_eq!(err, QueryProtocolError::InvalidKeyValueSection);
}

#[test]
fn full_stat_with_bad_port_cannot_parse() {
    let mut pairs = standard_pairs();
    pairs.push(("hostport", "70000"));
    let err = parse_full_stat(&full_reply(7, &pairs, &[]), 7).unwrap_err();
    assert_eq!(err, QueryProtocolError::CannotParseInt);
}

#[test]
fn retries_only_once() {
    assert!(retry_after_timeout(1));
    assert!(!retry_after_timeout(2));
}
