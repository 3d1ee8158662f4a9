//! The UDP query protocol: a handshake that yields a challenge token, then a
//! basic or full statistics request.
//!
//! Replies are read from the receive buffer as the server filled it: bytes
//! past the end of the given buffer read as zero.

pub mod packet;

use crate::decimal::{parse_i32, parse_int_spec, parse_u16, parse_usize};
use crate::errors::QueryProtocolError;
use crate::query::packet::{packet_type_code, QueryPacketType};
use crate::wire::{same_text, byte_at, byte_or_zero, cstr_at, cstr_end, i32_bits, lemma_cstr_end_bounds, read_cstr, utf8_string, utf8_text};
use vstd::prelude::*;

verus! {

/// The mask that clears the high nibble of every byte of a session id.
pub const SESSION_ID_MASK: u32 = 0x0f0f_0f0f;

/// The largest reply the client reads: the size of its receive buffer.
pub const MAX_DATAGRAM: usize = 65536;

/// Whether `id` is a well-formed session id: the high nibble of every byte is
/// zero.
pub open spec fn session_id_valid(id: i32) -> bool {
    i32_bits(id) & 0xf0f0_f0f0 == 0
}

/// Relies on `rand::rngs::OsRng` and its `RngCore::try_fill_bytes`: four
/// bytes from the operating system's random source, or `None` where that
/// source fails. Nothing is known of the value.
#[verifier::external_body]
fn random_u32() -> Option<u32> {
    let mut buf = [0u8; 4];
    match rand::RngCore::try_fill_bytes(&mut rand::rngs::OsRng, &mut buf) {
        Ok(()) => Some(u32::from_ne_bytes(buf)),
        Err(_) => None,
    }
}

/// The session id made from the random bits `raw`: their high nibbles
/// cleared.
pub fn session_id_from(raw: u32) -> (r: i32)
    ensures
        i32_bits(r) == raw & SESSION_ID_MASK,
        session_id_valid(r),
{
    let masked = raw & SESSION_ID_MASK;
    let r = #[verifier::truncate] (masked as i32);
    assert(#[verifier::truncate] ((#[verifier::truncate] (masked as i32)) as u32) == masked)
        by (bit_vector);
    assert((raw & 0x0f0f_0f0f) & 0xf0f0_f0f0 == 0) by (bit_vector);
    r
}

/// A fresh random session id, whose high nibbles are zero whatever the
/// random source gave; `None` where the source failed.
pub fn new_session_id() -> (r: Option<i32>)
    ensures
        match r {
            Some(id) => session_id_valid(id),
            None => true,
        },
{
    match random_u32() {
        Some(raw) => Some(session_id_from(raw)),
        None => None,
    }
}

/// The big-endian `i32` at `p`.
pub open spec fn be_i32_at(d: Seq<u8>, p: int) -> i32 {
    #[verifier::truncate] ((((byte_at(d, p) as u32) << 24u32) | ((byte_at(d, p + 1) as u32) << 16u32)
        | ((byte_at(d, p + 2) as u32) << 8u32) | (byte_at(d, p + 3) as u32)) as i32)
}

/// The little-endian `u16` at `p`.
pub open spec fn le_u16_at(d: Seq<u8>, p: int) -> u16 {
    (byte_at(d, p) as u16) | ((byte_at(d, p + 1) as u16) << 8u16)
}

/// The check of a reply's header: its type byte must be the code of the
/// expected type, and the session id after it the one that was sent.
pub open spec fn header_check(d: Seq<u8>, expected: QueryPacketType, session: i32) -> Result<
    (),
    QueryProtocolError,
> {
    if byte_at(d, 0) != packet_type_code(expected) {
        Err(QueryProtocolError::InvalidPacketType)
    } else if be_i32_at(d, 1) != session {
        Err(QueryProtocolError::SessionIdMismatch)
    } else {
        Ok(())
    }
}

/// The text of the zero-terminated string at `p`.
pub open spec fn text_at(d: Seq<u8>, p: int) -> Result<Seq<char>, QueryProtocolError> {
    match utf8_text(cstr_at(d, p)) {
        Some(t) => Ok(t),
        None => Err(QueryProtocolError::InvalidUtf8),
    }
}

/// The position after the zero-terminated string at `p`.
pub open spec fn after(d: Seq<u8>, p: int) -> int {
    cstr_end(d, p) + 1
}

/// The number written in decimal by the zero-terminated string at `p`, in the
/// range from zero to `max`.
pub open spec fn count_at(d: Seq<u8>, p: int, max: int) -> Result<int, QueryProtocolError> {
    match text_at(d, p) {
        Err(e) => Err(e),
        Ok(_) => match parse_int_spec(cstr_at(d, p), false, 0, max) {
            Some(v) => Ok(v),
            None => Err(QueryProtocolError::CannotParseInt),
        },
    }
}

/// The challenge token of a handshake reply, or why the reply is rejected.
pub open spec fn handshake_reply_spec(d: Seq<u8>, session: i32) -> Result<i32, QueryProtocolError> {
    match header_check(d, QueryPacketType::Handshake, session) {
        Err(e) => Err(e),
        Ok(_) => match text_at(d, 5) {
            Err(e) => Err(e),
            Ok(_) => match parse_int_spec(cstr_at(d, 5), true, i32::MIN as int, i32::MAX as int) {
                Some(v) => Ok(v as i32),
                None => Err(QueryProtocolError::CannotParseInt),
            },
        },
    }
}

/// A reply to the server's basic query.
#[derive(Debug)]
pub struct BasicStatResponse {
    /// The message shown in the server list.
    pub motd: String,
    /// The game type ("SMP" on vanilla servers).
    pub game_type: String,
    /// The name of the world.
    pub map: String,
    /// The number of players online.
    pub num_players: usize,
    /// The most players the server allows.
    pub max_players: usize,
    /// The port the server runs on.
    pub host_port: u16,
    /// The server's IP address.
    pub host_ip: String,
}

/// The content of a basic stat reply.
pub struct BasicStatView {
    pub motd: Seq<char>,
    pub game_type: Seq<char>,
    pub map: Seq<char>,
    pub num_players: int,
    pub max_players: int,
    pub host_port: u16,
    pub host_ip: Seq<char>,
}

impl View for BasicStatResponse {
    type V = BasicStatView;

    open spec fn view(&self) -> BasicStatView {
        BasicStatView {
            motd: self.motd@,
            game_type: self.game_type@,
            map: self.map@,
            num_players: self.num_players as int,
            max_players: self.max_players as int,
            host_port: self.host_port,
            host_ip: self.host_ip@,
        }
    }
}

/// The content of a basic stat reply, or the first thing wrong with it: the
/// header, then the motd, game type and map strings, the player counts in
/// decimal, the port as two little-endian bytes and the host address.
pub open spec fn basic_stat_spec(d: Seq<u8>, session: i32) -> Result<BasicStatView, QueryProtocolError> {
    let p_type = after(d, 5);
    let p_map = after(d, p_type);
    let p_num = after(d, p_map);
    let p_max = after(d, p_num);
    let p_port = after(d, p_max);
    let header = header_check(d, QueryPacketType::Stat, session);
    let motd = text_at(d, 5);
    let game_type = text_at(d, p_type);
    let map = text_at(d, p_map);
    let num = count_at(d, p_num, usize::MAX as int);
    let max = count_at(d, p_max, usize::MAX as int);
    let ip = text_at(d, p_port + 2);
    if header is Err {
        Err(header->Err_0)
    } else if motd is Err {
        Err(motd->Err_0)
    } else if game_type is Err {
        Err(game_type->Err_0)
    } else if map is Err {
        Err(map->Err_0)
    } else if num is Err {
        Err(num->Err_0)
    } else if max is Err {
        Err(max->Err_0)
    } else if ip is Err {
        Err(ip->Err_0)
    } else {
        Ok(
            BasicStatView {
                motd: motd->Ok_0,
                game_type: game_type->Ok_0,
                map: map->Ok_0,
                num_players: num->Ok_0,
                max_players: max->Ok_0,
                host_port: le_u16_at(d, p_port),
                host_ip: ip->Ok_0,
            },
        )
    }
}

/// Checks the header of the reply `d`.
fn check_header(d: &[u8], expected: QueryPacketType, session: i32) -> (r: Result<(), QueryProtocolError>)
    ensures
        r == header_check(d@, expected, session),
{
    if byte_or_zero(d, 0) != expected.code() {
        return Err(QueryProtocolError::InvalidPacketType);
    }
    let b1 = byte_or_zero(d, 1) as u32;
    let b2 = byte_or_zero(d, 2) as u32;
    let b3 = byte_or_zero(d, 3) as u32;
    let b4 = byte_or_zero(d, 4) as u32;
    let recv = #[verifier::truncate] (((b1 << 24u32) | (b2 << 16u32) | (b3 << 8u32) | b4) as i32);
    if recv != session {
        return Err(QueryProtocolError::SessionIdMismatch);
    }
    Ok(())
}

/// The text of the zero-terminated string at `p`, and the position after it.
fn read_text(d: &[u8], p: usize) -> (r: (Result<String, QueryProtocolError>, usize))
    requires
        d@.len() <= MAX_DATAGRAM,
        p <= MAX_DATAGRAM + 64,
    ensures
        match r.0 {
            Ok(s) => text_at(d@, p as int) == Ok::<Seq<char>, QueryProtocolError>(s@),
            Err(e) => text_at(d@, p as int) == Err::<Seq<char>, QueryProtocolError>(e),
        },
        r.1 == after(d@, p as int),
        p < r.1,
        r.1 <= d@.len() + 1 || r.1 == p + 1,
{
    proof {
        lemma_cstr_end_bounds(d@, p as int);
    }
    let (bytes, next) = read_cstr(d, p);
    match utf8_string(bytes) {
        Some(s) => (Ok(s), next),
        None => (Err(QueryProtocolError::InvalidUtf8), next),
    }
}

/// The bytes of the zero-terminated string at `p`, with the check that they
/// are text, and the position after it.
fn read_count(d: &[u8], p: usize) -> (r: (Result<usize, QueryProtocolError>, usize))
    requires
        d@.len() <= MAX_DATAGRAM,
        p <= MAX_DATAGRAM + 64,
    ensures
        match r.0 {
            Ok(v) => count_at(d@, p as int, usize::MAX as int) == Ok::<int, QueryProtocolError>(
                v as int,
            ),
            Err(e) => count_at(d@, p as int, usize::MAX as int) == Err::<int, QueryProtocolError>(e),
        },
        r.1 == after(d@, p as int),
        p < r.1,
        r.1 <= d@.len() + 1 || r.1 == p + 1,
{
    proof {
        lemma_cstr_end_bounds(d@, p as int);
    }
    let (bytes, next) = read_cstr(d, p);
    let parsed = parse_usize(bytes.as_slice());
    match utf8_string(bytes) {
        None => (Err(QueryProtocolError::InvalidUtf8), next),
        Some(_) => match parsed {
            Some(v) => (Ok(v), next),
            None => (Err(QueryProtocolError::CannotParseInt), next),
        },
    }
}

/// The challenge token of the handshake reply `d` to the session `session`.
pub fn parse_handshake_reply(d: &[u8], session: i32) -> (r: Result<i32, QueryProtocolError>)
    requires
        d@.len() <= MAX_DATAGRAM,
    ensures
        r == handshake_reply_spec(d@, session),
{
    check_header(d, QueryPacketType::Handshake, session)?;
    proof {
        lemma_cstr_end_bounds(d@, 5);
    }
    let (bytes, _) = read_cstr(d, 5);
    let parsed = parse_i32(bytes.as_slice());
    match utf8_string(bytes) {
        None => Err(QueryProtocolError::InvalidUtf8),
        Some(_) => match parsed {
            Some(v) => Ok(v),
            None => Err(QueryProtocolError::CannotParseInt),
        },
    }
}

/// The basic stat reply `d` to the session `session`.
pub fn parse_basic_stat(d: &[u8], session: i32) -> (r: Result<BasicStatResponse, QueryProtocolError>)
    requires
        d@.len() <= MAX_DATAGRAM,
    ensures
        match r {
            Ok(s) => basic_stat_spec(d@, session) == Ok::<BasicStatView, QueryProtocolError>(s@),
            Err(e) => basic_stat_spec(d@, session) == Err::<BasicStatView, QueryProtocolError>(e),
        },
{
    check_header(d, QueryPacketType::Stat, session)?;
    let (motd, p) = read_text(d, 5);
    let motd = motd?;
    let (game_type, p) = read_text(d, p);
    let game_type = game_type?;
    let (map, p) = read_text(d, p);
    let map = map?;
    let (num_players, p) = read_count(d, p);
    let num_players = num_players?;
    let (max_players, p) = read_count(d, p);
    let max_players = max_players?;
    // the one little-endian field of the protocol
    let host_port = (byte_or_zero(d, p) as u16) | ((byte_or_zero(d, p + 1) as u16) << 8u16);
    let (host_ip, _) = read_text(d, p + 2);
    let host_ip = host_ip?;
    Ok(BasicStatResponse { motd, game_type, map, num_players, max_players, host_port, host_ip })
}

/// A reply to the server's full query.
#[derive(Debug)]
pub struct FullStatResponse {
    /// The message shown in the server list.
    pub motd: String,
    /// The game type ("SMP" on vanilla servers).
    pub game_type: String,
    /// The game id ("MINECRAFT" on vanilla servers).
    pub game_id: String,
    /// The game version.
    pub version: String,
    /// The plugins the server runs; empty on vanilla servers.
    pub plugins: String,
    /// The name of the world.
    pub map: String,
    /// The number of players online.
    pub num_players: usize,
    /// The most players the server allows.
    pub max_players: usize,
    /// The port the server runs on.
    pub host_port: u16,
    /// The server's IP address.
    pub host_ip: String,
    /// The names of the players online.
    pub players: Vec<String>,
}

/// The content of a full stat reply.
pub struct FullStatView {
    pub motd: Seq<char>,
    pub game_type: Seq<char>,
    pub game_id: Seq<char>,
    pub version: Seq<char>,
    pub plugins: Seq<char>,
    pub map: Seq<char>,
    pub num_players: int,
    pub max_players: int,
    pub host_port: int,
    pub host_ip: Seq<char>,
    pub players: Seq<Seq<char>>,
}

/// The texts of a sequence of strings.
pub open spec fn texts(v: Seq<String>) -> Seq<Seq<char>> {
    v.map_values(|s: String| s@)
}

impl View for FullStatResponse {
    type V = FullStatView;

    open spec fn view(&self) -> FullStatView {
        FullStatView {
            motd: self.motd@,
            game_type: self.game_type@,
            game_id: self.game_id@,
            version: self.version@,
            plugins: self.plugins@,
            map: self.map@,
            num_players: self.num_players as int,
            max_players: self.max_players as int,
            host_port: self.host_port as int,
            host_ip: self.host_ip@,
            players: texts(self.players@),
        }
    }
}

/// The key/value pairs that start at `p`, each a key string then a value
/// string, up to an empty key, and the position after that empty key.
pub open spec fn kv_section(d: Seq<u8>, p: int) -> Result<
    (Seq<(Seq<char>, Seq<char>)>, int),
    QueryProtocolError,
>
    decreases d.len() + 2 - p,
    via kv_section_decreases
{
    if p < 0 || p >= d.len() {
        Ok((Seq::empty(), p + 1))
    } else {
        match text_at(d, p) {
            Err(e) => Err(e),
            Ok(key) => if key.len() == 0 {
                Ok((Seq::empty(), after(d, p)))
            } else {
                match text_at(d, after(d, p)) {
                    Err(e) => Err(e),
                    Ok(value) => match kv_section(d, after(d, after(d, p))) {
                        Err(e) => Err(e),
                        Ok(rest) => Ok((seq![(key, value)] + rest.0, rest.1)),
                    },
                }
            },
        }
    }
}

#[via_fn]
proof fn kv_section_decreases(d: Seq<u8>, p: int) {
    if 0 <= p < d.len() {
        lemma_cstr_end_bounds(d, p);
        lemma_cstr_end_bounds(d, after(d, p));
    }
}

/// The strings that start at `p`, up to an empty one.
pub open spec fn name_list(d: Seq<u8>, p: int) -> Result<Seq<Seq<char>>, QueryProtocolError>
    decreases d.len() + 1 - p,
    via name_list_decreases
{
    if p < 0 || p >= d.len() {
        Ok(Seq::empty())
    } else {
        match text_at(d, p) {
            Err(e) => Err(e),
            Ok(name) => if name.len() == 0 {
                Ok(Seq::empty())
            } else {
                match name_list(d, after(d, p)) {
                    Err(e) => Err(e),
                    Ok(rest) => Ok(seq![name] + rest),
                }
            },
        }
    }
}

#[via_fn]
proof fn name_list_decreases(d: Seq<u8>, p: int) {
    if 0 <= p < d.len() {
        lemma_cstr_end_bounds(d, p);
    }
}

/// The value that the last pair with key `key` holds, as a later pair with a
/// key replaces an earlier one.
pub open spec fn kv_lookup(pairs: Seq<(Seq<char>, Seq<char>)>, key: Seq<char>) -> Option<Seq<char>>
    decreases pairs.len(),
{
    if pairs.len() == 0 {
        None
    } else if pairs.last().0 == key {
        Some(pairs.last().1)
    } else {
        kv_lookup(pairs.drop_last(), key)
    }
}

/// A required value of the key/value section.
pub open spec fn required(v: Option<Seq<char>>) -> Result<Seq<char>, QueryProtocolError> {
    match v {
        Some(t) => Ok(t),
        None => Err(QueryProtocolError::InvalidKeyValueSection),
    }
}

/// A required value of the key/value section that writes a number from zero
/// to `max` in decimal.
pub open spec fn required_count(v: Option<Seq<char>>, max: int) -> Result<int, QueryProtocolError> {
    match v {
        None => Err(QueryProtocolError::InvalidKeyValueSection),
        Some(t) => match parse_int_spec(vstd::utf8::encode_utf8(t), false, 0, max) {
            Some(n) => Ok(n),
            None => Err(QueryProtocolError::CannotParseInt),
        },
    }
}

/// The content of a full stat reply, or the first thing wrong with it: the
/// header; eleven bytes of padding; the key/value section, from which the
/// required keys are taken in a fixed order; ten bytes of padding; the list
/// of player names.
pub open spec fn full_stat_spec(d: Seq<u8>, session: i32) -> Result<FullStatView, QueryProtocolError> {
    let header = header_check(d, QueryPacketType::Stat, session);
    let kv = kv_section(d, 16);
    let pairs = kv->Ok_0.0;
    let motd = required(kv_lookup(pairs, "hostname"@));
    let game_type = required(kv_lookup(pairs, "gametype"@));
    let game_id = required(kv_lookup(pairs, "game_id"@));
    let version = required(kv_lookup(pairs, "version"@));
    let plugins = required(kv_lookup(pairs, "plugins"@));
    let map = required(kv_lookup(pairs, "map"@));
    let num = required_count(kv_lookup(pairs, "numplayers"@), usize::MAX as int);
    let max = required_count(kv_lookup(pairs, "maxplayers"@), usize::MAX as int);
    let port = required_count(kv_lookup(pairs, "hostport"@), u16::MAX as int);
    let ip = required(kv_lookup(pairs, "hostip"@));
    let players = name_list(d, kv->Ok_0.1 + 10);
    if header is Err {
        Err(header->Err_0)
    } else if kv is Err {
        Err(kv->Err_0)
    } else if motd is Err {
        Err(motd->Err_0)
    } else if game_type is Err {
        Err(game_type->Err_0)
    } else if game_id is Err {
        Err(game_id->Err_0)
    } else if version is Err {
        Err(version->Err_0)
    } else if plugins is Err {
        Err(plugins->Err_0)
    } else if map is Err {
        Err(map->Err_0)
    } else if num is Err {
        Err(num->Err_0)
    } else if max is Err {
        Err(max->Err_0)
    } else if port is Err {
        Err(port->Err_0)
    } else if ip is Err {
        Err(ip->Err_0)
    } else if players is Err {
        Err(players->Err_0)
    } else {
        Ok(
            FullStatView {
                motd: motd->Ok_0,
                game_type: game_type->Ok_0,
                game_id: game_id->Ok_0,
                version: version->Ok_0,
                plugins: plugins->Ok_0,
                map: map->Ok_0,
                num_players: num->Ok_0,
                max_players: max->Ok_0,
                host_port: port->Ok_0,
                host_ip: ip->Ok_0,
                players: players->Ok_0,
            },
        )
    }
}

/// The texts of a sequence of key/value pairs.
pub open spec fn pair_texts(v: Seq<(String, String)>) -> Seq<(Seq<char>, Seq<char>)> {
    v.map_values(|p: (String, String)| (p.0@, p.1@))
}

/// The value of the last pair whose key is `key`.
fn kv_get(pairs: &Vec<(String, String)>, key: &str) -> (r: Option<String>)
    ensures
        match r {
            Some(v) => kv_lookup(pair_texts(pairs@), key@) == Some(v@),
            None => kv_lookup(pair_texts(pairs@), key@) is None,
        },
{
    let mut i: usize = pairs.len();
    assert(pairs@.take(i as int) =~= pairs@);
    while i > 0
        invariant
            i <= pairs@.len(),
            kv_lookup(pair_texts(pairs@), key@) == kv_lookup(pair_texts(pairs@.take(i as int)), key@),
        decreases i,
    {
        let ghost pre = pair_texts(pairs@.take(i as int));
        assert(pair_texts(pairs@.take(i - 1)) =~= pre.drop_last());
        if same_text(pairs[i - 1].0.as_str(), key) {
            return Some(pairs[i - 1].1.clone());
        }
        i = i - 1;
    }
    None
}

/// A required value, taken from the key/value pairs.
fn take_required(pairs: &Vec<(String, String)>, key: &str) -> (r: Result<String, QueryProtocolError>)
    ensures
        match r {
            Ok(v) => required(kv_lookup(pair_texts(pairs@), key@)) == Ok::<Seq<char>, QueryProtocolError>(v@),
            Err(e) => required(kv_lookup(pair_texts(pairs@), key@)) == Err::<Seq<char>, QueryProtocolError>(e),
        },
{
    match kv_get(pairs, key) {
        Some(v) => Ok(v),
        None => Err(QueryProtocolError::InvalidKeyValueSection),
    }
}

/// A required count, taken from the key/value pairs.
fn take_count(pairs: &Vec<(String, String)>, key: &str) -> (r: Result<usize, QueryProtocolError>)
    ensures
        match r {
            Ok(v) => required_count(kv_lookup(pair_texts(pairs@), key@), usize::MAX as int) == Ok::<int, QueryProtocolError>(v as int),
            Err(e) => required_count(kv_lookup(pair_texts(pairs@), key@), usize::MAX as int) == Err::<int, QueryProtocolError>(e),
        },
{
    match kv_get(pairs, key) {
        Some(v) => match parse_usize(v.as_str().as_bytes()) {
            Some(n) => Ok(n),
            None => Err(QueryProtocolError::CannotParseInt),
        },
        None => Err(QueryProtocolError::InvalidKeyValueSection),
    }
}

/// A required port number, taken from the key/value pairs.
fn take_port(pairs: &Vec<(String, String)>, key: &str) -> (r: Result<u16, QueryProtocolError>)
    ensures
        match r {
            Ok(v) => required_count(kv_lookup(pair_texts(pairs@), key@), u16::MAX as int) == Ok::<int, QueryProtocolError>(v as int),
            Err(e) => required_count(kv_lookup(pair_texts(pairs@), key@), u16::MAX as int) == Err::<int, QueryProtocolError>(e),
        },
{
    match kv_get(pairs, key) {
        Some(v) => match parse_u16(v.as_str().as_bytes()) {
            Some(n) => Ok(n),
            None => Err(QueryProtocolError::CannotParseInt),
        },
        None => Err(QueryProtocolError::InvalidKeyValueSection),
    }
}

/// The key/value pairs of `prefix`, put before those of a section's rest.
pub open spec fn after_pairs(
    prefix: Seq<(Seq<char>, Seq<char>)>,
    rest: Result<(Seq<(Seq<char>, Seq<char>)>, int), QueryProtocolError>,
) -> Result<(Seq<(Seq<char>, Seq<char>)>, int), QueryProtocolError> {
    match rest {
        Ok(r) => Ok((prefix + r.0, r.1)),
        Err(e) => Err(e),
    }
}

/// The names of `prefix`, put before those of a list's rest.
pub open spec fn after_names(prefix: Seq<Seq<char>>, rest: Result<Seq<Seq<char>>, QueryProtocolError>) -> Result<
    Seq<Seq<char>>,
    QueryProtocolError,
> {
    match rest {
        Ok(r) => Ok(prefix + r),
        Err(e) => Err(e),
    }
}

/// Reads the key/value section that starts at `start`.
fn read_kv_section(d: &[u8], start: usize) -> (r: Result<(Vec<(String, String)>, usize), QueryProtocolError>)
    requires
        d@.len() <= MAX_DATAGRAM,
        start <= MAX_DATAGRAM + 32,
    ensures
        match r {
            Ok((pairs, end)) => kv_section(d@, start as int) == Ok::<
                (Seq<(Seq<char>, Seq<char>)>, int),
                QueryProtocolError,
            >((pair_texts(pairs@), end as int)) && end <= MAX_DATAGRAM + 33,
            Err(e) => kv_section(d@, start as int) == Err::<
                (Seq<(Seq<char>, Seq<char>)>, int),
                QueryProtocolError,
            >(e),
        },
{
    let mut pairs: Vec<(String, String)> = Vec::new();
    let mut p: usize = start;
    loop
        invariant
            d@.len() <= MAX_DATAGRAM,
            start <= p <= MAX_DATAGRAM + 32,
            p <= start || p <= d@.len() + 2,
            kv_section(d@, start as int) == after_pairs(pair_texts(pairs@), kv_section(d@, p as int)),
        decreases d@.len() + 2 - p,
    {
        proof {
            lemma_cstr_end_bounds(d@, p as int);
        }
        let (key, q) = read_text(d, p);
        let key = match key {
            Ok(k) => k,
            Err(e) => {
                return Err(e);
            },
        };
        if key.as_str().is_empty() {
            assert(kv_section(d@, p as int) == Ok::<(Seq<(Seq<char>, Seq<char>)>, int), QueryProtocolError>((Seq::empty(), q as int)));
            assert(pair_texts(pairs@) + Seq::empty() =~= pair_texts(pairs@));
            return Ok((pairs, q));
        }
        proof {
            lemma_cstr_end_bounds(d@, q as int);
        }
        let (value, next) = read_text(d, q);
        let value = match value {
            Ok(v) => v,
            Err(e) => {
                return Err(e);
            },
        };
        let ghost before = pair_texts(pairs@);
        pairs.push((key, value));
        proof {
            assert(pair_texts(pairs@) =~= before.push((key@, value@)));
            let rest = kv_section(d@, next as int);
            match rest {
                Ok(r) => {
                    assert(before + (seq![(key@, value@)] + r.0) =~= pair_texts(pairs@) + r.0);
                },
                Err(_) => {},
            }
        }
        p = next;
    }
}

/// Reads the list of names that starts at `start`.
fn read_names(d: &[u8], start: usize) -> (r: Result<Vec<String>, QueryProtocolError>)
    requires
        d@.len() <= MAX_DATAGRAM,
        start <= MAX_DATAGRAM + 48,
    ensures
        match r {
            Ok(names) => name_list(d@, start as int) == Ok::<Seq<Seq<char>>, QueryProtocolError>(texts(names@)),
            Err(e) => name_list(d@, start as int) == Err::<Seq<Seq<char>>, QueryProtocolError>(e),
        },
{
    let mut names: Vec<String> = Vec::new();
    let mut p: usize = start;
    loop
        invariant
            d@.len() <= MAX_DATAGRAM,
            start <= p <= MAX_DATAGRAM + 48,
            p <= start || p <= d@.len() + 1,
            name_list(d@, start as int) == after_names(texts(names@), name_list(d@, p as int)),
        decreases d@.len() + 1 - p,
    {
        proof {
            lemma_cstr_end_bounds(d@, p as int);
        }
        let (name, next) = read_text(d, p);
        let name = match name {
            Ok(n) => n,
            Err(e) => {
                return Err(e);
            },
        };
        if name.as_str().is_empty() {
            assert(name_list(d@, p as int) == Ok::<Seq<Seq<char>>, QueryProtocolError>(Seq::empty()));
            assert(texts(names@) + Seq::empty() =~= texts(names@));
            return Ok(names);
        }
        let ghost before = texts(names@);
        names.push(name);
        proof {
            assert(texts(names@) =~= before.push(name@));
            match name_list(d@, next as int) {
                Ok(r) => {
                    assert(before + (seq![name@] + r) =~= texts(names@) + r);
                },
                Err(_) => {},
            }
        }
        p = next;
    }
}

/// The full stat reply `d` to the session `session`.
pub fn parse_full_stat(d: &[u8], session: i32) -> (r: Result<FullStatResponse, QueryProtocolError>)
    requires
        d@.len() <= MAX_DATAGRAM,
    ensures
        match r {
            Ok(s) => full_stat_spec(d@, session) == Ok::<FullStatView, QueryProtocolError>(s@),
            Err(e) => full_stat_spec(d@, session) == Err::<FullStatView, QueryProtocolError>(e),
        },
{
    check_header(d, QueryPacketType::Stat, session)?;
    // eleven bytes of padding follow the header
    let (pairs, end) = read_kv_section(d, 16)?;
    let motd = take_required(&pairs, "hostname")?;
    let game_type = take_required(&pairs, "gametype")?;
    let game_id = take_required(&pairs, "game_id")?;
    let version = take_required(&pairs, "version")?;
    let plugins = take_required(&pairs, "plugins")?;
    let map = take_required(&pairs, "map")?;
    let num_players = take_count(&pairs, "numplayers")?;
    let max_players = take_count(&pairs, "maxplayers")?;
    let host_port = take_port(&pairs, "hostport")?;
    let host_ip = take_required(&pairs, "hostip")?;
    // ten bytes of padding come before the player list
    let players = read_names(d, end + 10)?;
    Ok(
        FullStatResponse {
            motd,
            game_type,
            game_id,
            version,
            plugins,
            map,
            num_players,
            max_players,
            host_port,
            host_ip,
            players,
        },
    )
}

/// The number of stat exchanges a query makes before it gives up: a reply
/// that does not come in time is taken to mean that the challenge token
/// expired, and the handshake and the request are made once more.
pub const STAT_ATTEMPTS: u32 = 2;

/// Whether a stat exchange whose reply did not come in time starts over,
/// after `attempts` exchanges so far: only after the first.
pub fn retry_after_timeout(attempts: u32) -> (r: bool)
    ensures
        r == (attempts < STAT_ATTEMPTS),
{
    attempts < STAT_ATTEMPTS
}

/// A full stat reply whose key/value section lacks `hostport` is rejected
/// as an invalid key/value section, unless a check that comes before that
/// key failed first (the header, the text of the section, the two player
/// counts).
pub proof fn lemma_missing_hostport_rejected(d: Seq<u8>, session: i32)
    requires
        header_check(d, QueryPacketType::Stat, session) is Ok,
        kv_section(d, 16) is Ok,
        kv_lookup(kv_section(d, 16)->Ok_0.0, "hostport"@) is None,
        required_count(kv_lookup(kv_section(d, 16)->Ok_0.0, "numplayers"@), usize::MAX as int)
            != Err::<int, QueryProtocolError>(QueryProtocolError::CannotParseInt),
        required_count(kv_lookup(kv_section(d, 16)->Ok_0.0, "maxplayers"@), usize::MAX as int)
            != Err::<int, QueryProtocolError>(QueryProtocolError::CannotParseInt),
    ensures
        full_stat_spec(d, session) == Err::<FullStatView, QueryProtocolError>(
            QueryProtocolError::InvalidKeyValueSection,
        ),
{
}

} // verus!
