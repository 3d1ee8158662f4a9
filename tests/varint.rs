use mc_query::errors::MinecraftProtocolError;
use mc_query::varint::{decode_varint, varint_incomplete, VarInt};

fn cases() -> Vec<(i32, &'static [u8])> {
    vec![
        (0, b"\x00".as_slice()),
        (1, b"\x01"),
        (2, b"\x02"),
        (127, b"\x7f"),
        (128, b"\x80\x01"),
        (255, b"\xff\x01"),
        (25565, b"\xdd\xc7\x01"),
        (2097151, b"\xff\xff\x7f"),
        (i32::MAX, b"\xff\xff\xff\xff\x07"),
        (-1, b"\xff\xff\xff\xff\x0f"),
        (i32::MIN, b"\x80\x80\x80\x80\x08"),
    ]
}

#[test]
fn test_into_varint() {
    for (k, v) in cases() {
        let varint: VarInt = VarInt::from(k);
        assert_eq!(varint.bytes().len(), v.len());
        assert_eq!(varint.bytes(), v);
    }
}

#[test]
fn test_from_varint() {
    for (k, v) in cases() {
        let varint = VarInt::new(v.to_vec());
        let x: Result<i32, _> = varint.try_into();

        if let Err(MinecraftProtocolError::InvalidVarInt) = x {
            panic!("{k} as VarInt returned Err during conversion");
        }
        let x = x.unwrap();

        assert_eq!(x, k);
    }
}

#[test]
fn varint_round_trip_on_sampled_values() {
    let mut v: i64 = i32::MIN as i64;
    while v <= i32::MAX as i64 {
        let x = v as i32;
        let bytes = VarInt::from(x).bytes();
        assert!(!bytes.is_empty() && bytes.len() <= 5);
        assert_eq!(decode_varint(&bytes), Ok((x, bytes.len())));
        v += 9_999_991;
    }
}

#[test]
fn six_continuation_bytes_are_invalid() {
    let bytes = [0x80u8, 0x80, 0x80, 0x80, 0x80, 0x80];
    assert_eq!(decode_varint(&bytes), Err(MinecraftProtocolError::InvalidVarInt));
    assert_eq!(VarInt::new(bytes.to_vec()).try_into(), Err(MinecraftProtocolError::InvalidVarInt));
}

#[test]
fn five_continuation_bytes_are_invalid_whatever_follows() {
    let bytes = [0xffu8, 0xff, 0xff, 0xff, 0xff, 0x01];
    assert_eq!(decode_varint(&bytes), Err(MinecraftProtocolError::InvalidVarInt));
}

#[test]
fn decode_stops_at_the_last_byte() {
    assert_eq!(decode_varint(&[0xdd, 0xc7, 0x01, 0x42, 0x99]), Ok((25565, 3)));
    assert_eq!(decode_varint(&[0x00, 0x80]), Ok((0, 1)));
}

#[test]
fn truncated_varint_is_invalid() {
    assert_eq!(decode_varint(&[0x80, 0x80]), Err(MinecraftProtocolError::InvalidVarInt));
    assert_eq!(decode_varint(&[]), Err(MinecraftProtocolError::InvalidVarInt));
}

#[test]
fn incomplete_varint_needs_more_bytes() {
    assert!(varint_incomplete(&[]));
    assert!(varint_incomplete(&[0x80, 0xff]));
    assert!(!varint_incomplete(&[0x80, 0x01]));
    assert!(!varint_incomplete(&[0x80, 0x80, 0x80, 0x80, 0x80]));
}

#[test]
fn varint_length_of_encoding() {
    assert_eq!(VarInt::from(300).len(), 2);
    assert_eq!(VarInt::from(-1).len(), 5);
}
