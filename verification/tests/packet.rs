//! Packet construction and the primitive scalar reads and writes over its
//! payload, including the string and UUID round trips.

use mc_proto::{DataCursor, DataReader, DataWriter, Packet, ProtocolError};
use uuid::Uuid;

#[test]
fn packet_scalar_round_trip() -> Result<(), ProtocolError> {
    let uuid_value = Uuid::try_parse("550e8400-e29b-41d4-a716-446655440000")
        .map_err(|_| ProtocolError::CloneError)?
        .as_u128();
    let mut packet = Packet::build(0xfe, |mut pack| {
        pack.write_boolean(true)?;
        pack.write_byte(0x12)?;
        pack.write_bytes(&[0x01, 0x56, 0x47, 0x48, 0xf5, 0xc2, 0x45, 0x98, 0xde, 0x99])?;
        pack.write_i128_varint(468927513325566)?;
        pack.write_u128_varint(99859652365236523)?;
        pack.write_int(77861346i32)?;
        pack.write_long(789465123545678946i64)?;
        pack.write_short(1233i16)?;
        pack.write_unsigned_short(50000u16)?;
        pack.write_uuid(uuid_value)?;
        pack.write_string("&packet.read_string()?")?;
        Ok(pack)
    })?;

    assert_eq!(packet.id(), 0xfe);
    assert_eq!(packet.read_boolean()?, true);
    assert_eq!(packet.read_byte()?, 0x12);
    assert_eq!(
        packet.read_bytes(10)?,
        vec![0x01, 0x56, 0x47, 0x48, 0xf5, 0xc2, 0x45, 0x98, 0xde, 0x99]
    );
    assert_eq!(packet.read_i128_varint()?, 468927513325566);
    assert_eq!(packet.read_u128_varint()?, 99859652365236523);
    assert_eq!(packet.read_int()?, 77861346i32);
    assert_eq!(packet.read_long()?, 789465123545678946i64);
    assert_eq!(packet.read_short()?, 1233i16);
    assert_eq!(packet.read_unsigned_short()?, 50000u16);
    assert_eq!(packet.read_uuid()?, uuid_value);
    assert_eq!(packet.read_string()?, "&packet.read_string()?");
    assert!(packet.is_empty());
    Ok(())
}

#[test]
fn negative_scalars_round_trip() -> Result<(), ProtocolError> {
    let mut packet = Packet::empty(0x01);
    packet.write_short(-1233)?;
    packet.write_int(-77861346)?;
    packet.write_long(-789465123545678946)?;
    packet.write_short(i16::MIN)?;
    packet.write_int(i32::MIN)?;
    packet.write_long(i64::MIN)?;
    assert_eq!(packet.read_short()?, -1233);
    assert_eq!(packet.read_int()?, -77861346);
    assert_eq!(packet.read_long()?, -789465123545678946);
    assert_eq!(packet.read_short()?, i16::MIN);
    assert_eq!(packet.read_int()?, i32::MIN);
    assert_eq!(packet.read_long()?, i64::MIN);
    Ok(())
}

#[test]
fn signed_varints_round_trip() -> Result<(), ProtocolError> {
    let mut packet = Packet::empty(0x01);
    for value in [i32::MIN, -1, 0, 1, i32::MAX] {
        packet.write_i32_varint(value)?;
        assert_eq!(packet.read_i32_varint()?, value);
    }
    for value in [i8::MIN, -1, 0, 1, i8::MAX] {
        packet.write_i8_varint(value)?;
        assert_eq!(packet.read_i8_varint()?, value);
    }
    for value in [i64::MIN, -1, 0, 1, i64::MAX] {
        packet.write_i64_varint(value)?;
        assert_eq!(packet.read_i64_varint()?, value);
    }
    for value in [i16::MIN, -1, 0, 1, i16::MAX] {
        packet.write_i16_varint(value)?;
        assert_eq!(packet.read_i16_varint()?, value);
    }
    for value in [isize::MIN, -1, 0, 1, isize::MAX] {
        packet.write_isize_varint(value)?;
        assert_eq!(packet.read_isize_varint()?, value);
    }
    Ok(())
}

#[test]
fn big_endian_wire_bytes() -> Result<(), ProtocolError> {
    let mut packet = Packet::empty(0x00);
    packet.write_int(0x01020304)?;
    packet.write_unsigned_short(0xA1B2)?;
    assert_eq!(
        packet.get_bytes(),
        &[0x01, 0x02, 0x03, 0x04, 0xA1, 0xB2]
    );
    Ok(())
}

#[test]
fn string_multibyte_utf8_round_trip() -> Result<(), ProtocolError> {
    let text = "héllo \u{2713} \u{4e16}\u{754c}";
    let mut packet = Packet::empty(0x05);
    packet.write_string(text)?;
    assert_eq!(packet.get_bytes().len(), 1 + text.len());
    assert_eq!(&packet.get_bytes()[1..], text.as_bytes());
    assert_eq!(packet.read_string()?, text);
    Ok(())
}

#[test]
fn string_invalid_utf8_rejected() {
    let mut cur = DataCursor::new(vec![0x02, 0xFF, 0xFE]);
    assert_eq!(cur.read_string(), Err(ProtocolError::StringParseError));
    assert_eq!(cur.remaining(), 0);
}

#[test]
fn uuid_wire_bytes() -> Result<(), ProtocolError> {
    let parsed = Uuid::try_parse("550e8400-e29b-41d4-a716-446655440000")
        .map_err(|_| ProtocolError::CloneError)?;
    let mut packet = Packet::empty(0x05);
    packet.write_uuid(parsed.as_u128())?;
    assert_eq!(packet.get_bytes(), parsed.as_bytes());
    assert_eq!(packet.read_uuid()?, parsed.as_u128());
    Ok(())
}

#[test]
fn from_data_splits_id_and_payload() -> Result<(), ProtocolError> {
    let packet = Packet::from_data(&[0x12, 0xAA, 0xBB])?;
    assert_eq!(packet.id(), 0x12);
    assert_eq!(packet.get_bytes(), &[0xAA, 0xBB]);

    // a two-byte id encoding
    let packet = Packet::from_data(&[0xFE, 0x01, 0x07])?;
    assert_eq!(packet.id(), 0xFE);
    assert_eq!(packet.get_bytes(), &[0x07]);
    Ok(())
}

#[test]
fn from_data_empty_is_an_error() {
    assert_eq!(
        Packet::from_data(&[]).map(|p| p.id()),
        Err(ProtocolError::ConnectionClosedError)
    );
}

#[test]
fn packet_accessors() -> Result<(), ProtocolError> {
    let mut packet = Packet::from_bytes(0x21, &[1, 2, 3, 4]);
    assert_eq!(packet.len(), 4);
    assert!(!packet.is_empty());
    packet.set_id(0x22);
    assert_eq!(packet.id(), 0x22);
    let _ = packet.read_bytes(3)?;
    assert_eq!(packet.len(), 1);

    let mut other = Packet::new(0x30, DataCursor::new(vec![9, 8]));
    other.set_cursor(DataCursor::new(vec![7]));
    assert_eq!(other.read_byte()?, 7);

    let cursor = packet.into_inner();
    assert_eq!(cursor.get_ref().as_slice(), &[1, 2, 3, 4]);
    Ok(())
}

#[test]
fn reading_past_end_reports_closed() {
    let mut packet = Packet::from_bytes(0x01, &[1, 2]);
    assert_eq!(
        packet.read_bytes(3),
        Err(ProtocolError::ConnectionClosedError)
    );
    assert_eq!(packet.len(), 0);
}
