//! VarInt encoding round trips, byte counts, and malformed-chain rejection.

use mc_proto::{DataCursor, DataReader, DataWriter, ProtocolError};

fn cursor_with(bytes: &[u8]) -> DataCursor {
    DataCursor::new(bytes.to_vec())
}

#[test]
fn varint_u8_round_trip() -> Result<(), ProtocolError> {
    for (value, size) in [(0u8, 1usize), (1, 1), (127, 1), (128, 2), (u8::MAX, 2)] {
        let mut cur = DataCursor::empty();
        cur.write_u8_varint(value)?;
        let (back, read_size) = cur.read_u8_varint_size()?;
        assert_eq!(back, value);
        assert_eq!(read_size, size);
    }
    Ok(())
}

#[test]
fn varint_u16_round_trip() -> Result<(), ProtocolError> {
    for (value, size) in [(0u16, 1usize), (1, 1), (127, 1), (128, 2), (16383, 2), (16384, 3), (u16::MAX, 3)] {
        let mut cur = DataCursor::empty();
        cur.write_u16_varint(value)?;
        let (back, read_size) = cur.read_u16_varint_size()?;
        assert_eq!(back, value);
        assert_eq!(read_size, size);
    }
    Ok(())
}

#[test]
fn varint_u32_round_trip() -> Result<(), ProtocolError> {
    for (value, size) in [(0u32, 1usize), (1, 1), (127, 1), (128, 2), (16383, 2), (u32::MAX, 5)] {
        let mut cur = DataCursor::empty();
        cur.write_u32_varint(value)?;
        let (back, read_size) = cur.read_u32_varint_size()?;
        assert_eq!(back, value);
        assert_eq!(read_size, size);
    }
    Ok(())
}

#[test]
fn varint_u64_round_trip() -> Result<(), ProtocolError> {
    for (value, size) in [(0u64, 1usize), (1, 1), (127, 1), (128, 2), (16383, 2), (u64::MAX, 10)] {
        let mut cur = DataCursor::empty();
        cur.write_u64_varint(value)?;
        let (back, read_size) = cur.read_u64_varint_size()?;
        assert_eq!(back, value);
        assert_eq!(read_size, size);
    }
    Ok(())
}

#[test]
fn varint_u128_round_trip() -> Result<(), ProtocolError> {
    for (value, size) in [(0u128, 1usize), (1, 1), (127, 1), (128, 2), (16383, 2), (u128::MAX, 19)] {
        let mut cur = DataCursor::empty();
        cur.write_u128_varint(value)?;
        let (back, read_size) = cur.read_u128_varint_size()?;
        assert_eq!(back, value);
        assert_eq!(read_size, size);
    }
    Ok(())
}

#[test]
fn varint_usize_round_trip() -> Result<(), ProtocolError> {
    for (value, size) in [(0usize, 1usize), (1, 1), (127, 1), (128, 2), (16383, 2)] {
        let mut cur = DataCursor::empty();
        cur.write_usize_varint(value)?;
        let (back, read_size) = cur.read_usize_varint_size()?;
        assert_eq!(back, value);
        assert_eq!(read_size, size);
    }
    Ok(())
}

#[test]
fn varint_known_bytes() -> Result<(), ProtocolError> {
    let mut cur = DataCursor::empty();
    cur.write_u32_varint(300)?;
    assert_eq!(cur.get_ref().as_slice(), &[0xAC, 0x02]);
    let mut cur = DataCursor::empty();
    cur.write_u32_varint(0)?;
    assert_eq!(cur.get_ref().as_slice(), &[0x00]);
    Ok(())
}

#[test]
fn varint_malformed_rejected_u8() {
    let mut cur = cursor_with(&[0x80, 0x80, 0x80]);
    assert_eq!(cur.read_u8_varint(), Err(ProtocolError::VarIntError));
}

#[test]
fn varint_malformed_rejected_u16() {
    let mut cur = cursor_with(&[0x80, 0x80, 0x80, 0x80]);
    assert_eq!(cur.read_u16_varint(), Err(ProtocolError::VarIntError));
}

#[test]
fn varint_malformed_rejected_u32() {
    let mut cur = cursor_with(&[0x80; 6]);
    assert_eq!(cur.read_u32_varint(), Err(ProtocolError::VarIntError));
}

#[test]
fn varint_malformed_rejected_u64() {
    let mut cur = cursor_with(&[0x80; 11]);
    assert_eq!(cur.read_u64_varint(), Err(ProtocolError::VarIntError));
}

#[test]
fn varint_malformed_rejected_u128() {
    let mut cur = cursor_with(&[0x80; 20]);
    assert_eq!(cur.read_u128_varint(), Err(ProtocolError::VarIntError));
}

#[test]
fn varint_truncated_reports_closed() {
    let mut cur = cursor_with(&[0x80, 0x80]);
    assert_eq!(
        cur.read_u32_varint(),
        Err(ProtocolError::ConnectionClosedError)
    );
}

#[test]
fn varint_malformed_bounded_consumption() {
    // the width is checked before another byte would be taken: a u32 chain is
    // refused after exactly ceil(32 / 7) = 5 bytes, leaving the rest unread
    let mut cur = cursor_with(&[0x80, 0x80, 0x80, 0x80, 0x80, 0x80]);
    assert_eq!(cur.read_u32_varint(), Err(ProtocolError::VarIntError));
    assert_eq!(cur.position(), 5);
    assert_eq!(cur.remaining(), 1);
}

#[test]
fn varint_full_width_chain_is_malformed_not_closed() {
    // exactly ceil(W/7) continuation bytes and then end of data: the chain
    // already fills the width, so this is the malformed error, not a short
    // read
    let mut cur = cursor_with(&[0x80, 0x80]);
    assert_eq!(cur.read_u8_varint(), Err(ProtocolError::VarIntError));
    let mut cur = cursor_with(&[0x80; 5]);
    assert_eq!(cur.read_u32_varint(), Err(ProtocolError::VarIntError));
}
