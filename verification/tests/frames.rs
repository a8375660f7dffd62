//! Wire framing: both framing modes, the zero-length sentinel, and the
//! compressed frame's declared length, checked against the raw wire bytes.

use mc_proto::{read_packet, write_packet, DataCursor, DataReader, DataWriter, Packet,
    ProtocolError};
use std::io::Read;

const PAYLOAD: &[u8] = b"1234567890qwertyuiopasdfghjklzxcvbnm";

#[test]
fn frame_round_trip_uncompressed() -> Result<(), ProtocolError> {
    let packet = Packet::from_bytes(0x12, PAYLOAD);
    let mut wire = DataCursor::empty();
    write_packet(&mut wire, None, 1, &packet)?;

    // frame_length (37) || packet_id || payload
    assert_eq!(wire.get_ref().len(), 38);
    assert_eq!(wire.get_ref()[0], 37);
    assert_eq!(wire.get_ref()[1], 0x12);
    assert_eq!(&wire.get_ref()[2..], PAYLOAD);

    let mut back = read_packet(&mut wire, None)?;
    assert_eq!(back.id(), 0x12);
    assert_eq!(back.read_bytes(36)?, PAYLOAD.to_vec());
    Ok(())
}

#[test]
fn frame_round_trip_compressed_below_threshold() -> Result<(), ProtocolError> {
    let packet = Packet::from_bytes(0x07, &[0xAB]);
    let mut wire = DataCursor::empty();
    write_packet(&mut wire, Some(5), 1, &packet)?;

    // frame_length (3) || data_length sentinel (0) || packet_id || payload
    assert_eq!(wire.get_ref().as_slice(), &[3, 0, 0x07, 0xAB]);

    let mut back = read_packet(&mut wire, Some(5))?;
    assert_eq!(back.id(), 0x07);
    assert_eq!(back.read_bytes(1)?, vec![0xAB]);
    Ok(())
}

#[test]
fn frame_round_trip_compressed_above_threshold() -> Result<(), ProtocolError> {
    let packet = Packet::from_bytes(0x12, PAYLOAD);
    let mut wire = DataCursor::empty();
    write_packet(&mut wire, Some(5), 1, &packet)?;

    let bytes = wire.get_ref().clone();
    // frame_length fits one byte here; data_length is the uncompressed length
    // of packet_id || payload, which is 37.
    let frame_length = bytes[0] as usize;
    assert_eq!(bytes.len(), 1 + frame_length);
    assert_eq!(bytes[1], 37);
    // the rest is a zlib stream of exactly data_length bytes of content
    let mut decoder = flate2::read::ZlibDecoder::new(&bytes[2..]);
    let mut plain = Vec::new();
    decoder
        .read_to_end(&mut plain)
        .map_err(|_| ProtocolError::ZlibError)?;
    assert_eq!(plain.len(), 37);
    assert_eq!(plain[0], 0x12);
    assert_eq!(&plain[1..], PAYLOAD);

    let mut back = read_packet(&mut wire, Some(5))?;
    assert_eq!(back.id(), 0x12);
    assert_eq!(back.read_bytes(36)?, PAYLOAD.to_vec());
    Ok(())
}

#[test]
fn frame_decode_ignores_threshold_value() -> Result<(), ProtocolError> {
    let packet = Packet::from_bytes(0x05, PAYLOAD);
    let mut wire = DataCursor::empty();
    write_packet(&mut wire, Some(5), 1, &packet)?;
    // a reader with a different threshold still decodes the frame
    let mut back = read_packet(&mut wire, Some(1000))?;
    assert_eq!(back.id(), 0x05);
    assert_eq!(back.read_bytes(36)?, PAYLOAD.to_vec());
    Ok(())
}

#[test]
fn frame_compressed_length_mismatch_is_fatal() -> Result<(), ProtocolError> {
    // a frame whose declared data_length does not match what the zlib stream
    // inflates to: declared 5, actual content 3 bytes
    let mut inner: Vec<u8> = vec![5];
    let mut encoder =
        flate2::write::ZlibEncoder::new(Vec::new(), flate2::Compression::new(1));
    std::io::Write::write_all(&mut encoder, &[0x01, 0x02, 0x03])
        .map_err(|_| ProtocolError::ZlibError)?;
    let compressed = encoder.finish().map_err(|_| ProtocolError::ZlibError)?;
    inner.extend_from_slice(&compressed);

    let mut wire_bytes: Vec<u8> = vec![inner.len() as u8];
    wire_bytes.extend_from_slice(&inner);
    let mut wire = DataCursor::new(wire_bytes);
    assert_eq!(
        read_packet(&mut wire, Some(5)).map(|p| p.id()),
        Err(ProtocolError::ZlibError)
    );
    Ok(())
}

#[test]
fn frame_compressed_garbage_is_fatal() {
    // declared data_length 4, followed by bytes that are no zlib stream
    let mut wire = DataCursor::new(vec![4, 4, 0xDE, 0xAD, 0xBE]);
    assert_eq!(
        read_packet(&mut wire, Some(5)).map(|p| p.id()),
        Err(ProtocolError::ZlibError)
    );
}

#[test]
fn frame_length_varint_malformed() {
    let mut wire = DataCursor::new(vec![0x80; 11]);
    assert_eq!(
        read_packet(&mut wire, None).map(|p| p.id()),
        Err(ProtocolError::VarIntError)
    );
}

#[test]
fn frame_truncated_reports_closed() {
    // frame_length says ten bytes, only two follow
    let mut wire = DataCursor::new(vec![10, 0x01, 0x02]);
    assert_eq!(
        read_packet(&mut wire, None).map(|p| p.id()),
        Err(ProtocolError::ConnectionClosedError)
    );
}
