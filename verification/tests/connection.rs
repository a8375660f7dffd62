//! The connection: framing over an in-memory stream, fast failure once
//! closed, peer-shutdown detection, and the visibility of shared compression
//! and liveness state across duplicated handles.

use mc_proto::{DataCursor, DataReader, DataWriter, MCConn, MinecraftConnection, Packet,
    ProtocolError};

#[test]
fn test_compression() -> Result<(), ProtocolError> {
    let mut conn = MCConn::new(DataCursor::empty());
    conn.set_compression(Some(5));

    let mut packet_1 = Packet::empty(0x12);
    packet_1.write_bytes(b"1234567890qwertyuiopasdfghjklzxcvbnm")?;
    conn.write_packet(&packet_1)?;

    let mut packet_2 = conn.read_packet()?;

    assert_eq!(
        packet_2.read_bytes(36)?,
        b"1234567890qwertyuiopasdfghjklzxcvbnm"
    );

    Ok(())
}

#[test]
fn uncompressed_loopback() -> Result<(), ProtocolError> {
    let mut conn = MinecraftConnection::new(DataCursor::empty());
    assert_eq!(conn.compression(), None);

    let mut packet = Packet::empty(0x21);
    packet.write_string("ping")?;
    conn.write_packet(&packet)?;

    let mut back = conn.read_packet()?;
    assert_eq!(back.id(), 0x21);
    assert_eq!(back.read_string()?, "ping");
    Ok(())
}

#[test]
fn closed_connection_fails_fast() -> Result<(), ProtocolError> {
    let mut conn = MinecraftConnection::new(DataCursor::empty());
    let mut packet = Packet::empty(0x01);
    packet.write_boolean(true)?;
    conn.write_packet(&packet)?;
    let written_before = conn.get_ref().get_ref().len();

    conn.close();
    assert!(!conn.is_alive());
    assert_eq!(
        conn.read_packet().map(|p| p.id()),
        Err(ProtocolError::ConnectionClosedError)
    );
    assert_eq!(
        conn.write_packet(&packet),
        Err(ProtocolError::ConnectionClosedError)
    );
    // no further bytes were written and none were consumed
    assert_eq!(conn.get_ref().get_ref().len(), written_before);
    assert_eq!(conn.get_ref().position(), 0);
    Ok(())
}

#[test]
fn peer_shutdown_marks_connection_closed() {
    // the stream ends before a whole frame arrives
    let mut conn = MinecraftConnection::new(DataCursor::new(vec![10, 0x01]));
    assert!(conn.is_alive());
    assert_eq!(
        conn.read_packet().map(|p| p.id()),
        Err(ProtocolError::ConnectionClosedError)
    );
    assert!(!conn.is_alive());
    // and every later call fails fast in the closed state
    assert_eq!(
        conn.read_packet().map(|p| p.id()),
        Err(ProtocolError::ConnectionClosedError)
    );
}

#[test]
fn duplicate_sees_compression_changes() -> Result<(), ProtocolError> {
    let mut conn = MinecraftConnection::new(DataCursor::empty());
    let mut twin = conn.clone();

    conn.set_compression(Some(5));
    assert_eq!(twin.compression(), Some(5));
    twin.set_compression(Some(9));
    assert_eq!(conn.compression(), Some(9));
    twin.set_compression(None);
    assert_eq!(conn.compression(), None);

    conn.set_compression_type(6);
    assert_eq!(twin.compression_type(), 6);

    // a threshold set through one handle governs the other handle's framing:
    // with threshold 0 even a tiny packet goes out in the compressed mode,
    // whose frame body starts with a data-length field
    conn.set_compression(Some(0));
    let mut packet = Packet::empty(0x02);
    packet.write_boolean(false)?;
    twin.write_packet(&packet)?;
    let wire = twin.get_ref().get_ref();
    assert!(wire[1] != 0, "data length must declare the uncompressed size");
    let mut back = twin.read_packet()?;
    assert_eq!(back.id(), 0x02);
    assert_eq!(back.read_boolean()?, false);
    Ok(())
}

#[test]
fn duplicate_sees_liveness_changes() {
    let mut conn = MinecraftConnection::new(DataCursor::empty());
    let twin = conn.clone();
    twin.close();
    assert!(!conn.is_alive());
    assert_eq!(
        conn.read_packet().map(|p| p.id()),
        Err(ProtocolError::ConnectionClosedError)
    );
    conn.set_alive(true);
    assert!(twin.is_alive());
}

#[test]
fn oversized_compression_level_is_clamped() -> Result<(), ProtocolError> {
    let mut conn = MinecraftConnection::new(DataCursor::empty());
    conn.set_compression(Some(0));
    conn.set_compression_type(11);

    let mut packet = Packet::empty(0x04);
    packet.write_string("clamped")?;
    conn.write_packet(&packet)?;
    let mut back = conn.read_packet()?;
    assert_eq!(back.id(), 0x04);
    assert_eq!(back.read_string()?, "clamped");
    Ok(())
}

#[test]
fn connection_exposes_stream_reader_writer() -> Result<(), ProtocolError> {
    let mut conn = MinecraftConnection::new(DataCursor::empty());
    conn.write_long(789465123545678946i64)?;
    assert_eq!(conn.read_long()?, 789465123545678946i64);
    conn.get_mut().write_byte(0x55)?;
    assert_eq!(conn.read_byte()?, 0x55);
    Ok(())
}
