//! Verified implementation of a framed, optionally zlib-compressed binary
//! packet protocol over a byte stream: VarInt encoding, the zigzag transform,
//! primitive big-endian scalar readers and writers, packets with an id and a
//! byte payload, the two wire framing modes, and a connection wrapper that
//! tracks liveness and a shared compression threshold.

pub mod connection;
pub mod cursor;
pub mod data;
pub mod frame;
pub mod packet;
pub mod varint;
pub mod zigzag;
pub mod zlib;

pub use crate::connection::{
    read_packet, read_packet_atomic, write_packet, write_packet_atomic, MCConn,
    MinecraftConnection,
};
pub use crate::cursor::DataCursor;
pub use crate::data::{DataReader, DataWriter};
pub use crate::packet::Packet;
pub use crate::zigzag::Zigzag;

use vstd::prelude::*;

verus! {

/// Protocol error, one variant per failure kind.
#[derive(Debug, Clone, Copy, PartialEq, Eq, Structural)]
pub enum ProtocolError {
    AddressParseError,
    DataRanOutError,
    StringParseError,
    StreamConnectError,
    VarIntError,
    ReadError,
    WriteError,
    ZlibError,
    UnsignedShortError,
    CloneError,
    ConnectionClosedError,
}

} // verus!
