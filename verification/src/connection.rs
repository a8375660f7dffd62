//! The connection: a wrapper around a duplex byte stream that frames packets
//! on the way out and unframes them on the way in, tracks whether the peer is
//! still there, and holds the compression threshold and level in shared,
//! atomically updated cells so that duplicated handles observe each other's
//! changes at once.

use vstd::prelude::*;

use std::sync::atomic::{AtomicBool, AtomicU32, AtomicUsize, Ordering};
use std::sync::Arc;

use crate::cursor::DataCursor;
use crate::data::reader::DataReader;
use crate::data::writer::DataWriter;
use crate::frame::{frame_wire, packet_body, read_result_matches};
use crate::packet::Packet;
use crate::varint::lemma_varint_parse_bounds;
use crate::zlib::{compress_zlib, decompress_zlib, zlib_deflate, zlib_inflate};
use crate::ProtocolError;

verus! {

/// Read one frame from the stream and decode it into a packet, under the
/// given compression mode; only whether compression is on matters here, the
/// threshold value plays no part in decoding.
pub fn read_packet<T: DataReader>(stream: &mut T, compression: Option<usize>) -> (r: Result<
    Packet,
    ProtocolError,
>)
    ensures
        read_result_matches(
            old(stream).readable(),
            compression is Some,
            usize::BITS as nat,
            r,
            final(stream).readable(),
        ),
{
    let pair = stream.read_usize_varint_size()?;
    let ghost l1 = pair.1 as int;
    let body = stream.read_bytes(pair.0)?;
    proof {
        lemma_varint_parse_bounds(old(stream).readable(), usize::BITS as nat);
        assert(stream.readable() =~= old(stream).readable().skip(l1 + pair.0 as int));
    }
    if compression.is_some() {
        let mut cursor = DataCursor::new(body);
        proof {
            assert(cursor.readable() =~= old(stream).readable().skip(l1).take(pair.0 as int));
        }
        let dpair = cursor.read_usize_varint_size()?;
        let rest = cursor.remaining();
        let data = cursor.read_bytes(rest)?;
        proof {
            assert(data@ =~= old(stream).readable().skip(l1).take(pair.0 as int).skip(
                dpair.1 as int,
            ));
        }
        if dpair.0 != 0 {
            let plain = decompress_zlib(data.as_slice())?;
            if plain.len() != dpair.0 {
                return Err(ProtocolError::ZlibError);
            }
            Packet::from_data(plain.as_slice())
        } else {
            Packet::from_data(data.as_slice())
        }
    } else {
        Packet::from_data(body.as_slice())
    }
}

/// Encode one packet as a frame under the given compression setting and hand
/// the whole frame to the stream in a single write.  Success is owed whenever
/// the sink accepts every write and no packet is actually compressed; when
/// one is, the frame's embedded zlib stream is known to inflate back to the
/// packet body, so a reader recovers the packet exactly.
pub fn write_packet<T: DataWriter>(
    stream: &mut T,
    compression: Option<usize>,
    compression_type: u32,
    packet: &Packet,
) -> (r: Result<(), ProtocolError>)
    requires
        compression_type <= 9,
    ensures
        r is Ok ==> final(stream).written() == old(stream).written() + frame_wire(
            packet.id_spec(),
            packet.data_spec(),
            compression,
            compression_type,
        ),
        r is Err ==> final(stream).written() == old(stream).written(),
        old(stream).always_accepts() && (compression matches Option::Some(t)
            ==> packet_body(packet.id_spec(), packet.data_spec()).len() < t) ==> r is Ok,
        old(stream).always_accepts() && r is Err ==> r->Err_0 == ProtocolError::ZlibError,
        final(stream).always_accepts() == old(stream).always_accepts(),
        r is Ok ==> (compression matches Option::Some(t) && packet_body(
            packet.id_spec(),
            packet.data_spec(),
        ).len() >= t ==> zlib_inflate(
            zlib_deflate(packet_body(packet.id_spec(), packet.data_spec()), compression_type),
        ) == Some(packet_body(packet.id_spec(), packet.data_spec()))),
{
    let mut data_buf = crate::data::scalar::varint_bytes(packet.id() as u128);
    data_buf.extend_from_slice(packet.get_bytes());
    proof {
        assert(data_buf@ =~= crate::frame::packet_body(packet.id_spec(), packet.data_spec()));
    }
    match compression {
        Option::Some(threshold) => {
            let mut packet_buf: Vec<u8>;
            if data_buf.len() >= threshold {
                let compressed = compress_zlib(data_buf.as_slice(), compression_type)?;
                packet_buf = crate::data::scalar::varint_bytes(data_buf.len() as u128);
                packet_buf.extend_from_slice(compressed.as_slice());
            } else {
                packet_buf = crate::data::scalar::varint_bytes(0);
                packet_buf.extend_from_slice(data_buf.as_slice());
            }
            let mut buf = crate::data::scalar::varint_bytes(packet_buf.len() as u128);
            buf.extend_from_slice(packet_buf.as_slice());
            let r = stream.write_bytes(buf.as_slice());
            proof {
                if r is Ok {
                    assert(final(stream).written() =~= old(stream).written() + frame_wire(
                        packet.id_spec(),
                        packet.data_spec(),
                        compression,
                        compression_type,
                    ));
                }
            }
            r
        },
        Option::None => {
            let mut buf = crate::data::scalar::varint_bytes(data_buf.len() as u128);
            buf.extend_from_slice(data_buf.as_slice());
            let r = stream.write_bytes(buf.as_slice());
            proof {
                if r is Ok {
                    assert(final(stream).written() =~= old(stream).written() + frame_wire(
                        packet.id_spec(),
                        packet.data_spec(),
                        compression,
                        compression_type,
                    ));
                }
            }
            r
        },
    }
}

/// Read one frame, taking the compression threshold from a shared atomic
/// cell; `usize::MAX` in the cell means compression is off.
pub fn read_packet_atomic<T: DataReader>(
    stream: &mut T,
    compression: Arc<AtomicUsize>,
    ordering: Ordering,
) -> (r: Result<Packet, ProtocolError>)
    ensures
        read_result_matches(
            old(stream).readable(),
            true,
            usize::BITS as nat,
            r,
            final(stream).readable(),
        ) || read_result_matches(
            old(stream).readable(),
            false,
            usize::BITS as nat,
            r,
            final(stream).readable(),
        ),
{
    let threshold = compression.load(ordering);
    let c: Option<usize> = if threshold == usize::MAX {
        Option::None
    } else {
        Option::Some(threshold)
    };
    read_packet(stream, c)
}

/// Write one frame, taking the compression threshold from a shared atomic
/// cell; `usize::MAX` in the cell means compression is off.
pub fn write_packet_atomic<T: DataWriter>(
    stream: &mut T,
    compression: Arc<AtomicUsize>,
    ordering: Ordering,
    compression_type: u32,
    packet: &Packet,
) -> (r: Result<(), ProtocolError>)
    requires
        compression_type <= 9,
    ensures
        r is Ok ==> exists|c: Option<usize>|
            final(stream).written() == old(stream).written() + #[trigger] frame_wire(
                packet.id_spec(),
                packet.data_spec(),
                c,
                compression_type,
            ) && (c matches Option::Some(t) && packet_body(
                packet.id_spec(),
                packet.data_spec(),
            ).len() >= t ==> zlib_inflate(
                zlib_deflate(packet_body(packet.id_spec(), packet.data_spec()), compression_type),
            ) == Some(packet_body(packet.id_spec(), packet.data_spec()))),
        r is Err ==> final(stream).written() == old(stream).written(),
        old(stream).always_accepts() && r is Err ==> r->Err_0 == ProtocolError::ZlibError,
        final(stream).always_accepts() == old(stream).always_accepts(),
{
    let threshold = compression.load(ordering);
    let c: Option<usize> = if threshold == usize::MAX {
        Option::None
    } else {
        Option::Some(threshold)
    };
    write_packet(stream, c, compression_type, packet)
}

/// A connection: a duplex stream together with the shared compression
/// threshold, compression level and liveness flag.  Duplicated handles share
/// all three cells, so a change through one handle is observed by the others.
pub struct MinecraftConnection<T> {
    stream: T,
    compression: Arc<AtomicUsize>,
    compression_type: Arc<AtomicU32>,
    is_alive: Arc<AtomicBool>,
}

impl<T: DataReader + DataWriter> MinecraftConnection<T> {
    /// Wrap a stream: alive, compression off, fast compression level.
    pub fn new(stream: T) -> (r: MinecraftConnection<T>)
        ensures
            r.readable() == stream.readable(),
            r.written() == stream.written(),
            r.always_accepts() == stream.always_accepts(),
    {
        MinecraftConnection {
            stream,
            compression: Arc::new(AtomicUsize::new(usize::MAX)),
            compression_type: Arc::new(AtomicU32::new(1)),
            is_alive: Arc::new(AtomicBool::new(true)),
        }
    }

    /// Set the shared liveness flag, for this handle and every duplicate.
    pub fn set_alive(&self, state: bool) {
        self.is_alive.store(state, Ordering::Relaxed);
    }

    /// Whether the connection has not been closed yet, as last observed.
    pub fn is_alive(&self) -> bool {
        self.is_alive.load(Ordering::Relaxed)
    }

    /// Mark the connection closed, for this handle and every duplicate;
    /// idempotent.  Shutting the underlying channel itself down is the
    /// stream's own affair.
    pub fn close(&self) {
        self.set_alive(false);
    }

    /// Set the shared compression threshold; `None` turns compression off,
    /// and is also what a threshold of `usize::MAX` reads back as, since that
    /// value is the cell's off sentinel.  The stream itself is untouched.
    pub fn set_compression(&mut self, threshold: Option<usize>)
        ensures
            final(self).readable() == old(self).readable(),
            final(self).written() == old(self).written(),
            final(self).always_accepts() == old(self).always_accepts(),
    {
        self.compression.store(
            match threshold {
                Option::Some(t) => t,
                Option::None => usize::MAX,
            },
            Ordering::Relaxed,
        );
    }

    /// The shared compression threshold; `None` means compression is off.
    pub fn compression(&self) -> (r: Option<usize>)
        ensures
            r is Some ==> r->Some_0 != usize::MAX,
    {
        let threshold = self.compression.load(Ordering::Relaxed);
        if threshold == usize::MAX {
            Option::None
        } else {
            Option::Some(threshold)
        }
    }

    /// Set the shared compression level: an integer from 0 (none) to 9
    /// (slowest); 1 is fast and 6 is the usual default.  A value above 9 is
    /// treated as 9 when a packet is written.  The stream itself is
    /// untouched.
    pub fn set_compression_type(&mut self, compression_type: u32)
        ensures
            final(self).readable() == old(self).readable(),
            final(self).written() == old(self).written(),
            final(self).always_accepts() == old(self).always_accepts(),
    {
        self.compression_type.store(compression_type, Ordering::Relaxed);
    }

    /// The shared compression level.
    pub fn compression_type(&self) -> u32 {
        self.compression_type.load(Ordering::Relaxed)
    }

    /// Borrow the underlying stream mutably.
    pub fn get_mut(&mut self) -> (r: &mut T)
        ensures
            r.readable() == old(self).readable(),
            r.written() == old(self).written(),
            r.always_accepts() == old(self).always_accepts(),
            final(self).readable() == final(r).readable(),
            final(self).written() == final(r).written(),
            final(self).always_accepts() == final(r).always_accepts(),
    {
        &mut self.stream
    }

    /// Borrow the underlying stream.
    pub fn get_ref(&self) -> (r: &T)
        ensures
            r.readable() == self.readable(),
            r.written() == self.written(),
            r.always_accepts() == self.always_accepts(),
    {
        &self.stream
    }

    /// Read one packet.  A closed connection fails at once with the
    /// connection-closed error, without touching the stream; detecting that
    /// the peer closed the stream marks the connection closed for every
    /// duplicate.  The compression mode is read fresh from the shared cell.
    pub fn read_packet(&mut self) -> (r: Result<Packet, ProtocolError>)
        ensures
            r is Ok ==> read_result_matches(
                old(self).readable(),
                true,
                usize::BITS as nat,
                r,
                final(self).readable(),
            ) || read_result_matches(
                old(self).readable(),
                false,
                usize::BITS as nat,
                r,
                final(self).readable(),
            ),
            r is Err ==> (r->Err_0 == ProtocolError::ConnectionClosedError && final(self).readable()
                == old(self).readable()) || read_result_matches(
                old(self).readable(),
                true,
                usize::BITS as nat,
                r,
                final(self).readable(),
            ) || read_result_matches(
                old(self).readable(),
                false,
                usize::BITS as nat,
                r,
                final(self).readable(),
            ),
    {
        if !self.is_alive() {
            return Err(ProtocolError::ConnectionClosedError);
        }
        match read_packet_atomic(&mut self.stream, self.compression.clone(), Ordering::Relaxed) {
            Err(ProtocolError::ConnectionClosedError) => {
                self.set_alive(false);
                Err(ProtocolError::ConnectionClosedError)
            },
            i => i,
        }
    }

    /// Write one packet as a single whole frame.  A closed connection fails
    /// at once with the connection-closed error, without touching the
    /// stream.  The compression threshold and level are read fresh from the
    /// shared cells.
    pub fn write_packet(&mut self, packet: &Packet) -> (r: Result<(), ProtocolError>)
        ensures
            r is Ok ==> exists|c: Option<usize>, l: u32|
                final(self).written() == old(self).written() + #[trigger] frame_wire(
                    packet.id_spec(),
                    packet.data_spec(),
                    c,
                    l,
                ) && (c matches Option::Some(t) && packet_body(
                    packet.id_spec(),
                    packet.data_spec(),
                ).len() >= t ==> zlib_inflate(
                    zlib_deflate(packet_body(packet.id_spec(), packet.data_spec()), l),
                ) == Some(packet_body(packet.id_spec(), packet.data_spec()))),
            r is Err ==> final(self).written() == old(self).written(),
            old(self).always_accepts() && r is Err ==> r->Err_0 == ProtocolError::ZlibError
                || r->Err_0 == ProtocolError::ConnectionClosedError,
            final(self).always_accepts() == old(self).always_accepts(),
    {
        if !self.is_alive() {
            return Err(ProtocolError::ConnectionClosedError);
        }
        let loaded = self.compression_type.load(Ordering::Relaxed);
        let level: u32 = if loaded <= 9 {
            loaded
        } else {
            9
        };
        write_packet_atomic(
            &mut self.stream,
            self.compression.clone(),
            Ordering::Relaxed,
            level,
            packet,
        )
    }
}

impl<T: DataReader + DataWriter + Clone> MinecraftConnection<T> {
    /// Duplicate the connection: the stream is cloned, and the compression
    /// and liveness cells are shared with the duplicate; the handle itself is
    /// left as it was.
    pub fn clone(&mut self) -> (r: MinecraftConnection<T>)
        ensures
            final(self).readable() == old(self).readable(),
            final(self).written() == old(self).written(),
            final(self).always_accepts() == old(self).always_accepts(),
    {
        MinecraftConnection {
            stream: self.stream.clone(),
            compression: self.compression.clone(),
            compression_type: self.compression_type.clone(),
            is_alive: self.is_alive.clone(),
        }
    }
}

impl<T: DataReader> DataReader for MinecraftConnection<T> {
    closed spec fn readable(&self) -> Seq<u8> {
        self.stream.readable()
    }

    fn read_bytes(&mut self, size: usize) -> (r: Result<Vec<u8>, ProtocolError>) {
        self.stream.read_bytes(size)
    }
}

impl<T: DataWriter> DataWriter for MinecraftConnection<T> {
    closed spec fn written(&self) -> Seq<u8> {
        self.stream.written()
    }

    closed spec fn always_accepts(&self) -> bool {
        self.stream.always_accepts()
    }

    fn write_bytes(&mut self, bytes: &[u8]) -> (r: Result<(), ProtocolError>) {
        self.stream.write_bytes(bytes)
    }
}

/// Shorter alias for [`MinecraftConnection`].
pub type MCConn<T> = MinecraftConnection<T>;

} // verus!
