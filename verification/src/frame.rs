//! The frame codec's specification.  A frame on the wire is always
//! `VarInt(frame_length) || frame_body`.  With compression disabled the body
//! is `VarInt(packet_id) || payload`.  With compression enabled the body is
//! `VarInt(data_length) || data`: `data_length` is zero — the sentinel for
//! "not compressed" — when the encoded packet stayed below the threshold, and
//! the packet's uncompressed byte length when `data` is its zlib stream.

use vstd::prelude::*;
use vstd::arithmetic::power2::{lemma2_to64, pow2};

use crate::packet::Packet;
use crate::varint::{
    lemma_varint_encode_len, lemma_varint_round_trip, varint_encode, varint_parse, VarIntOutcome,
};
use crate::zlib::{zlib_deflate, zlib_inflate};
use crate::ProtocolError;

verus! {

/// The encoded packet: its id as a VarInt, then its payload.
pub open spec fn packet_body(id: u8, payload: Seq<u8>) -> Seq<u8> {
    varint_encode(id as nat) + payload
}

/// The full wire frame for a packet under the given compression setting.
pub open spec fn frame_wire(id: u8, payload: Seq<u8>, compression: Option<usize>, level: u32) -> Seq<
    u8,
> {
    let body = packet_body(id, payload);
    match compression {
        Option::None => varint_encode(body.len()) + body,
        Option::Some(threshold) => {
            let inner = if body.len() >= threshold {
                varint_encode(body.len()) + zlib_deflate(body, level)
            } else {
                varint_encode(0) + body
            };
            varint_encode(inner.len()) + inner
        },
    }
}

/// Outcome of decoding one frame from the front of a byte sequence.
pub enum FrameOutcome {
    /// A whole frame was present: the packet id and payload it carries, and
    /// the number of bytes the frame occupies.
    Frame { id: u8, payload: Seq<u8>, size: nat },
    /// The bytes present are malformed: a refused VarInt chain, a body that
    /// ends inside a length field, or a compressed block that does not
    /// inflate to its declared length.
    Fail { err: ProtocolError },
    /// The sequence ends before the frame is complete.
    Exhausted,
}

/// Split a decoded frame body into packet id and payload.
pub open spec fn parse_packet_body(body: Seq<u8>, size: nat) -> FrameOutcome {
    match varint_parse(body, 8) {
        VarIntOutcome::Done { value, size: k } => FrameOutcome::Frame {
            id: value as u8,
            payload: body.skip(k as int),
            size,
        },
        VarIntOutcome::TooLong { .. } => FrameOutcome::Fail { err: ProtocolError::VarIntError },
        VarIntOutcome::Exhausted => FrameOutcome::Fail {
            err: ProtocolError::ConnectionClosedError,
        },
    }
}

/// Decode a compressed-mode frame body: a data length, then either the plain
/// packet body (zero sentinel) or its zlib stream, which must inflate to
/// exactly the declared length.
pub open spec fn parse_compressed_body(body: Seq<u8>, bits: nat, size: nat) -> FrameOutcome {
    match varint_parse(body, bits) {
        VarIntOutcome::Done { value: data_len, size: l2 } => {
            let data = body.skip(l2 as int);
            if data_len == 0 {
                parse_packet_body(data, size)
            } else {
                match zlib_inflate(data) {
                    Option::Some(plain) => if plain.len() == data_len {
                        parse_packet_body(plain, size)
                    } else {
                        FrameOutcome::Fail { err: ProtocolError::ZlibError }
                    },
                    Option::None => FrameOutcome::Fail { err: ProtocolError::ZlibError },
                }
            }
        },
        VarIntOutcome::TooLong { .. } => FrameOutcome::Fail { err: ProtocolError::VarIntError },
        VarIntOutcome::Exhausted => FrameOutcome::Fail {
            err: ProtocolError::ConnectionClosedError,
        },
    }
}

/// Decode one frame from the front of `s`.  `bits` is the width used for the
/// length VarInts; the compression threshold plays no part in decoding — the
/// zero sentinel makes each frame self-describing.
pub open spec fn frame_parse(s: Seq<u8>, compressed: bool, bits: nat) -> FrameOutcome {
    match varint_parse(s, bits) {
        VarIntOutcome::Done { value: flen, size: l1 } => {
            let rest = s.skip(l1 as int);
            if rest.len() < flen {
                FrameOutcome::Exhausted
            } else {
                let body = rest.take(flen as int);
                if compressed {
                    parse_compressed_body(body, bits, l1 + flen)
                } else {
                    parse_packet_body(body, l1 + flen)
                }
            }
        },
        VarIntOutcome::TooLong { .. } => FrameOutcome::Fail { err: ProtocolError::VarIntError },
        VarIntOutcome::Exhausted => FrameOutcome::Exhausted,
    }
}

/// Splitting an encoded packet body recovers its id and payload exactly.
proof fn lemma_packet_body_split(id: u8, payload: Seq<u8>, size: nat)
    ensures
        parse_packet_body(packet_body(id, payload), size) == (FrameOutcome::Frame {
            id,
            payload,
            size,
        }),
{
    lemma2_to64();
    lemma_varint_round_trip(id as nat, payload, 8);
    assert(packet_body(id, payload).skip(varint_encode(id as nat).len() as int) =~= payload);
}

/// Frame round trip with compression off: the wire frame a packet encodes to
/// decodes back to the identical id and payload, consuming the whole frame.
pub proof fn lemma_frame_round_trip_plain(id: u8, payload: Seq<u8>, level: u32, bits: nat)
    requires
        1 <= bits,
        packet_body(id, payload).len() < pow2(bits),
    ensures
        frame_parse(frame_wire(id, payload, Option::None, level), false, bits)
            == (FrameOutcome::Frame {
            id,
            payload,
            size: frame_wire(id, payload, Option::None, level).len(),
        }),
{
    let body = packet_body(id, payload);
    let wire = frame_wire(id, payload, Option::None, level);
    lemma_varint_round_trip(body.len(), body, bits);
    let l1 = varint_encode(body.len()).len();
    assert(wire.skip(l1 as int) =~= body);
    assert(wire.skip(l1 as int).take(body.len() as int) =~= body);
    lemma_packet_body_split(id, payload, (l1 + body.len()) as nat);
}

/// Frame round trip with compression on, below the threshold: the frame
/// carries the zero data-length sentinel followed by the packet body as it
/// is, and decodes back to the identical id and payload.
pub proof fn lemma_frame_round_trip_below_threshold(
    id: u8,
    payload: Seq<u8>,
    threshold: usize,
    level: u32,
    bits: nat,
)
    requires
        1 <= bits,
        packet_body(id, payload).len() < threshold,
        packet_body(id, payload).len() + 1 < pow2(bits),
    ensures
        frame_wire(id, payload, Option::Some(threshold), level) == varint_encode(
            (packet_body(id, payload).len() + 1) as nat,
        ) + seq![0u8] + packet_body(id, payload),
        frame_parse(frame_wire(id, payload, Option::Some(threshold), level), true, bits)
            == (FrameOutcome::Frame {
            id,
            payload,
            size: frame_wire(id, payload, Option::Some(threshold), level).len(),
        }),
{
    let body = packet_body(id, payload);
    let inner = varint_encode(0) + body;
    let wire = frame_wire(id, payload, Option::Some(threshold), level);
    assert(varint_encode(0) =~= seq![0u8]);
    assert(inner.len() == body.len() + 1);
    lemma_varint_round_trip(inner.len(), inner, bits);
    let l1 = varint_encode(inner.len()).len();
    assert(wire =~= varint_encode(inner.len()) + seq![0u8] + body);
    assert(wire.skip(l1 as int) =~= inner);
    assert(wire.skip(l1 as int).take(inner.len() as int) =~= inner);
    lemma_varint_round_trip(0, body, bits);
    assert(inner.skip(1) =~= body);
    lemma_packet_body_split(id, payload, (l1 + inner.len()) as nat);
}

/// Frame round trip with compression on, at or above the threshold: the
/// frame carries the uncompressed length and the zlib stream of the packet
/// body, and — given that inflate undoes deflate, which every compressing
/// call site establishes — decodes back to the identical id and payload.
pub proof fn lemma_frame_round_trip_compressed(
    id: u8,
    payload: Seq<u8>,
    threshold: usize,
    level: u32,
    bits: nat,
)
    requires
        1 <= bits,
        packet_body(id, payload).len() >= threshold,
        packet_body(id, payload).len() < pow2(bits),
        zlib_inflate(zlib_deflate(packet_body(id, payload), level)) == Some(
            packet_body(id, payload),
        ),
        varint_encode(packet_body(id, payload).len()).len() + zlib_deflate(
            packet_body(id, payload),
            level,
        ).len() < pow2(bits),
    ensures
        frame_parse(frame_wire(id, payload, Option::Some(threshold), level), true, bits)
            == (FrameOutcome::Frame {
            id,
            payload,
            size: frame_wire(id, payload, Option::Some(threshold), level).len(),
        }),
{
    let body = packet_body(id, payload);
    let inner = varint_encode(body.len()) + zlib_deflate(body, level);
    let wire = frame_wire(id, payload, Option::Some(threshold), level);
    lemma_varint_round_trip(inner.len(), inner, bits);
    let l1 = varint_encode(inner.len()).len();
    assert(wire.skip(l1 as int) =~= inner);
    assert(wire.skip(l1 as int).take(inner.len() as int) =~= inner);
    lemma_varint_round_trip(body.len(), zlib_deflate(body, level), bits);
    let l2 = varint_encode(body.len()).len();
    assert(inner.skip(l2 as int) =~= zlib_deflate(body, level));
    lemma_varint_encode_len(id as nat);
    assert(body.len() >= 1);
    lemma_packet_body_split(id, payload, (l1 + inner.len()) as nat);
}

/// What a frame read must return: the packet and consumed bytes of a whole
/// frame, the decode error of a malformed one, or the connection-closed
/// error of a source that ran out.
pub open spec fn read_result_matches(
    s: Seq<u8>,
    compressed: bool,
    bits: nat,
    r: Result<Packet, ProtocolError>,
    after: Seq<u8>,
) -> bool {
    match frame_parse(s, compressed, bits) {
        FrameOutcome::Frame { id, payload, size } => r is Ok && r->Ok_0.id_spec() == id
            && r->Ok_0.data_spec() == payload && r->Ok_0.position_spec() == 0 && after == s.skip(
            size as int,
        ),
        FrameOutcome::Fail { err } => r is Err && r->Err_0 == err,
        FrameOutcome::Exhausted => r is Err && r->Err_0 == ProtocolError::ConnectionClosedError
            && after.len() == 0,
    }
}

} // verus!
