//! The writing capability: a sink of bytes with a model of everything written
//! so far.  The primitive encodes build each value's byte string in memory
//! and hand it to the sink in one call, so a failed write leaves the sink
//! unchanged.

use vstd::prelude::*;

use crate::data::scalar::{be_bytes, be_bytes_spec, varint_bytes};
use crate::varint::varint_encode;
use crate::zigzag::{zigzag_spec, Zigzag};
use crate::ProtocolError;

verus! {

/// A sink of bytes: the packet buffer, the in-memory stream, or any other
/// channel that accepts byte strings.  `written` is the model: everything
/// accepted so far, in order.
pub trait DataWriter: Sized {
    /// Everything written so far, oldest first.
    spec fn written(&self) -> Seq<u8>;

    /// Whether this sink accepts every write: true of the in-memory buffers,
    /// left false by a sink whose writes can fail.
    spec fn always_accepts(&self) -> bool;

    /// Append a byte string, whole or not at all.
    fn write_bytes(&mut self, bytes: &[u8]) -> (r: Result<(), ProtocolError>)
        ensures
            r is Ok ==> final(self).written() == old(self).written() + bytes@,
            r is Err ==> final(self).written() == old(self).written(),
            old(self).always_accepts() ==> r is Ok,
            final(self).always_accepts() == old(self).always_accepts(),
    ;

    /// Write one byte.
    fn write_byte(&mut self, byte: u8) -> (r: Result<(), ProtocolError>)
        ensures
            r is Ok ==> final(self).written() == old(self).written().push(byte),
            r is Err ==> final(self).written() == old(self).written(),
            old(self).always_accepts() ==> r is Ok,
            final(self).always_accepts() == old(self).always_accepts(),
    {
        let mut v: Vec<u8> = Vec::new();
        v.push(byte);
        let r = self.write_bytes(v.as_slice());
        proof {
            if r is Ok {
                assert(self.written() =~= old(self).written().push(byte));
            }
        }
        r
    }

    /// Write a string: the VarInt byte length of its UTF-8 form, then those
    /// bytes.
    fn write_string(&mut self, val: &str) -> (r: Result<(), ProtocolError>)
        ensures
            r is Ok ==> final(self).written() == old(self).written() + varint_encode(
                vstd::utf8::encode_utf8(val@).len(),
            ) + vstd::utf8::encode_utf8(val@),
            r is Err ==> final(self).written() == old(self).written(),
            old(self).always_accepts() ==> r is Ok,
            final(self).always_accepts() == old(self).always_accepts(),
    {
        let bytes = val.as_bytes();
        let mut buf = varint_bytes(bytes.len() as u128);
        buf.extend_from_slice(bytes);
        let r = self.write_bytes(buf.as_slice());
        proof {
            if r is Ok {
                assert(self.written() =~= old(self).written() + varint_encode(
                    vstd::utf8::encode_utf8(val@).len(),
                ) + vstd::utf8::encode_utf8(val@));
            }
        }
        r
    }

    /// Write a UUID: sixteen raw bytes holding one big-endian 128-bit value.
    fn write_uuid(&mut self, val: u128) -> (r: Result<(), ProtocolError>)
        ensures
            r is Ok ==> final(self).written() == old(self).written() + be_bytes_spec(
                val as nat,
                16,
            ),
            r is Err ==> final(self).written() == old(self).written(),
            old(self).always_accepts() ==> r is Ok,
            final(self).always_accepts() == old(self).always_accepts(),
    {
        proof {
            crate::data::scalar::lemma_pow2_128();
        }
        let buf = be_bytes(val, 16);
        self.write_bytes(buf.as_slice())
    }

    /// Write a big-endian unsigned short.
    fn write_unsigned_short(&mut self, val: u16) -> (r: Result<(), ProtocolError>)
        ensures
            r is Ok ==> final(self).written() == old(self).written() + be_bytes_spec(val as nat, 2),
            r is Err ==> final(self).written() == old(self).written(),
            old(self).always_accepts() ==> r is Ok,
            final(self).always_accepts() == old(self).always_accepts(),
    {
        proof {
            vstd::arithmetic::power2::lemma2_to64();
        }
        let buf = be_bytes(val as u128, 2);
        self.write_bytes(buf.as_slice())
    }

    /// Write a boolean as one byte, `0x01` for true and `0x00` for false.
    fn write_boolean(&mut self, val: bool) -> (r: Result<(), ProtocolError>)
        ensures
            r is Ok ==> final(self).written() == old(self).written().push(
                if val {
                    1u8
                } else {
                    0u8
                },
            ),
            r is Err ==> final(self).written() == old(self).written(),
            old(self).always_accepts() ==> r is Ok,
            final(self).always_accepts() == old(self).always_accepts(),
    {
        self.write_byte(if val { 0x01 } else { 0x00 })
    }

    /// Write a big-endian signed short, in two's complement.
    fn write_short(&mut self, val: i16) -> (r: Result<(), ProtocolError>)
        ensures
            r is Ok ==> final(self).written() == old(self).written() + be_bytes_spec(
                (if val >= 0 {
                    val as int
                } else {
                    val + 0x10000
                }) as nat,
                2,
            ),
            r is Err ==> final(self).written() == old(self).written(),
            old(self).always_accepts() ==> r is Ok,
            final(self).always_accepts() == old(self).always_accepts(),
    {
        proof {
            vstd::arithmetic::power2::lemma2_to64();
        }
        let u: u16 = if val >= 0 {
            val as u16
        } else {
            ((val as i32) + 0x10000) as u16
        };
        let buf = be_bytes(u as u128, 2);
        self.write_bytes(buf.as_slice())
    }

    /// Write a big-endian signed long, in two's complement.
    fn write_long(&mut self, val: i64) -> (r: Result<(), ProtocolError>)
        ensures
            r is Ok ==> final(self).written() == old(self).written() + be_bytes_spec(
                (if val >= 0 {
                    val as int
                } else {
                    val + 0x10000000000000000
                }) as nat,
                8,
            ),
            r is Err ==> final(self).written() == old(self).written(),
            old(self).always_accepts() ==> r is Ok,
            final(self).always_accepts() == old(self).always_accepts(),
    {
        proof {
            vstd::arithmetic::power2::lemma2_to64();
        }
        let u: u64 = if val >= 0 {
            val as u64
        } else {
            ((val as i128) + 0x10000000000000000) as u64
        };
        let buf = be_bytes(u as u128, 8);
        self.write_bytes(buf.as_slice())
    }

    /// Write a big-endian signed int, in two's complement.
    fn write_int(&mut self, val: i32) -> (r: Result<(), ProtocolError>)
        ensures
            r is Ok ==> final(self).written() == old(self).written() + be_bytes_spec(
                (if val >= 0 {
                    val as int
                } else {
                    val + 0x100000000
                }) as nat,
                4,
            ),
            r is Err ==> final(self).written() == old(self).written(),
            old(self).always_accepts() ==> r is Ok,
            final(self).always_accepts() == old(self).always_accepts(),
    {
        proof {
            vstd::arithmetic::power2::lemma2_to64();
        }
        let u: u32 = if val >= 0 {
            val as u32
        } else {
            ((val as i64) + 0x100000000) as u32
        };
        let buf = be_bytes(u as u128, 4);
        self.write_bytes(buf.as_slice())
    }

    /// Write a VarInt of a `usize` value.
    fn write_usize_varint(&mut self, val: usize) -> (r: Result<(), ProtocolError>)
        ensures
            r is Ok ==> final(self).written() == old(self).written() + varint_encode(val as nat),
            r is Err ==> final(self).written() == old(self).written(),
            old(self).always_accepts() ==> r is Ok,
            final(self).always_accepts() == old(self).always_accepts(),
    {
        let buf = varint_bytes(val as u128);
        self.write_bytes(buf.as_slice())
    }

    /// Write a VarInt of a `u8` value.
    fn write_u8_varint(&mut self, val: u8) -> (r: Result<(), ProtocolError>)
        ensures
            r is Ok ==> final(self).written() == old(self).written() + varint_encode(val as nat),
            r is Err ==> final(self).written() == old(self).written(),
            old(self).always_accepts() ==> r is Ok,
            final(self).always_accepts() == old(self).always_accepts(),
    {
        let buf = varint_bytes(val as u128);
        self.write_bytes(buf.as_slice())
    }

    /// Write a VarInt of a `u16` value.
    fn write_u16_varint(&mut self, val: u16) -> (r: Result<(), ProtocolError>)
        ensures
            r is Ok ==> final(self).written() == old(self).written() + varint_encode(val as nat),
            r is Err ==> final(self).written() == old(self).written(),
            old(self).always_accepts() ==> r is Ok,
            final(self).always_accepts() == old(self).always_accepts(),
    {
        let buf = varint_bytes(val as u128);
        self.write_bytes(buf.as_slice())
    }

    /// Write a VarInt of a `u32` value.
    fn write_u32_varint(&mut self, val: u32) -> (r: Result<(), ProtocolError>)
        ensures
            r is Ok ==> final(self).written() == old(self).written() + varint_encode(val as nat),
            r is Err ==> final(self).written() == old(self).written(),
            old(self).always_accepts() ==> r is Ok,
            final(self).always_accepts() == old(self).always_accepts(),
    {
        let buf = varint_bytes(val as u128);
        self.write_bytes(buf.as_slice())
    }

    /// Write a VarInt of a `u64` value.
    fn write_u64_varint(&mut self, val: u64) -> (r: Result<(), ProtocolError>)
        ensures
            r is Ok ==> final(self).written() == old(self).written() + varint_encode(val as nat),
            r is Err ==> final(self).written() == old(self).written(),
            old(self).always_accepts() ==> r is Ok,
            final(self).always_accepts() == old(self).always_accepts(),
    {
        let buf = varint_bytes(val as u128);
        self.write_bytes(buf.as_slice())
    }

    /// Write a VarInt of a `u128` value.
    fn write_u128_varint(&mut self, val: u128) -> (r: Result<(), ProtocolError>)
        ensures
            r is Ok ==> final(self).written() == old(self).written() + varint_encode(val as nat),
            r is Err ==> final(self).written() == old(self).written(),
            old(self).always_accepts() ==> r is Ok,
            final(self).always_accepts() == old(self).always_accepts(),
    {
        let buf = varint_bytes(val);
        self.write_bytes(buf.as_slice())
    }

    /// Write a VarInt of an `isize` value, through the zigzag transform.
    fn write_isize_varint(&mut self, val: isize) -> (r: Result<(), ProtocolError>)
        ensures
            r is Ok ==> final(self).written() == old(self).written() + varint_encode(
                zigzag_spec(val as int) as nat,
            ),
            r is Err ==> final(self).written() == old(self).written(),
            old(self).always_accepts() ==> r is Ok,
            final(self).always_accepts() == old(self).always_accepts(),
    {
        self.write_usize_varint(val.zigzag())
    }

    /// Write a VarInt of an `i8` value, through the zigzag transform.
    fn write_i8_varint(&mut self, val: i8) -> (r: Result<(), ProtocolError>)
        ensures
            r is Ok ==> final(self).written() == old(self).written() + varint_encode(
                zigzag_spec(val as int) as nat,
            ),
            r is Err ==> final(self).written() == old(self).written(),
            old(self).always_accepts() ==> r is Ok,
            final(self).always_accepts() == old(self).always_accepts(),
    {
        self.write_u8_varint(val.zigzag())
    }

    /// Write a VarInt of an `i16` value, through the zigzag transform.
    fn write_i16_varint(&mut self, val: i16) -> (r: Result<(), ProtocolError>)
        ensures
            r is Ok ==> final(self).written() == old(self).written() + varint_encode(
                zigzag_spec(val as int) as nat,
            ),
            r is Err ==> final(self).written() == old(self).written(),
            old(self).always_accepts() ==> r is Ok,
            final(self).always_accepts() == old(self).always_accepts(),
    {
        self.write_u16_varint(val.zigzag())
    }

    /// Write a VarInt of an `i32` value, through the zigzag transform.
    fn write_i32_varint(&mut self, val: i32) -> (r: Result<(), ProtocolError>)
        ensures
            r is Ok ==> final(self).written() == old(self).written() + varint_encode(
                zigzag_spec(val as int) as nat,
            ),
            r is Err ==> final(self).written() == old(self).written(),
            old(self).always_accepts() ==> r is Ok,
            final(self).always_accepts() == old(self).always_accepts(),
    {
        self.write_u32_varint(val.zigzag())
    }

    /// Write a VarInt of an `i64` value, through the zigzag transform.
    fn write_i64_varint(&mut self, val: i64) -> (r: Result<(), ProtocolError>)
        ensures
            r is Ok ==> final(self).written() == old(self).written() + varint_encode(
                zigzag_spec(val as int) as nat,
            ),
            r is Err ==> final(self).written() == old(self).written(),
            old(self).always_accepts() ==> r is Ok,
            final(self).always_accepts() == old(self).always_accepts(),
    {
        self.write_u64_varint(val.zigzag())
    }

    /// Write a VarInt of an `i128` value, through the zigzag transform.
    fn write_i128_varint(&mut self, val: i128) -> (r: Result<(), ProtocolError>)
        ensures
            r is Ok ==> final(self).written() == old(self).written() + varint_encode(
                zigzag_spec(val as int) as nat,
            ),
            r is Err ==> final(self).written() == old(self).written(),
            old(self).always_accepts() ==> r is Ok,
            final(self).always_accepts() == old(self).always_accepts(),
    {
        self.write_u128_varint(val.zigzag())
    }
}

} // verus!
