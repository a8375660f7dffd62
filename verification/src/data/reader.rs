//! The reading capability: a source of bytes with a known model of what is
//! still available, and on top of it every primitive decode the protocol
//! uses — bytes, booleans, big-endian scalars, UTF-8 strings, UUIDs and
//! VarInts of every width, signed ones through the zigzag transform.

use vstd::prelude::*;
use vstd::arithmetic::div_mod::{
    lemma_add_mod_noop, lemma_mod_mod, lemma_mul_mod_noop_left, lemma_mul_mod_noop_right,
};
use vstd::arithmetic::power2::{lemma_pow2_adds, lemma_pow2_pos, pow2};

use crate::varint::{varint_parse, varint_parse_chain, VarIntOutcome};
use crate::varint::lemma_varint_parse_bounds;
use crate::data::scalar::{be_read, be_value, lemma_be_value_bound, lemma_pow2_128};
use crate::zigzag::{unzigzag_spec, Zigzag};
use crate::ProtocolError;

verus! {

/// Relies on `String::from_utf8`: it succeeds exactly on valid UTF-8 input
/// and decodes it; the byte vector is consumed either way.
#[verifier::external_body]
fn string_from_utf8(bytes: Vec<u8>) -> (r: Result<String, ProtocolError>)
    ensures
        r is Ok <==> vstd::utf8::valid_utf8(bytes@),
        r is Ok ==> r->Ok_0@ == vstd::utf8::decode_utf8(bytes@),
        r is Err ==> r->Err_0 == ProtocolError::StringParseError,
{
    match String::from_utf8(bytes) {
        Ok(s) => Ok(s),
        Err(_) => Err(ProtocolError::StringParseError),
    }
}

/// String round trip: the bytes that writing a string appends — its UTF-8
/// length as a VarInt, then its UTF-8 bytes — read back as exactly that
/// string, whatever follows them.
pub proof fn lemma_string_round_trip(s: Seq<char>, rest: Seq<u8>, bits: nat)
    requires
        1 <= bits,
        vstd::utf8::encode_utf8(s).len() < pow2(bits),
    ensures
        ({
            let content = vstd::utf8::encode_utf8(s);
            let enc = crate::varint::varint_encode(content.len()) + content + rest;
            let k = crate::varint::varint_encode(content.len()).len();
            &&& varint_parse(enc, bits) == (VarIntOutcome::Done { value: content.len(), size: k })
            &&& enc.skip(k as int).take(content.len() as int) == content
            &&& vstd::utf8::valid_utf8(content)
            &&& vstd::utf8::decode_utf8(content) == s
        }),
{
    let content = vstd::utf8::encode_utf8(s);
    let enc = crate::varint::varint_encode(content.len()) + content + rest;
    let k = crate::varint::varint_encode(content.len()).len();
    crate::varint::lemma_varint_round_trip(content.len(), content + rest, bits);
    assert(enc =~= crate::varint::varint_encode(content.len()) + (content + rest));
    assert(enc.skip(k as int).take(content.len() as int) =~= content);
    vstd::utf8::encode_utf8_valid_utf8(s);
    vstd::utf8::encode_utf8_decode_utf8(s);
}

/// A source of bytes: the packet buffer, the in-memory stream, or any other
/// channel that hands bytes out in order.  `readable` is the model: the bytes
/// still to come, oldest first.  A source that runs dry mid-request reports
/// the peer-closed error and is empty afterwards — running dry is the one way
/// a source can fail.  A channel whose reads can also fault, such as a live
/// socket, stays outside this capability: the boundary that shuttles its
/// bytes in reports an I/O fault as the read error itself, so the two stay
/// distinguishable end to end.
pub trait DataReader: Sized {
    /// The bytes still available to read, oldest first.
    spec fn readable(&self) -> Seq<u8>;

    /// Read exactly `size` bytes, or fail with the connection-closed error if
    /// fewer are available; a failed read drains the source.
    fn read_bytes(&mut self, size: usize) -> (r: Result<Vec<u8>, ProtocolError>)
        ensures
            r is Ok ==> old(self).readable().len() >= size && r->Ok_0@ == old(
                self,
            ).readable().take(size as int) && final(self).readable() == old(
                self,
            ).readable().skip(size as int),
            r is Err ==> r->Err_0 == ProtocolError::ConnectionClosedError && old(
                self,
            ).readable().len() < size && final(self).readable().len() == 0,
    ;

    /// Read one byte.
    fn read_byte(&mut self) -> (r: Result<u8, ProtocolError>)
        ensures
            old(self).readable().len() >= 1 ==> r is Ok && r->Ok_0 == old(self).readable()[0]
                && final(self).readable() == old(self).readable().skip(1),
            old(self).readable().len() == 0 ==> r is Err && r->Err_0
                == ProtocolError::ConnectionClosedError && final(self).readable().len() == 0,
    {
        match self.read_bytes(1) {
            Ok(v) => Ok(v[0]),
            Err(e) => Err(e),
        }
    }

    /// Read a boolean: one byte, `0x01` is true and every other value false.
    fn read_boolean(&mut self) -> (r: Result<bool, ProtocolError>)
        ensures
            old(self).readable().len() >= 1 ==> r is Ok && r->Ok_0 == (old(self).readable()[0]
                == 1) && final(self).readable() == old(self).readable().skip(1),
            old(self).readable().len() == 0 ==> r is Err && r->Err_0
                == ProtocolError::ConnectionClosedError && final(self).readable().len() == 0,
    {
        let b = self.read_byte()?;
        Ok(b == 0x01)
    }

    /// Read a string: a VarInt byte length followed by that many bytes of
    /// UTF-8; the bytes are consumed even when they are not valid UTF-8.
    fn read_string(&mut self) -> (r: Result<String, ProtocolError>)
        ensures
            match varint_parse(old(self).readable(), usize::BITS as nat) {
                VarIntOutcome::Done { value: n, size: k } => {
                    let rest = old(self).readable().skip(k as int);
                    if n <= rest.len() {
                        (if vstd::utf8::valid_utf8(rest.take(n as int)) {
                            r is Ok && r->Ok_0@ == vstd::utf8::decode_utf8(rest.take(n as int))
                        } else {
                            r is Err && r->Err_0 == ProtocolError::StringParseError
                        }) && final(self).readable() == rest.skip(n as int)
                    } else {
                        r is Err && r->Err_0 == ProtocolError::ConnectionClosedError && final(self).readable().len() == 0
                    }
                },
                VarIntOutcome::TooLong { size: k } => r is Err && r->Err_0
                    == ProtocolError::VarIntError && final(self).readable() == old(
                    self,
                ).readable().skip(k as int),
                VarIntOutcome::Exhausted => r is Err && r->Err_0
                    == ProtocolError::ConnectionClosedError && final(self).readable().len() == 0,
            },
    {
        let size = self.read_usize_varint()?;
        let data = self.read_bytes(size)?;
        string_from_utf8(data)
    }

    /// Read a big-endian unsigned short.
    fn read_unsigned_short(&mut self) -> (r: Result<u16, ProtocolError>)
        ensures
            old(self).readable().len() >= 2 ==> r is Ok && r->Ok_0 == be_value(
                old(self).readable().take(2),
            ) && final(self).readable() == old(self).readable().skip(2),
            old(self).readable().len() < 2 ==> r is Err && r->Err_0
                == ProtocolError::ConnectionClosedError && final(self).readable().len() == 0,
    {
        let bytes = self.read_bytes(2)?;
        let v = be_read(&bytes);
        proof {
            lemma_be_value_bound(bytes@);
            vstd::arithmetic::power2::lemma2_to64();
        }
        Ok(v as u16)
    }

    /// Read a big-endian signed short, in two's complement.
    fn read_short(&mut self) -> (r: Result<i16, ProtocolError>)
        ensures
            old(self).readable().len() >= 2 ==> r is Ok && r->Ok_0 as int == {
                let v = be_value(old(self).readable().take(2));
                if v < 0x8000 {
                    v as int
                } else {
                    v - 0x10000
                }
            } && final(self).readable() == old(self).readable().skip(2),
            old(self).readable().len() < 2 ==> r is Err && r->Err_0
                == ProtocolError::ConnectionClosedError && final(self).readable().len() == 0,
    {
        let v = self.read_unsigned_short()?;
        Ok(
            if v < 0x8000 {
                v as i16
            } else {
                ((v as i32) - 0x10000) as i16
            },
        )
    }

    /// Read a big-endian signed long, in two's complement.
    fn read_long(&mut self) -> (r: Result<i64, ProtocolError>)
        ensures
            old(self).readable().len() >= 8 ==> r is Ok && r->Ok_0 as int == {
                let v = be_value(old(self).readable().take(8));
                if v < 0x8000000000000000 {
                    v as int
                } else {
                    v - 0x10000000000000000
                }
            } && final(self).readable() == old(self).readable().skip(8),
            old(self).readable().len() < 8 ==> r is Err && r->Err_0
                == ProtocolError::ConnectionClosedError && final(self).readable().len() == 0,
    {
        let bytes = self.read_bytes(8)?;
        let v = be_read(&bytes);
        proof {
            lemma_be_value_bound(bytes@);
            vstd::arithmetic::power2::lemma2_to64();
        }
        let u = v as u64;
        Ok(
            if u < 0x8000000000000000 {
                u as i64
            } else {
                ((u as i128) - 0x10000000000000000) as i64
            },
        )
    }

    /// Read a big-endian signed int, in two's complement.
    fn read_int(&mut self) -> (r: Result<i32, ProtocolError>)
        ensures
            old(self).readable().len() >= 4 ==> r is Ok && r->Ok_0 as int == {
                let v = be_value(old(self).readable().take(4));
                if v < 0x80000000 {
                    v as int
                } else {
                    v - 0x100000000
                }
            } && final(self).readable() == old(self).readable().skip(4),
            old(self).readable().len() < 4 ==> r is Err && r->Err_0
                == ProtocolError::ConnectionClosedError && final(self).readable().len() == 0,
    {
        let bytes = self.read_bytes(4)?;
        let v = be_read(&bytes);
        proof {
            lemma_be_value_bound(bytes@);
            vstd::arithmetic::power2::lemma2_to64();
        }
        let u = v as u32;
        Ok(
            if u < 0x80000000 {
                u as i32
            } else {
                ((u as i64) - 0x100000000) as i32
            },
        )
    }

    /// Read a UUID: sixteen raw bytes holding one big-endian 128-bit value.
    fn read_uuid(&mut self) -> (r: Result<u128, ProtocolError>)
        ensures
            old(self).readable().len() >= 16 ==> r is Ok && r->Ok_0 == be_value(
                old(self).readable().take(16),
            ) && final(self).readable() == old(self).readable().skip(16),
            old(self).readable().len() < 16 ==> r is Err && r->Err_0
                == ProtocolError::ConnectionClosedError && final(self).readable().len() == 0,
    {
        let bytes = self.read_bytes(16)?;
        let v = be_read(&bytes);
        Ok(v)
    }

    /// Read a VarInt as `usize`, with the number of bytes consumed.
    fn read_usize_varint_size(&mut self) -> (r: Result<(usize, usize), ProtocolError>)
        ensures
            match varint_parse(old(self).readable(), usize::BITS as nat) {
                VarIntOutcome::Done { value, size } => r is Ok && r->Ok_0.0 as nat == value
                    && r->Ok_0.1 == size && final(self).readable() == old(self).readable().skip(
                    size as int,
                ),
                VarIntOutcome::TooLong { size } => r is Err && r->Err_0
                    == ProtocolError::VarIntError && final(self).readable() == old(
                    self,
                ).readable().skip(size as int),
                VarIntOutcome::Exhausted => r is Err && r->Err_0
                    == ProtocolError::ConnectionClosedError && final(self).readable().len() == 0,
            },
    {
        let pair = self.read_varint_core(usize::BITS)?;
        proof {
            vstd::arithmetic::power2::lemma2_to64();
        }
        let v: usize = if usize::BITS == 32 {
            (pair.0 % 0x100000000) as usize
        } else {
            (pair.0 % 0x10000000000000000) as usize
        };
        Ok((v, pair.1))
    }

    /// Read a VarInt as `u8`, with the number of bytes consumed.
    fn read_u8_varint_size(&mut self) -> (r: Result<(u8, usize), ProtocolError>)
        ensures
            match varint_parse(old(self).readable(), 8) {
                VarIntOutcome::Done { value, size } => r is Ok && r->Ok_0.0 as nat == value
                    && r->Ok_0.1 == size && final(self).readable() == old(self).readable().skip(
                    size as int,
                ),
                VarIntOutcome::TooLong { size } => r is Err && r->Err_0
                    == ProtocolError::VarIntError && final(self).readable() == old(
                    self,
                ).readable().skip(size as int),
                VarIntOutcome::Exhausted => r is Err && r->Err_0
                    == ProtocolError::ConnectionClosedError && final(self).readable().len() == 0,
            },
    {
        let pair = self.read_varint_core(8)?;
        proof {
            vstd::arithmetic::power2::lemma2_to64();
        }
        Ok(((pair.0 % 256) as u8, pair.1))
    }

    /// Read a VarInt as `u16`, with the number of bytes consumed.
    fn read_u16_varint_size(&mut self) -> (r: Result<(u16, usize), ProtocolError>)
        ensures
            match varint_parse(old(self).readable(), 16) {
                VarIntOutcome::Done { value, size } => r is Ok && r->Ok_0.0 as nat == value
                    && r->Ok_0.1 == size && final(self).readable() == old(self).readable().skip(
                    size as int,
                ),
                VarIntOutcome::TooLong { size } => r is Err && r->Err_0
                    == ProtocolError::VarIntError && final(self).readable() == old(
                    self,
                ).readable().skip(size as int),
                VarIntOutcome::Exhausted => r is Err && r->Err_0
                    == ProtocolError::ConnectionClosedError && final(self).readable().len() == 0,
            },
    {
        let pair = self.read_varint_core(16)?;
        proof {
            vstd::arithmetic::power2::lemma2_to64();
        }
        Ok(((pair.0 % 0x10000) as u16, pair.1))
    }

    /// Read a VarInt as `u32`, with the number of bytes consumed.
    fn read_u32_varint_size(&mut self) -> (r: Result<(u32, usize), ProtocolError>)
        ensures
            match varint_parse(old(self).readable(), 32) {
                VarIntOutcome::Done { value, size } => r is Ok && r->Ok_0.0 as nat == value
                    && r->Ok_0.1 == size && final(self).readable() == old(self).readable().skip(
                    size as int,
                ),
                VarIntOutcome::TooLong { size } => r is Err && r->Err_0
                    == ProtocolError::VarIntError && final(self).readable() == old(
                    self,
                ).readable().skip(size as int),
                VarIntOutcome::Exhausted => r is Err && r->Err_0
                    == ProtocolError::ConnectionClosedError && final(self).readable().len() == 0,
            },
    {
        let pair = self.read_varint_core(32)?;
        proof {
            vstd::arithmetic::power2::lemma2_to64();
        }
        Ok(((pair.0 % 0x100000000) as u32, pair.1))
    }

    /// Read a VarInt as `u64`, with the number of bytes consumed.
    fn read_u64_varint_size(&mut self) -> (r: Result<(u64, usize), ProtocolError>)
        ensures
            match varint_parse(old(self).readable(), 64) {
                VarIntOutcome::Done { value, size } => r is Ok && r->Ok_0.0 as nat == value
                    && r->Ok_0.1 == size && final(self).readable() == old(self).readable().skip(
                    size as int,
                ),
                VarIntOutcome::TooLong { size } => r is Err && r->Err_0
                    == ProtocolError::VarIntError && final(self).readable() == old(
                    self,
                ).readable().skip(size as int),
                VarIntOutcome::Exhausted => r is Err && r->Err_0
                    == ProtocolError::ConnectionClosedError && final(self).readable().len() == 0,
            },
    {
        let pair = self.read_varint_core(64)?;
        proof {
            vstd::arithmetic::power2::lemma2_to64();
        }
        Ok(((pair.0 % 0x10000000000000000) as u64, pair.1))
    }

    /// Read a VarInt as `u128`, with the number of bytes consumed.
    fn read_u128_varint_size(&mut self) -> (r: Result<(u128, usize), ProtocolError>)
        ensures
            match varint_parse(old(self).readable(), 128) {
                VarIntOutcome::Done { value, size } => r is Ok && r->Ok_0.0 as nat == value
                    && r->Ok_0.1 == size && final(self).readable() == old(self).readable().skip(
                    size as int,
                ),
                VarIntOutcome::TooLong { size } => r is Err && r->Err_0
                    == ProtocolError::VarIntError && final(self).readable() == old(
                    self,
                ).readable().skip(size as int),
                VarIntOutcome::Exhausted => r is Err && r->Err_0
                    == ProtocolError::ConnectionClosedError && final(self).readable().len() == 0,
            },
    {
        let pair = self.read_varint_core(128)?;
        proof {
            lemma_pow2_128();
            lemma_varint_parse_bounds(old(self).readable(), 128);
            vstd::arithmetic::div_mod::lemma_small_mod(
                pair.0 as nat,
                vstd::arithmetic::power2::pow2(128),
            );
        }
        Ok(pair)
    }

    /// Read a VarInt as `isize`, with the number of bytes consumed.
    fn read_isize_varint_size(&mut self) -> (r: Result<(isize, usize), ProtocolError>)
        ensures
            match varint_parse(old(self).readable(), usize::BITS as nat) {
                VarIntOutcome::Done { value, size } => r is Ok && r->Ok_0.0 as int
                    == unzigzag_spec(value as int) && r->Ok_0.1 == size && final(self).readable()
                    == old(self).readable().skip(size as int),
                VarIntOutcome::TooLong { size } => r is Err && r->Err_0
                    == ProtocolError::VarIntError && final(self).readable() == old(
                    self,
                ).readable().skip(size as int),
                VarIntOutcome::Exhausted => r is Err && r->Err_0
                    == ProtocolError::ConnectionClosedError && final(self).readable().len() == 0,
            },
    {
        let i = self.read_usize_varint_size()?;
        Ok((i.0.zigzag(), i.1))
    }

    /// Read a VarInt as `i8`, with the number of bytes consumed.
    fn read_i8_varint_size(&mut self) -> (r: Result<(i8, usize), ProtocolError>)
        ensures
            match varint_parse(old(self).readable(), 8) {
                VarIntOutcome::Done { value, size } => r is Ok && r->Ok_0.0 as int
                    == unzigzag_spec(value as int) && r->Ok_0.1 == size && final(self).readable()
                    == old(self).readable().skip(size as int),
                VarIntOutcome::TooLong { size } => r is Err && r->Err_0
                    == ProtocolError::VarIntError && final(self).readable() == old(
                    self,
                ).readable().skip(size as int),
                VarIntOutcome::Exhausted => r is Err && r->Err_0
                    == ProtocolError::ConnectionClosedError && final(self).readable().len() == 0,
            },
    {
        let i = self.read_u8_varint_size()?;
        Ok((i.0.zigzag(), i.1))
    }

    /// Read a VarInt as `i16`, with the number of bytes consumed.
    fn read_i16_varint_size(&mut self) -> (r: Result<(i16, usize), ProtocolError>)
        ensures
            match varint_parse(old(self).readable(), 16) {
                VarIntOutcome::Done { value, size } => r is Ok && r->Ok_0.0 as int
                    == unzigzag_spec(value as int) && r->Ok_0.1 == size && final(self).readable()
                    == old(self).readable().skip(size as int),
                VarIntOutcome::TooLong { size } => r is Err && r->Err_0
                    == ProtocolError::VarIntError && final(self).readable() == old(
                    self,
                ).readable().skip(size as int),
                VarIntOutcome::Exhausted => r is Err && r->Err_0
                    == ProtocolError::ConnectionClosedError && final(self).readable().len() == 0,
            },
    {
        let i = self.read_u16_varint_size()?;
        Ok((i.0.zigzag(), i.1))
    }

    /// Read a VarInt as `i32`, with the number of bytes consumed.
    fn read_i32_varint_size(&mut self) -> (r: Result<(i32, usize), ProtocolError>)
        ensures
            match varint_parse(old(self).readable(), 32) {
                VarIntOutcome::Done { value, size } => r is Ok && r->Ok_0.0 as int
                    == unzigzag_spec(value as int) && r->Ok_0.1 == size && final(self).readable()
                    == old(self).readable().skip(size as int),
                VarIntOutcome::TooLong { size } => r is Err && r->Err_0
                    == ProtocolError::VarIntError && final(self).readable() == old(
                    self,
                ).readable().skip(size as int),
                VarIntOutcome::Exhausted => r is Err && r->Err_0
                    == ProtocolError::ConnectionClosedError && final(self).readable().len() == 0,
            },
    {
        let i = self.read_u32_varint_size()?;
        Ok((i.0.zigzag(), i.1))
    }

    /// Read a VarInt as `i64`, with the number of bytes consumed.
    fn read_i64_varint_size(&mut self) -> (r: Result<(i64, usize), ProtocolError>)
        ensures
            match varint_parse(old(self).readable(), 64) {
                VarIntOutcome::Done { value, size } => r is Ok && r->Ok_0.0 as int
                    == unzigzag_spec(value as int) && r->Ok_0.1 == size && final(self).readable()
                    == old(self).readable().skip(size as int),
                VarIntOutcome::TooLong { size } => r is Err && r->Err_0
                    == ProtocolError::VarIntError && final(self).readable() == old(
                    self,
                ).readable().skip(size as int),
                VarIntOutcome::Exhausted => r is Err && r->Err_0
                    == ProtocolError::ConnectionClosedError && final(self).readable().len() == 0,
            },
    {
        let i = self.read_u64_varint_size()?;
        Ok((i.0.zigzag(), i.1))
    }

    /// Read a VarInt as `i128`, with the number of bytes consumed.
    fn read_i128_varint_size(&mut self) -> (r: Result<(i128, usize), ProtocolError>)
        ensures
            match varint_parse(old(self).readable(), 128) {
                VarIntOutcome::Done { value, size } => r is Ok && r->Ok_0.0 as int
                    == unzigzag_spec(value as int) && r->Ok_0.1 == size && final(self).readable()
                    == old(self).readable().skip(size as int),
                VarIntOutcome::TooLong { size } => r is Err && r->Err_0
                    == ProtocolError::VarIntError && final(self).readable() == old(
                    self,
                ).readable().skip(size as int),
                VarIntOutcome::Exhausted => r is Err && r->Err_0
                    == ProtocolError::ConnectionClosedError && final(self).readable().len() == 0,
            },
    {
        let i = self.read_u128_varint_size()?;
        Ok((i.0.zigzag(), i.1))
    }

    /// Read a VarInt as `usize`.
    fn read_usize_varint(&mut self) -> (r: Result<usize, ProtocolError>)
        ensures
            match varint_parse(old(self).readable(), usize::BITS as nat) {
                VarIntOutcome::Done { value, size } => r is Ok && r->Ok_0 as nat == value && final(self).readable() == old(self).readable().skip(size as int),
                VarIntOutcome::TooLong { size } => r is Err && r->Err_0
                    == ProtocolError::VarIntError && final(self).readable() == old(
                    self,
                ).readable().skip(size as int),
                VarIntOutcome::Exhausted => r is Err && r->Err_0
                    == ProtocolError::ConnectionClosedError && final(self).readable().len() == 0,
            },
    {
        let pair = self.read_usize_varint_size()?;
        Ok(pair.0)
    }

    /// Read a VarInt as `u8`.
    fn read_u8_varint(&mut self) -> (r: Result<u8, ProtocolError>)
        ensures
            match varint_parse(old(self).readable(), 8) {
                VarIntOutcome::Done { value, size } => r is Ok && r->Ok_0 as nat == value && final(self).readable() == old(self).readable().skip(size as int),
                VarIntOutcome::TooLong { size } => r is Err && r->Err_0
                    == ProtocolError::VarIntError && final(self).readable() == old(
                    self,
                ).readable().skip(size as int),
                VarIntOutcome::Exhausted => r is Err && r->Err_0
                    == ProtocolError::ConnectionClosedError && final(self).readable().len() == 0,
            },
    {
        let pair = self.read_u8_varint_size()?;
        Ok(pair.0)
    }

    /// Read a VarInt as `u16`.
    fn read_u16_varint(&mut self) -> (r: Result<u16, ProtocolError>)
        ensures
            match varint_parse(old(self).readable(), 16) {
                VarIntOutcome::Done { value, size } => r is Ok && r->Ok_0 as nat == value && final(self).readable() == old(self).readable().skip(size as int),
                VarIntOutcome::TooLong { size } => r is Err && r->Err_0
                    == ProtocolError::VarIntError && final(self).readable() == old(
                    self,
                ).readable().skip(size as int),
                VarIntOutcome::Exhausted => r is Err && r->Err_0
                    == ProtocolError::ConnectionClosedError && final(self).readable().len() == 0,
            },
    {
        let pair = self.read_u16_varint_size()?;
        Ok(pair.0)
    }

    /// Read a VarInt as `u32`.
    fn read_u32_varint(&mut self) -> (r: Result<u32, ProtocolError>)
        ensures
            match varint_parse(old(self).readable(), 32) {
                VarIntOutcome::Done { value, size } => r is Ok && r->Ok_0 as nat == value && final(self).readable() == old(self).readable().skip(size as int),
                VarIntOutcome::TooLong { size } => r is Err && r->Err_0
                    == ProtocolError::VarIntError && final(self).readable() == old(
                    self,
                ).readable().skip(size as int),
                VarIntOutcome::Exhausted => r is Err && r->Err_0
                    == ProtocolError::ConnectionClosedError && final(self).readable().len() == 0,
            },
    {
        let pair = self.read_u32_varint_size()?;
        Ok(pair.0)
    }

    /// Read a VarInt as `u64`.
    fn read_u64_varint(&mut self) -> (r: Result<u64, ProtocolError>)
        ensures
            match varint_parse(old(self).readable(), 64) {
                VarIntOutcome::Done { value, size } => r is Ok && r->Ok_0 as nat == value && final(self).readable() == old(self).readable().skip(size as int),
                VarIntOutcome::TooLong { size } => r is Err && r->Err_0
                    == ProtocolError::VarIntError && final(self).readable() == old(
                    self,
                ).readable().skip(size as int),
                VarIntOutcome::Exhausted => r is Err && r->Err_0
                    == ProtocolError::ConnectionClosedError && final(self).readable().len() == 0,
            },
    {
        let pair = self.read_u64_varint_size()?;
        Ok(pair.0)
    }

    /// Read a VarInt as `u128`.
    fn read_u128_varint(&mut self) -> (r: Result<u128, ProtocolError>)
        ensures
            match varint_parse(old(self).readable(), 128) {
                VarIntOutcome::Done { value, size } => r is Ok && r->Ok_0 as nat == value && final(self).readable() == old(self).readable().skip(size as int),
                VarIntOutcome::TooLong { size } => r is Err && r->Err_0
                    == ProtocolError::VarIntError && final(self).readable() == old(
                    self,
                ).readable().skip(size as int),
                VarIntOutcome::Exhausted => r is Err && r->Err_0
                    == ProtocolError::ConnectionClosedError && final(self).readable().len() == 0,
            },
    {
        let pair = self.read_u128_varint_size()?;
        Ok(pair.0)
    }

    /// Read a VarInt as `isize`, through the zigzag transform.
    fn read_isize_varint(&mut self) -> (r: Result<isize, ProtocolError>)
        ensures
            match varint_parse(old(self).readable(), usize::BITS as nat) {
                VarIntOutcome::Done { value, size } => r is Ok && r->Ok_0 as int == unzigzag_spec(
                    value as int,
                ) && final(self).readable() == old(self).readable().skip(size as int),
                VarIntOutcome::TooLong { size } => r is Err && r->Err_0
                    == ProtocolError::VarIntError && final(self).readable() == old(
                    self,
                ).readable().skip(size as int),
                VarIntOutcome::Exhausted => r is Err && r->Err_0
                    == ProtocolError::ConnectionClosedError && final(self).readable().len() == 0,
            },
    {
        let v = self.read_usize_varint()?;
        Ok(v.zigzag())
    }

    /// Read a VarInt as `i8`, through the zigzag transform.
    fn read_i8_varint(&mut self) -> (r: Result<i8, ProtocolError>)
        ensures
            match varint_parse(old(self).readable(), 8) {
                VarIntOutcome::Done { value, size } => r is Ok && r->Ok_0 as int == unzigzag_spec(
                    value as int,
                ) && final(self).readable() == old(self).readable().skip(size as int),
                VarIntOutcome::TooLong { size } => r is Err && r->Err_0
                    == ProtocolError::VarIntError && final(self).readable() == old(
                    self,
                ).readable().skip(size as int),
                VarIntOutcome::Exhausted => r is Err && r->Err_0
                    == ProtocolError::ConnectionClosedError && final(self).readable().len() == 0,
            },
    {
        let v = self.read_u8_varint()?;
        Ok(v.zigzag())
    }

    /// Read a VarInt as `i16`, through the zigzag transform.
    fn read_i16_varint(&mut self) -> (r: Result<i16, ProtocolError>)
        ensures
            match varint_parse(old(self).readable(), 16) {
                VarIntOutcome::Done { value, size } => r is Ok && r->Ok_0 as int == unzigzag_spec(
                    value as int,
                ) && final(self).readable() == old(self).readable().skip(size as int),
                VarIntOutcome::TooLong { size } => r is Err && r->Err_0
                    == ProtocolError::VarIntError && final(self).readable() == old(
                    self,
                ).readable().skip(size as int),
                VarIntOutcome::Exhausted => r is Err && r->Err_0
                    == ProtocolError::ConnectionClosedError && final(self).readable().len() == 0,
            },
    {
        let v = self.read_u16_varint()?;
        Ok(v.zigzag())
    }

    /// Read a VarInt as `i32`, through the zigzag transform.
    fn read_i32_varint(&mut self) -> (r: Result<i32, ProtocolError>)
        ensures
            match varint_parse(old(self).readable(), 32) {
                VarIntOutcome::Done { value, size } => r is Ok && r->Ok_0 as int == unzigzag_spec(
                    value as int,
                ) && final(self).readable() == old(self).readable().skip(size as int),
                VarIntOutcome::TooLong { size } => r is Err && r->Err_0
                    == ProtocolError::VarIntError && final(self).readable() == old(
                    self,
                ).readable().skip(size as int),
                VarIntOutcome::Exhausted => r is Err && r->Err_0
                    == ProtocolError::ConnectionClosedError && final(self).readable().len() == 0,
            },
    {
        let v = self.read_u32_varint()?;
        Ok(v.zigzag())
    }

    /// Read a VarInt as `i64`, through the zigzag transform.
    fn read_i64_varint(&mut self) -> (r: Result<i64, ProtocolError>)
        ensures
            match varint_parse(old(self).readable(), 64) {
                VarIntOutcome::Done { value, size } => r is Ok && r->Ok_0 as int == unzigzag_spec(
                    value as int,
                ) && final(self).readable() == old(self).readable().skip(size as int),
                VarIntOutcome::TooLong { size } => r is Err && r->Err_0
                    == ProtocolError::VarIntError && final(self).readable() == old(
                    self,
                ).readable().skip(size as int),
                VarIntOutcome::Exhausted => r is Err && r->Err_0
                    == ProtocolError::ConnectionClosedError && final(self).readable().len() == 0,
            },
    {
        let v = self.read_u64_varint()?;
        Ok(v.zigzag())
    }

    /// Read a VarInt as `i128`, through the zigzag transform.
    fn read_i128_varint(&mut self) -> (r: Result<i128, ProtocolError>)
        ensures
            match varint_parse(old(self).readable(), 128) {
                VarIntOutcome::Done { value, size } => r is Ok && r->Ok_0 as int == unzigzag_spec(
                    value as int,
                ) && final(self).readable() == old(self).readable().skip(size as int),
                VarIntOutcome::TooLong { size } => r is Err && r->Err_0
                    == ProtocolError::VarIntError && final(self).readable() == old(
                    self,
                ).readable().skip(size as int),
                VarIntOutcome::Exhausted => r is Err && r->Err_0
                    == ProtocolError::ConnectionClosedError && final(self).readable().len() == 0,
            },
    {
        let v = self.read_u128_varint()?;
        Ok(v.zigzag())
    }
    /// Decode one VarInt of the given width from the reader, returning the raw
    /// 128-bit accumulator (reduce it modulo the width to get the value) and the
    /// number of bytes consumed.
    fn read_varint_core(&mut self, bits: u32) -> (res: Result<(u128, usize), ProtocolError>)
        requires
            1 <= bits <= 128,
        ensures
            match varint_parse(old(self).readable(), bits as nat) {
                VarIntOutcome::Done { value, size } => res is Ok && (res->Ok_0.0 as nat) % pow2(
                    bits as nat,
                ) == value && res->Ok_0.1 == size && final(self).readable() == old(self).readable().skip(
                    size as int,
                ),
                VarIntOutcome::TooLong { size } => res is Err && res->Err_0
                    == ProtocolError::VarIntError && final(self).readable() == old(self).readable().skip(
                    size as int,
                ),
                VarIntOutcome::Exhausted => res is Err && res->Err_0
                    == ProtocolError::ConnectionClosedError && final(self).readable().len() == 0,
            },
    {
        let mut shift: u32 = 0;
        let mut decoded: u128 = 0;
        let mut mult: u128 = 1;
        let mut size: usize = 0;
        let ghost mut prefix: nat = 0nat;
        proof {
            vstd::arithmetic::power2::lemma2_to64();
            lemma_pow2_128();
        }
        loop
            invariant
                1 <= bits <= 128,
                shift == 7 * size,
                shift <= bits + 6,
                size <= old(self).readable().len(),
                self.readable() == old(self).readable().skip(size as int),
                prefix < pow2(shift as nat),
                decoded as nat == prefix % pow2(128),
                mult as nat == pow2(shift as nat) % pow2(128),
                pow2(128) == 0x100000000000000000000000000000000,
                (match varint_parse_chain(self.readable(), bits - 7 * (size as int)) {
                    VarIntOutcome::Done { value, size: s2 } => varint_parse_chain(
                        old(self).readable(),
                        bits as int,
                    ) == (VarIntOutcome::Done {
                        value: (prefix + value * pow2(shift as nat)) as nat,
                        size: (size + s2) as nat,
                    }),
                    VarIntOutcome::TooLong { size: s2 } => varint_parse_chain(
                        old(self).readable(),
                        bits as int,
                    ) == (VarIntOutcome::TooLong { size: (size + s2) as nat }),
                    VarIntOutcome::Exhausted => varint_parse_chain(old(self).readable(), bits as int)
                        == VarIntOutcome::Exhausted,
                }),
            decreases bits + 7 - shift,
        {
            proof {
                vstd::arithmetic::power2::lemma2_to64();
            }
            let ghost cur = self.readable();
            let ghost bl = bits - 7 * (size as int);
            if shift >= bits {
                proof {
                    assert(varint_parse_chain(cur, bl) == (VarIntOutcome::TooLong { size: 0nat }));
                }
                return Err(ProtocolError::VarIntError);
            }
            let next = self.read_byte()?;
            size = size + 1;
            let group: u8 = next % 128;
            let w: u128 = (group as u128).wrapping_mul(mult);
            proof {
                // the contribution of this group, reduced modulo the accumulator width
                lemma_pow2_pos(shift as nat);
                lemma_mul_mod_noop_right(group as int, pow2(shift as nat) as int, pow2(128) as int);
                assert(w as nat == (group * pow2(shift as nat)) % (pow2(128) as int));
            }
            let old_decoded = decoded;
            decoded = decoded.wrapping_add(w);
            proof {
                lemma_add_mod_noop(prefix as int, (group * pow2(shift as nat)) as int, pow2(128) as int);
                assert(decoded as nat == (prefix + group * pow2(shift as nat)) % (pow2(128) as int));
            }
            if next >= 128 {
                proof {
                    assert(cur.drop_first() =~= old(self).readable().skip(size as int));
                    // widen the partial sum by one group
                    assert(prefix + group * pow2(shift as nat) < pow2((shift + 7) as nat)) by {
                        lemma_pow2_adds(shift as nat, 7);
                        assert(group * pow2(shift as nat) <= 127 * pow2(shift as nat))
                            by (nonlinear_arith)
                            requires
                                group <= 127,
                                pow2(shift as nat) >= 0,
                        ;
                    }
                    // re-associate the chain decomposition for the value still to come
                    match varint_parse_chain(cur.drop_first(), bl - 7) {
                        VarIntOutcome::Done { value: v, size: _ } => {
                            lemma_pow2_adds(shift as nat, 7);
                            assert(((next - 128) + 128 * v) * pow2(shift as nat) == (next - 128) * pow2(
                                shift as nat,
                            ) + v * (128 * pow2(shift as nat))) by (nonlinear_arith);
                            assert((prefix + ((next - 128) + 128 * v) * pow2(shift as nat)) == ((prefix
                                + group * pow2(shift as nat)) + v * pow2((shift + 7) as nat)));
                        },
                        _ => {},
                    }
                    prefix = prefix + (group * pow2(shift as nat)) as nat;
                    // keep the multiplier one group ahead
                    lemma_mul_mod_noop_left(pow2(shift as nat) as int, 128, pow2(128) as int);
                    lemma_pow2_adds(shift as nat, 7);
                }
                mult = mult.wrapping_mul(128);
                shift = shift + 7;
            } else {
                proof {
                    assert(varint_parse_chain(cur, bl) == (VarIntOutcome::Done {
                        value: next as nat,
                        size: 1nat,
                    }));
                    assert(varint_parse_chain(old(self).readable(), bits as int)
                        == (VarIntOutcome::Done {
                        value: (prefix + next * pow2(shift as nat)) as nat,
                        size: size as nat,
                    }));
                    // reducing modulo the width commutes with the wider accumulator
                    lemma_pow2_adds(bits as nat, (128 - bits) as nat);
                    lemma_pow2_pos(bits as nat);
                    lemma_pow2_pos((128 - bits) as nat);
                    lemma_mod_mod(
                        (prefix + next * pow2(shift as nat)) as int,
                        pow2(bits as nat) as int,
                        pow2((128 - bits) as nat) as int,
                    );
                    assert(self.readable() =~= old(self).readable().skip(size as int));
                }
                return Ok((decoded, size));
            }
        }
    }
}

} // verus!
