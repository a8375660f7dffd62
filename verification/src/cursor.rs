//! An in-memory byte cursor: a growable buffer with a read position.  It is
//! both a reader and a writer — reads consume from the position forward,
//! writes append at the end and leave the read position alone — so it serves
//! as a packet's internal buffer and as an in-memory stream for a connection.

use vstd::prelude::*;
use vstd::slice::slice_to_vec;

use crate::data::reader::DataReader;
use crate::data::writer::DataWriter;
use crate::ProtocolError;

verus! {

/// A byte buffer with a read position.  Reading past the end reports the
/// peer-closed error, mirroring the zero-length read of an exhausted stream.
#[derive(Debug, Clone)]
pub struct DataCursor {
    data: Vec<u8>,
    position: usize,
}

impl DataCursor {
    /// The whole underlying buffer.
    pub closed spec fn data_spec(&self) -> Seq<u8> {
        self.data@
    }

    /// The read position; it can be moved past the end, where nothing is
    /// readable.
    pub closed spec fn position_spec(&self) -> nat {
        self.position as nat
    }

    /// What a cursor reads next: the buffer from the read position on, and
    /// nothing once the position lies past the end.  What it has accepted:
    /// the whole buffer.
    pub proof fn lemma_model(self)
        ensures
            self.readable() == if self.position_spec() <= self.data_spec().len() {
                self.data_spec().skip(self.position_spec() as int)
            } else {
                Seq::<u8>::empty()
            },
            self.written() == self.data_spec(),
    {
    }

    /// A cursor over a buffer, positioned at its start.
    pub fn new(data: Vec<u8>) -> (r: DataCursor)
        ensures
            r.data_spec() == data@,
            r.position_spec() == 0,
            r.readable() == data@,
    {
        let r = DataCursor { data, position: 0 };
        proof {
            assert(r.readable() =~= r.data_spec());
        }
        r
    }

    /// An empty cursor.
    pub fn empty() -> (r: DataCursor)
        ensures
            r.data_spec() == Seq::<u8>::empty(),
            r.position_spec() == 0,
            r.readable() == Seq::<u8>::empty(),
    {
        DataCursor::new(Vec::new())
    }

    /// The current read position.
    pub fn position(&self) -> (r: usize)
        ensures
            r == self.position_spec(),
    {
        self.position
    }

    /// How many bytes are still unread.
    pub fn remaining(&self) -> (r: usize)
        ensures
            r == self.readable().len(),
    {
        let len = self.data.len();
        if self.position <= len {
            len - self.position
        } else {
            0
        }
    }

    /// Move the read position.
    pub fn set_position(&mut self, position: usize)
        ensures
            final(self).data_spec() == old(self).data_spec(),
            final(self).position_spec() == position,
    {
        self.position = position;
    }

    /// The underlying buffer.
    pub fn get_ref(&self) -> (r: &Vec<u8>)
        ensures
            r@ == self.data_spec(),
    {
        &self.data
    }

    /// Take the underlying buffer.
    pub fn into_inner(self) -> (r: Vec<u8>)
        ensures
            r@ == self.data_spec(),
    {
        self.data
    }
}

impl DataReader for DataCursor {
    closed spec fn readable(&self) -> Seq<u8> {
        if self.position <= self.data@.len() {
            self.data@.skip(self.position as int)
        } else {
            Seq::<u8>::empty()
        }
    }

    fn read_bytes(&mut self, size: usize) -> (r: Result<Vec<u8>, ProtocolError>)
        ensures
            final(self).data_spec() == old(self).data_spec(),
            r is Ok ==> final(self).position_spec() == old(self).position_spec() + size,
            r is Err ==> final(self).position_spec() == old(self).data_spec().len(),
    {
        if size == 0 {
            let taken: Vec<u8> = Vec::new();
            proof {
                assert(taken@ =~= self.readable().take(0));
                assert(self.readable() =~= self.readable().skip(0));
            }
            return Ok(taken);
        }
        let len = self.data.len();
        let start: usize = if self.position <= len {
            self.position
        } else {
            len
        };
        if size <= len - start {
            let taken = slice_to_vec(&self.data.as_slice()[start..start + size]);
            proof {
                assert(taken@ =~= old(self).readable().take(size as int));
            }
            self.position = start + size;
            proof {
                assert(self.readable() =~= old(self).readable().skip(size as int));
            }
            Ok(taken)
        } else {
            self.position = len;
            proof {
                assert(self.readable() =~= Seq::<u8>::empty());
            }
            Err(ProtocolError::ConnectionClosedError)
        }
    }
}

impl DataWriter for DataCursor {
    closed spec fn written(&self) -> Seq<u8> {
        self.data@
    }

    open spec fn always_accepts(&self) -> bool {
        true
    }

    fn write_bytes(&mut self, bytes: &[u8]) -> (r: Result<(), ProtocolError>)
        ensures
            r is Ok,
            final(self).data_spec() == old(self).data_spec() + bytes@,
            final(self).position_spec() == old(self).position_spec(),
    {
        self.data.extend_from_slice(bytes);
        Ok(())
    }
}

} // verus!
