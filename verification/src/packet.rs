//! A packet: an id together with a byte payload held in a cursor.  All the
//! primitive reader and writer operations run directly over the payload —
//! reads consume from the front, writes append at the end.

use vstd::prelude::*;
use vstd::slice::slice_to_vec;

use crate::cursor::DataCursor;
use crate::data::reader::DataReader;
use crate::data::writer::DataWriter;
use crate::varint::{lemma_varint_parse_bounds, varint_parse, VarIntOutcome};
use crate::ProtocolError;

verus! {

/// An application-level unit of data: an id and a payload with independent
/// read and write positions.
#[derive(Debug, Clone)]
pub struct Packet {
    id: u8,
    cursor: DataCursor,
}

impl Packet {
    /// The packet id.
    pub closed spec fn id_spec(&self) -> u8 {
        self.id
    }

    /// The whole payload buffer.
    pub closed spec fn data_spec(&self) -> Seq<u8> {
        self.cursor.data_spec()
    }

    /// The read position inside the payload.
    pub closed spec fn position_spec(&self) -> nat {
        self.cursor.position_spec()
    }

    /// What a packet reads next: the payload from the read position on, and
    /// nothing once the position lies past the end; what it has written: the
    /// whole payload.
    pub proof fn lemma_model(self)
        ensures
            self.readable() == if self.position_spec() <= self.data_spec().len() {
                self.data_spec().skip(self.position_spec() as int)
            } else {
                Seq::<u8>::empty()
            },
            self.written() == self.data_spec(),
    {
        self.cursor.lemma_model();
    }

    /// A packet from an id and an existing cursor.
    pub fn new(id: u8, cursor: DataCursor) -> (r: Packet)
        ensures
            r.id_spec() == id,
            r.data_spec() == cursor.data_spec(),
            r.position_spec() == cursor.position_spec(),
    {
        Packet { id, cursor }
    }

    /// A packet from a decoded frame body: the leading VarInt is the id, the
    /// remainder is the payload.
    pub fn from_data(data: &[u8]) -> (r: Result<Packet, ProtocolError>)
        ensures
            match varint_parse(data@, 8) {
                VarIntOutcome::Done { value, size } => r is Ok && r->Ok_0.id_spec() == value
                    && r->Ok_0.data_spec() == data@.skip(size as int) && r->Ok_0.position_spec()
                    == 0,
                VarIntOutcome::TooLong { size } => r is Err && r->Err_0
                    == ProtocolError::VarIntError,
                VarIntOutcome::Exhausted => r is Err && r->Err_0
                    == ProtocolError::ConnectionClosedError,
            },
    {
        let mut cursor = DataCursor::new(slice_to_vec(data));
        let pair = cursor.read_u8_varint_size()?;
        proof {
            lemma_varint_parse_bounds(data@, 8);
        }
        let packet_data = cursor.read_bytes(data.len() - pair.1)?;
        proof {
            assert(packet_data@ =~= data@.skip(pair.1 as int));
        }
        Ok(Packet { id: pair.0, cursor: DataCursor::new(packet_data) })
    }

    /// A packet from an id and a payload.
    pub fn from_bytes(id: u8, data: &[u8]) -> (r: Packet)
        ensures
            r.id_spec() == id,
            r.data_spec() == data@,
            r.position_spec() == 0,
    {
        Packet { id, cursor: DataCursor::new(slice_to_vec(data)) }
    }

    /// A packet with an id and an empty payload.
    pub fn empty(id: u8) -> (r: Packet)
        ensures
            r.id_spec() == id,
            r.data_spec() == Seq::<u8>::empty(),
            r.position_spec() == 0,
    {
        Packet { id, cursor: DataCursor::empty() }
    }

    /// Build a packet: hand an empty packet with the given id to the builder
    /// and return what it produces, propagating its error.
    pub fn build<F: FnOnce(Packet) -> Result<Packet, ProtocolError>>(id: u8, builder: F) -> (r:
        Result<Packet, ProtocolError>)
        requires
            forall|p: Packet|
                p.id_spec() == id && p.data_spec() == Seq::<u8>::empty() && p.position_spec() == 0
                    ==> #[trigger] call_requires(builder, (p,)),
        ensures
            r is Ok ==> exists|p: Packet|
                p.id_spec() == id && p.data_spec() == Seq::<u8>::empty() && p.position_spec() == 0
                    && #[trigger] call_ensures(builder, (p,), Ok(r->Ok_0)),
            r is Err ==> exists|p: Packet|
                p.id_spec() == id && p.data_spec() == Seq::<u8>::empty() && p.position_spec() == 0
                    && #[trigger] call_ensures(builder, (p,), Err(r->Err_0)),
    {
        let packet = Self::empty(id);
        match builder(packet) {
            Ok(p) => Ok(p),
            Err(e) => Err(e),
        }
    }

    /// The packet id.
    pub fn id(&self) -> (r: u8)
        ensures
            r == self.id_spec(),
    {
        self.id
    }

    /// Replace the packet id.
    pub fn set_id(&mut self, id: u8)
        ensures
            final(self).id_spec() == id,
            final(self).data_spec() == old(self).data_spec(),
            final(self).position_spec() == old(self).position_spec(),
    {
        self.id = id;
    }

    /// Replace the payload cursor.
    pub fn set_cursor(&mut self, cursor: DataCursor)
        ensures
            final(self).id_spec() == old(self).id_spec(),
            final(self).data_spec() == cursor.data_spec(),
            final(self).position_spec() == cursor.position_spec(),
    {
        self.cursor = cursor;
    }

    /// How many payload bytes are still unread.
    pub fn len(&self) -> (r: usize)
        ensures
            r == self.readable().len(),
    {
        self.cursor.remaining()
    }

    /// Whether no payload bytes are left to read.
    pub fn is_empty(&self) -> (r: bool)
        ensures
            r == (self.readable().len() == 0),
    {
        self.len() == 0
    }

    /// The whole payload buffer.
    pub fn get_bytes(&self) -> (r: &[u8])
        ensures
            r@ == self.data_spec(),
    {
        self.cursor.get_ref().as_slice()
    }

    /// Borrow the payload cursor mutably.
    pub fn get_mut(&mut self) -> (r: &mut DataCursor)
        ensures
            r.data_spec() == old(self).data_spec(),
            r.position_spec() == old(self).position_spec(),
            final(self).id_spec() == old(self).id_spec(),
            final(self).data_spec() == final(r).data_spec(),
            final(self).position_spec() == final(r).position_spec(),
    {
        &mut self.cursor
    }

    /// Borrow the payload cursor.
    pub fn get_ref(&self) -> (r: &DataCursor)
        ensures
            r.data_spec() == self.data_spec(),
            r.position_spec() == self.position_spec(),
    {
        &self.cursor
    }

    /// Take the payload cursor.
    pub fn into_inner(self) -> (r: DataCursor)
        ensures
            r.data_spec() == self.data_spec(),
            r.position_spec() == self.position_spec(),
    {
        self.cursor
    }
}

impl DataReader for Packet {
    closed spec fn readable(&self) -> Seq<u8> {
        self.cursor.readable()
    }

    fn read_bytes(&mut self, size: usize) -> (r: Result<Vec<u8>, ProtocolError>)
        ensures
            final(self).id_spec() == old(self).id_spec(),
            final(self).data_spec() == old(self).data_spec(),
            r is Ok ==> final(self).position_spec() == old(self).position_spec() + size,
            r is Err ==> final(self).position_spec() == old(self).data_spec().len(),
    {
        self.cursor.read_bytes(size)
    }
}

impl DataWriter for Packet {
    closed spec fn written(&self) -> Seq<u8> {
        self.cursor.written()
    }

    open spec fn always_accepts(&self) -> bool {
        true
    }

    fn write_bytes(&mut self, bytes: &[u8]) -> (r: Result<(), ProtocolError>)
        ensures
            r is Ok,
            final(self).id_spec() == old(self).id_spec(),
            final(self).data_spec() == old(self).data_spec() + bytes@,
            final(self).position_spec() == old(self).position_spec(),
    {
        self.cursor.write_bytes(bytes)
    }
}

} // verus!
