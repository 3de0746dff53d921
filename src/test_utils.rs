//! An in-memory byte source: bytes are pushed in at the back and read from
//! the front, one field at a time.
use crate::common_deserializers::{
    parse_bool, parse_byte, parse_byte_array, parse_i32, parse_i64, parse_pascal_string,
    read_bool, read_byte, read_byte_array, read_i32, read_i64, read_pascal_string,
    Parsed,
};
use crate::my_sb_socket_error::MySbSocketError;
use vstd::prelude::*;

verus! {

pub struct DataReaderMock {
    data: Vec<u8>,
    pos: usize,
}

/// The reader after a read with outcome `r`: on success it has moved past the
/// value, on failure it has not moved.
pub open spec fn advanced<V: View>(
    old_pos: nat,
    new_pos: nat,
    r: Result<V, MySbSocketError>,
    s: Parsed<V::V>,
) -> bool {
    match r {
        Ok(v) => s == Ok::<(V::V, int), MySbSocketError>((v@, new_pos as int)),
        Err(e) => s == Err::<(V::V, int), MySbSocketError>(e) && new_pos == old_pos,
    }
}

impl DataReaderMock {
    /// All bytes pushed so far.
    pub closed spec fn bytes(&self) -> Seq<u8> {
        self.data@
    }

    /// How many of them have been read.
    pub closed spec fn position(&self) -> nat {
        self.pos as nat
    }

    pub open spec fn wf(&self) -> bool {
        self.position() <= self.bytes().len()
    }

    pub fn new() -> (r: DataReaderMock)
        ensures
            r.wf(),
            r.bytes() == Seq::<u8>::empty(),
            r.position() == 0,
    {
        DataReaderMock { data: Vec::new(), pos: 0 }
    }

    /// Adds `data` at the back.
    pub fn push(&mut self, data: &[u8])
        requires
            old(self).wf(),
        ensures
            final(self).wf(),
            final(self).bytes() == old(self).bytes() + data@,
            final(self).position() == old(self).position(),
    {
        let mut i: usize = 0;
        let ghost start = self.data@;
        let ghost pos = self.pos;
        while i < data.len()
            invariant
                i <= data@.len(),
                self.pos == pos,
                pos <= start.len(),
                self.data@ == start + data@.subrange(0, i as int),
            decreases data@.len() - i,
        {
            self.data.push(data[i]);
            i = i + 1;
            assert(self.data@ =~= start + data@.subrange(0, i as int));
        }
        assert(data@.subrange(0, data@.len() as int) =~= data@);
    }

    pub fn read_byte(&mut self) -> (r: Result<u8, MySbSocketError>)
        requires
            old(self).wf(),
        ensures
            final(self).wf(),
            final(self).bytes() == old(self).bytes(),
            advanced(
                old(self).position(),
                final(self).position(),
                r,
                parse_byte(old(self).bytes(), old(self).position() as int),
            ),
    {
        let (v, p) = read_byte(self.data.as_slice(), self.pos)?;
        self.pos = p;
        Ok(v)
    }

    pub fn read_bool(&mut self) -> (r: Result<bool, MySbSocketError>)
        requires
            old(self).wf(),
        ensures
            final(self).wf(),
            final(self).bytes() == old(self).bytes(),
            advanced(
                old(self).position(),
                final(self).position(),
                r,
                parse_bool(old(self).bytes(), old(self).position() as int),
            ),
    {
        let (v, p) = read_bool(self.data.as_slice(), self.pos)?;
        self.pos = p;
        Ok(v)
    }

    pub fn read_i32(&mut self) -> (r: Result<i32, MySbSocketError>)
        requires
            old(self).wf(),
        ensures
            final(self).wf(),
            final(self).bytes() == old(self).bytes(),
            advanced(
                old(self).position(),
                final(self).position(),
                r,
                parse_i32(old(self).bytes(), old(self).position() as int),
            ),
    {
        let (v, p) = read_i32(self.data.as_slice(), self.pos)?;
        self.pos = p;
        Ok(v)
    }

    pub fn read_i64(&mut self) -> (r: Result<i64, MySbSocketError>)
        requires
            old(self).wf(),
        ensures
            final(self).wf(),
            final(self).bytes() == old(self).bytes(),
            advanced(
                old(self).position(),
                final(self).position(),
                r,
                parse_i64(old(self).bytes(), old(self).position() as int),
            ),
    {
        let (v, p) = read_i64(self.data.as_slice(), self.pos)?;
        self.pos = p;
        Ok(v)
    }

    pub fn read_byte_array(&mut self) -> (r: Result<Vec<u8>, MySbSocketError>)
        requires
            old(self).wf(),
        ensures
            final(self).wf(),
            final(self).bytes() == old(self).bytes(),
            advanced(
                old(self).position(),
                final(self).position(),
                r,
                parse_byte_array(old(self).bytes(), old(self).position() as int),
            ),
    {
        let (v, p) = read_byte_array(self.data.as_slice(), self.pos)?;
        self.pos = p;
        Ok(v)
    }

    pub fn read_pascal_string(&mut self) -> (r: Result<String, MySbSocketError>)
        requires
            old(self).wf(),
        ensures
            final(self).wf(),
            final(self).bytes() == old(self).bytes(),
            advanced(
                old(self).position(),
                final(self).position(),
                r,
                parse_pascal_string(old(self).bytes(), old(self).position() as int),
            ),
    {
        let (v, p) = read_pascal_string(self.data.as_slice(), self.pos)?;
        self.pos = p;
        Ok(v)
    }
}

} // verus!
