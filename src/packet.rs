//! The packet under construction: the bytes written so far and the size the
//! packet may not exceed.
use vstd::prelude::*;

use crate::varint::{encode_varint_into, varint_bytes, VARINT_LIMIT};

verus! {

/// Appends `data` to `buf`.
pub fn append_bytes(buf: &mut Vec<u8>, data: &[u8])
    ensures
        final(buf)@ == old(buf)@ + data@,
{
    let mut i: usize = 0;
    while i < data.len()
        invariant
            i <= data@.len(),
            buf@ == old(buf)@ + data@.subrange(0, i as int),
        decreases data@.len() - i,
    {
        buf.push(data[i]);
        i = i + 1;
        assert(data@.subrange(0, i as int) == data@.subrange(0, i - 1) + seq![data@[i - 1]]);
    }
    assert(data@.subrange(0, data@.len() as int) == data@);
}

/// Assembles one packet; the writers of frames consult `remaining` before
/// they write.
pub struct PacketBuilder {
    buf: Vec<u8>,
    limit: usize,
}

impl PacketBuilder {
    /// The bytes written so far.
    pub closed spec fn bytes(&self) -> Seq<u8> {
        self.buf@
    }

    /// The size that the packet may not exceed.
    pub closed spec fn spec_limit(&self) -> nat {
        self.limit as nat
    }

    /// Bytes that may still be written before the limit is reached.
    pub open spec fn spec_remaining(&self) -> nat {
        if self.bytes().len() <= self.spec_limit() {
            (self.spec_limit() - self.bytes().len()) as nat
        } else {
            0
        }
    }

    /// An empty packet that may hold up to `limit` bytes.
    pub fn new(limit: usize) -> (r: PacketBuilder)
        ensures
            r.bytes() == Seq::<u8>::empty(),
            r.spec_limit() == limit,
    {
        PacketBuilder { buf: Vec::new(), limit }
    }

    /// Number of bytes written so far.
    pub fn len(&self) -> (r: usize)
        ensures
            r == self.bytes().len(),
    {
        self.buf.len()
    }

    /// The size that the packet may not exceed.
    pub fn limit(&self) -> (r: usize)
        ensures
            r == self.spec_limit(),
    {
        self.limit
    }

    /// Bytes that may still be written before the limit is reached.
    pub fn remaining(&self) -> (r: usize)
        ensures
            r == self.spec_remaining(),
    {
        if self.buf.len() <= self.limit {
            self.limit - self.buf.len()
        } else {
            0
        }
    }

    /// The bytes written so far.
    pub fn as_bytes(&self) -> (r: &[u8])
        ensures
            r@ == self.bytes(),
    {
        self.buf.as_slice()
    }

    /// Writes `v` as a variable-length integer.
    pub fn encode_varint(&mut self, v: u64)
        requires
            v < VARINT_LIMIT,
        ensures
            final(self).bytes() == old(self).bytes() + varint_bytes(v as nat),
            final(self).spec_limit() == old(self).spec_limit(),
    {
        encode_varint_into(&mut self.buf, v);
    }

    /// Writes `data` as it stands.
    pub fn encode(&mut self, data: &[u8])
        ensures
            final(self).bytes() == old(self).bytes() + data@,
            final(self).spec_limit() == old(self).spec_limit(),
    {
        append_bytes(&mut self.buf, data);
    }

    /// Writes the length of `data` as a variable-length integer, then `data`.
    pub fn encode_vvec(&mut self, data: &[u8])
        requires
            data@.len() < VARINT_LIMIT,
        ensures
            final(self).bytes() == old(self).bytes() + varint_bytes(data@.len()) + data@,
            final(self).spec_limit() == old(self).spec_limit(),
    {
        encode_varint_into(&mut self.buf, data.len() as u64);
        append_bytes(&mut self.buf, data);
    }
}

} // verus!
