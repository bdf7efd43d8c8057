//! A cursor over a byte buffer with big-endian reads.
use vstd::prelude::*;
use crate::bytes::{be16, be32, be64, be16_value, be32_value, be64_value, lemma_be16_of, lemma_be32_of, lemma_be64_of};

verus! {

/// Why a class file could not be decoded.
#[derive(Debug, Clone, Copy, PartialEq, Eq, Structural)]
pub enum DecodeError {
    /// The file does not start with the class-file magic number.
    InvalidMagic,
    /// The input ended inside a structure.
    UnexpectedEnd,
    /// The bytes are not a well-formed class file.
    Malformed,
}

/// A byte buffer and the position of the next byte to read.
pub struct BlockReader {
    pub data: Vec<u8>,
    pub position: usize,
}

/// From `a` to `b` the reader read forward over the same data.
pub open spec fn progress(a: BlockReader, b: BlockReader) -> bool {
    &&& b.data@ == a.data@
    &&& a.position <= b.position <= b.data@.len()
}

/// From `a` to `b` the reader read exactly the bytes `s`.
pub open spec fn consumed(a: BlockReader, b: BlockReader, s: Seq<u8>) -> bool {
    &&& progress(a, b)
    &&& b.data@.subrange(a.position as int, b.position as int) == s
}

pub proof fn lemma_consumed_chain(a: BlockReader, b: BlockReader, c: BlockReader, s1: Seq<u8>, s2: Seq<u8>)
    requires
        consumed(a, b, s1),
        consumed(b, c, s2),
    ensures
        consumed(a, c, s1 + s2),
{
    assert(c.data@.subrange(a.position as int, c.position as int) =~= s1 + s2);
}

pub proof fn lemma_consumed_nothing(a: BlockReader)
    requires
        a.wf(),
    ensures
        consumed(a, a, Seq::empty()),
{
    assert(a.data@.subrange(a.position as int, a.position as int) =~= Seq::<u8>::empty());
}

impl BlockReader {
    pub open spec fn wf(&self) -> bool {
        self.position <= self.data@.len()
    }

    /// Number of bytes left to read.
    pub open spec fn remaining(&self) -> int {
        self.data@.len() - self.position
    }

    /// A reader at the start of `data`.
    pub fn new(data: Vec<u8>) -> (r: BlockReader)
        ensures
            r.wf(),
            r.data == data,
            r.position == 0,
    {
        BlockReader { data, position: 0 }
    }

    /// Position of the next byte to read.
    pub fn position(&self) -> (r: usize)
        ensures
            r == self.position,
    {
        self.position
    }

    /// Whether every byte has been read.
    pub fn at_end(&self) -> (r: bool)
        requires
            self.wf(),
        ensures
            r == (self.position == self.data@.len()),
    {
        self.position == self.data.len()
    }

    pub fn read_u8(&mut self) -> (r: Result<u8, DecodeError>)
        requires
            old(self).wf(),
        ensures
            final(self).wf(),
            progress(*old(self), *final(self)),
            r matches Ok(b) ==> consumed(*old(self), *final(self), seq![b]) && b == old(self).data@[old(self).position as int],
            r is Ok ==> final(self).position == old(self).position + 1,
            r is Err <==> old(self).remaining() < 1,
            r is Err ==> r == Err::<u8, DecodeError>(DecodeError::UnexpectedEnd) && *final(self) == *old(self),
    {
        if self.position >= self.data.len() {
            return Err(DecodeError::UnexpectedEnd);
        }
        let b = self.data[self.position];
        self.position = self.position + 1;
        proof {
            assert(self.data@.subrange(old(self).position as int, self.position as int) =~= seq![b]);
        }
        Ok(b)
    }

    /// The next byte, or 0 at the end of the data.
    pub fn get_u8(&mut self) -> (r: u8)
        requires
            old(self).wf(),
        ensures
            final(self).wf(),
            progress(*old(self), *final(self)),
            old(self).remaining() >= 1 ==> consumed(*old(self), *final(self), seq![r]),
            old(self).remaining() < 1 ==> r == 0 && *final(self) == *old(self),
    {
        match self.read_u8() {
            Ok(b) => b,
            Err(_) => 0,
        }
    }

    pub fn read_u16(&mut self) -> (r: Result<u16, DecodeError>)
        requires
            old(self).wf(),
        ensures
            final(self).wf(),
            progress(*old(self), *final(self)),
            r matches Ok(x) ==> consumed(*old(self), *final(self), be16(x))
                && x == be16_value(old(self).data@[old(self).position as int], old(self).data@[old(self).position + 1]),
            r is Ok ==> final(self).position == old(self).position + 2,
            r is Err <==> old(self).remaining() < 2,
            r is Err ==> r == Err::<u16, DecodeError>(DecodeError::UnexpectedEnd) && *final(self) == *old(self),
    {
        if self.data.len() - self.position < 2 {
            return Err(DecodeError::UnexpectedEnd);
        }
        let p = self.position;
        let b0 = self.data[p];
        let b1 = self.data[p + 1];
        let x: u16 = ((b0 as u16) << 8) | (b1 as u16);
        self.position = p + 2;
        proof {
            lemma_be16_of(b0, b1);
            assert(x == be16_value(b0, b1));
            assert(self.data@.subrange(p as int, self.position as int) =~= seq![b0, b1]);
        }
        Ok(x)
    }

    /// The next two bytes as a big-endian number, or 0 where fewer remain.
    pub fn get_u16(&mut self) -> (r: u16)
        requires
            old(self).wf(),
        ensures
            final(self).wf(),
            progress(*old(self), *final(self)),
            old(self).remaining() >= 2 ==> consumed(*old(self), *final(self), be16(r)),
            old(self).remaining() < 2 ==> r == 0 && *final(self) == *old(self),
    {
        match self.read_u16() {
            Ok(x) => x,
            Err(_) => 0,
        }
    }

    pub fn read_u32(&mut self) -> (r: Result<u32, DecodeError>)
        requires
            old(self).wf(),
        ensures
            final(self).wf(),
            progress(*old(self), *final(self)),
            r matches Ok(x) ==> consumed(*old(self), *final(self), be32(x))
                && x == be32_value(old(self).data@[old(self).position as int], old(self).data@[old(self).position + 1],
                    old(self).data@[old(self).position + 2], old(self).data@[old(self).position + 3]),
            r is Ok ==> final(self).position == old(self).position + 4,
            r is Err <==> old(self).remaining() < 4,
            r is Err ==> r == Err::<u32, DecodeError>(DecodeError::UnexpectedEnd) && *final(self) == *old(self),
    {
        if self.data.len() - self.position < 4 {
            return Err(DecodeError::UnexpectedEnd);
        }
        let p = self.position;
        let b0 = self.data[p];
        let b1 = self.data[p + 1];
        let b2 = self.data[p + 2];
        let b3 = self.data[p + 3];
        let x: u32 = ((b0 as u32) << 24) | ((b1 as u32) << 16) | ((b2 as u32) << 8) | (b3 as u32);
        self.position = p + 4;
        proof {
            lemma_be32_of(b0, b1, b2, b3);
            assert(x == be32_value(b0, b1, b2, b3));
            assert(self.data@.subrange(p as int, self.position as int) =~= seq![b0, b1, b2, b3]);
        }
        Ok(x)
    }

    /// The next four bytes as a big-endian number, or 0 where fewer remain.
    pub fn get_u32(&mut self) -> (r: u32)
        requires
            old(self).wf(),
        ensures
            final(self).wf(),
            progress(*old(self), *final(self)),
            old(self).remaining() >= 4 ==> consumed(*old(self), *final(self), be32(r)),
            old(self).remaining() < 4 ==> r == 0 && *final(self) == *old(self),
    {
        match self.read_u32() {
            Ok(x) => x,
            Err(_) => 0,
        }
    }

    pub fn read_u64(&mut self) -> (r: Result<u64, DecodeError>)
        requires
            old(self).wf(),
        ensures
            final(self).wf(),
            progress(*old(self), *final(self)),
            r matches Ok(x) ==> consumed(*old(self), *final(self), be64(x)),
            r is Ok ==> final(self).position == old(self).position + 8,
            r is Err <==> old(self).remaining() < 8,
            r is Err ==> r == Err::<u64, DecodeError>(DecodeError::UnexpectedEnd) && *final(self) == *old(self),
    {
        if self.data.len() - self.position < 8 {
            return Err(DecodeError::UnexpectedEnd);
        }
        let ghost r0 = *self;
        let hi = self.get_u32();
        let ghost r1 = *self;
        proof {
            assert(be32(hi).len() == 4);
        }
        let lo = self.get_u32();
        let x: u64 = ((hi as u64) << 32) | (lo as u64);
        proof {
            lemma_consumed_chain(r0, r1, *self, be32(hi), be32(lo));
            lemma_be64_of(hi, lo);
            assert(x == be64_value(hi, lo));
        }
        Ok(x)
    }

    /// The next eight bytes as a big-endian number, or 0 where fewer remain.
    pub fn get_u64(&mut self) -> (r: u64)
        requires
            old(self).wf(),
        ensures
            final(self).wf(),
            progress(*old(self), *final(self)),
            old(self).remaining() >= 8 ==> consumed(*old(self), *final(self), be64(r)),
            old(self).remaining() < 8 ==> r == 0 && *final(self) == *old(self),
    {
        match self.read_u64() {
            Ok(x) => x,
            Err(_) => 0,
        }
    }

    /// The next `count` bytes.
    pub fn read_n(&mut self, count: usize) -> (r: Result<Vec<u8>, DecodeError>)
        requires
            old(self).wf(),
        ensures
            final(self).wf(),
            progress(*old(self), *final(self)),
            r matches Ok(b) ==> consumed(*old(self), *final(self), b@) && b@.len() == count,
            r is Ok ==> final(self).position == old(self).position + count,
            r is Err <==> old(self).remaining() < count,
            r is Err ==> r == Err::<Vec<u8>, DecodeError>(DecodeError::UnexpectedEnd) && *final(self) == *old(self),
    {
        if self.data.len() - self.position < count {
            return Err(DecodeError::UnexpectedEnd);
        }
        let p = self.position;
        let end = p + count;
        let mut out: Vec<u8> = Vec::new();
        let mut j: usize = p;
        while j < end
            invariant
                self.position == p,
                end == p + count,
                end <= self.data@.len(),
                p <= j <= end,
                out@ == self.data@.subrange(p as int, j as int),
            decreases end - j,
        {
            out.push(self.data[j]);
            j = j + 1;
            proof {
                assert(out@ =~= self.data@.subrange(p as int, j as int));
            }
        }
        self.position = p + count;
        Ok(out)
    }

    /// The next `count` bytes, or nothing (and no move) where fewer remain.
    pub fn get_n(&mut self, count: usize) -> (r: Vec<u8>)
        requires
            old(self).wf(),
        ensures
            final(self).wf(),
            progress(*old(self), *final(self)),
            old(self).remaining() >= count ==> consumed(*old(self), *final(self), r@) && r@.len() == count,
            old(self).remaining() < count ==> r@.len() == 0 && *final(self) == *old(self),
    {
        match self.read_n(count) {
            Ok(b) => b,
            Err(_) => Vec::new(),
        }
    }

    /// Every byte left.
    pub fn read_bytes(&mut self) -> (r: Result<Vec<u8>, DecodeError>)
        requires
            old(self).wf(),
        ensures
            final(self).wf(),
            r matches Ok(b) ==> consumed(*old(self), *final(self), b@),
            r is Ok,
            final(self).position == final(self).data@.len(),
    {
        let count = self.data.len() - self.position;
        self.read_n(count)
    }

    /// Every byte left.
    pub fn get_bytes(&mut self) -> (r: Vec<u8>)
        requires
            old(self).wf(),
        ensures
            final(self).wf(),
            consumed(*old(self), *final(self), r@),
            final(self).position == final(self).data@.len(),
    {
        match self.read_bytes() {
            Ok(b) => b,
            Err(_) => Vec::new(),
        }
    }
}

} // verus!
