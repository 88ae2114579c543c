//! Read and write cursors over a byte buffer, and the write-back trait the
//! block codecs implement.

use crate::views::{le16_at, le32_at, le64_at, u16_le_bytes, u32_le_bytes, U16View, U32View, U64View};
use vstd::prelude::*;

verus! {

/// A forward read cursor: `pos` is the next byte to read, `end` the first
/// byte past the readable region.
#[derive(Clone, Copy, Debug, PartialEq, Eq, Structural)]
pub struct ROCursor {
    pub pos: usize,
    pub end: usize,
}

impl ROCursor {
    /// The cursor has not run past its region.
    pub open spec fn wf(&self) -> bool {
        self.pos <= self.end
    }

    /// A cursor over the whole of `buf`.
    pub fn new(buf: &Vec<u8>) -> (c: Self)
        ensures
            c.pos == 0,
            c.end == buf@.len(),
            c.wf(),
    {
        ROCursor { pos: 0, end: buf.len() }
    }

    /// Read the two little-endian bytes at the cursor and advance past them.
    pub fn read_u16(&mut self, buf: &Vec<u8>) -> (r: u16)
        requires
            old(self).pos + 2 <= old(self).end,
            old(self).end <= buf@.len(),
        ensures
            r == le16_at(buf@, old(self).pos as int),
            final(self).pos == old(self).pos + 2,
            final(self).end == old(self).end,
    {
        let v = U16View { offset: self.pos };
        let r = v.get(buf);
        self.pos = self.pos + 2;
        r
    }

    /// Read the four little-endian bytes at the cursor and advance past them.
    pub fn read_u32(&mut self, buf: &Vec<u8>) -> (r: u32)
        requires
            old(self).pos + 4 <= old(self).end,
            old(self).end <= buf@.len(),
        ensures
            r == le32_at(buf@, old(self).pos as int),
            final(self).pos == old(self).pos + 4,
            final(self).end == old(self).end,
    {
        let v = U32View { offset: self.pos };
        let r = v.get(buf);
        self.pos = self.pos + 4;
        r
    }

    /// Read the eight little-endian bytes at the cursor and advance past
    /// them.
    pub fn read_u64(&mut self, buf: &Vec<u8>) -> (r: u64)
        requires
            old(self).pos + 8 <= old(self).end,
            old(self).end <= buf@.len(),
        ensures
            r == le64_at(buf@, old(self).pos as int),
            final(self).pos == old(self).pos + 8,
            final(self).end == old(self).end,
    {
        let v = U64View { offset: self.pos };
        let r = v.get(buf);
        self.pos = self.pos + 8;
        r
    }
}

/// A forward write cursor: `pos` is the next byte to write, `end` the first
/// byte past the writable region.
#[derive(Clone, Copy, Debug, PartialEq, Eq, Structural)]
pub struct RWCursor {
    pub pos: usize,
    pub end: usize,
}

impl RWCursor {
    /// The cursor has not run past its region.
    pub open spec fn wf(&self) -> bool {
        self.pos <= self.end
    }

    /// A cursor over the whole of `buf`.
    pub fn new(buf: &Vec<u8>) -> (c: Self)
        ensures
            c.pos == 0,
            c.end == buf@.len(),
            c.wf(),
    {
        RWCursor { pos: 0, end: buf.len() }
    }

    /// Write `v` as two little-endian bytes at the cursor and advance past
    /// them.
    pub fn write_u16(&mut self, buf: &mut Vec<u8>, v: u16)
        requires
            old(self).pos + 2 <= old(self).end,
            old(self).end <= old(buf)@.len(),
        ensures
            final(self).pos == old(self).pos + 2,
            final(self).end == old(self).end,
            final(buf)@.len() == old(buf)@.len(),
            forall|i: int|
                0 <= i < old(buf)@.len() && !(old(self).pos <= i < old(self).pos + 2) ==> final(buf)@[i] == old(buf)@[i],
            final(buf)@.subrange(old(self).pos as int, old(self).pos + 2) =~= u16_le_bytes(v),
    {
        let w = U16View { offset: self.pos };
        w.set(buf, v);
        self.pos = self.pos + 2;
    }

    /// Write `v` as four little-endian bytes at the cursor and advance past
    /// them.
    pub fn write_u32(&mut self, buf: &mut Vec<u8>, v: u32)
        requires
            old(self).pos + 4 <= old(self).end,
            old(self).end <= old(buf)@.len(),
        ensures
            final(self).pos == old(self).pos + 4,
            final(self).end == old(self).end,
            final(buf)@.len() == old(buf)@.len(),
            forall|i: int|
                0 <= i < old(buf)@.len() && !(old(self).pos <= i < old(self).pos + 4) ==> final(buf)@[i] == old(buf)@[i],
            final(buf)@.subrange(old(self).pos as int, old(self).pos + 4) =~= u32_le_bytes(v),
    {
        let w = U32View { offset: self.pos };
        w.set(buf, v);
        self.pos = self.pos + 4;
    }

    /// Write `v` as eight little-endian bytes at the cursor and advance
    /// past them.
    pub fn write_u64(&mut self, buf: &mut Vec<u8>, v: u64)
        requires
            old(self).pos + 8 <= old(self).end,
            old(self).end <= old(buf)@.len(),
        ensures
            final(self).pos == old(self).pos + 8,
            final(self).end == old(self).end,
            final(buf)@.len() == old(buf)@.len(),
            forall|i: int|
                0 <= i < old(buf)@.len() && !(old(self).pos <= i < old(self).pos + 8) ==> final(buf)@[i] == old(buf)@[i],
            le64_at(final(buf)@, old(self).pos as int) == v,
    {
        let w = U64View { offset: self.pos };
        w.set(buf, v);
        self.pos = self.pos + 8;
    }
}

/// A codec that walks a byte region into decoded items and writes items
/// back through a cursor. The two spec methods fix, per implementor, the
/// exact bytes the write methods store.
pub trait IterWriteBack {
    type Iter;

    type Output;

    /// The iterator `iter` hands back over a buffer with these bytes.
    spec fn spec_iter(b: Seq<u8>) -> Self::Iter;

    /// The bytes that `write_single` stores for one item.
    spec fn spec_enc_one(item: Self::Output) -> Seq<u8>;

    /// The bytes that `write_all` stores for a sequence of items.
    spec fn spec_enc_seq(items: Seq<Self::Output>) -> Seq<u8>;

    /// An iterator over the items encoded in `buf`.
    fn iter(buf: &Vec<u8>) -> (it: Self::Iter)
        ensures
            it == Self::spec_iter(buf@),
    ;

    /// Write one item's bytes at the cursor.
    fn write_single(cur: &mut RWCursor, buf: &mut Vec<u8>, item: &Self::Output)
        requires
            old(cur).wf(),
            old(cur).end <= old(buf)@.len(),
            old(cur).pos + Self::spec_enc_one(*item).len() <= old(cur).end,
        ensures
            final(cur).end == old(cur).end,
            final(cur).wf(),
            final(cur).pos == old(cur).pos + Self::spec_enc_one(*item).len(),
            final(buf)@.len() == old(buf)@.len(),
            forall|i: int|
                0 <= i < old(buf)@.len() && !(old(cur).pos <= i < final(cur).pos) ==> final(buf)@[i] == old(buf)@[i],
            final(buf)@.subrange(old(cur).pos as int, final(cur).pos as int)
                =~= Self::spec_enc_one(*item),
    ;

    /// Write every item's bytes, in order, at the cursor.
    fn write_all(cur: &mut RWCursor, buf: &mut Vec<u8>, items: &Vec<Self::Output>)
        requires
            old(cur).wf(),
            old(cur).end <= old(buf)@.len(),
            old(cur).pos + Self::spec_enc_seq(items@).len() <= old(cur).end,
        ensures
            final(cur).end == old(cur).end,
            final(cur).wf(),
            final(cur).pos == old(cur).pos + Self::spec_enc_seq(items@).len(),
            final(buf)@.len() == old(buf)@.len(),
            forall|i: int|
                0 <= i < old(buf)@.len() && !(old(cur).pos <= i < final(cur).pos) ==> final(buf)@[i] == old(buf)@[i],
            final(buf)@.subrange(old(cur).pos as int, final(cur).pos as int)
                =~= Self::spec_enc_seq(items@),
    ;
}

} // verus!
