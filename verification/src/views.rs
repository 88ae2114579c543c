//! The byte-view kernel: typed little-endian windows onto a shared byte
//! buffer, and the cursor that binds them by consuming a prefix of the
//! remaining bytes.
//!
//! A view carries only its offset (and width); `get` decodes the bytes at
//! that offset and `set` stores them back, so a view is a pure projection
//! onto the buffer and never a cached copy.

use crate::err::PeError;
use vstd::prelude::*;

verus! {

/// The unsigned value of the two little-endian bytes at `i`.
pub open spec fn le16_at(b: Seq<u8>, i: int) -> u16 {
    (b[i] as u16) | ((b[i + 1] as u16) << 8)
}

/// The unsigned value of the four little-endian bytes at `i`.
pub open spec fn le32_at(b: Seq<u8>, i: int) -> u32 {
    (le16_at(b, i) as u32) | ((le16_at(b, i + 2) as u32) << 16)
}

/// The unsigned value of the eight little-endian bytes at `i`.
pub open spec fn le64_at(b: Seq<u8>, i: int) -> u64 {
    (le32_at(b, i) as u64) | ((le32_at(b, i + 4) as u64) << 32)
}

/// The two-byte little-endian encoding of `v`.
pub open spec fn u16_le_bytes(v: u16) -> Seq<u8> {
    seq![(v & 0xff) as u8, ((v >> 8) & 0xff) as u8]
}

/// The four-byte little-endian encoding of `v`.
pub open spec fn u32_le_bytes(v: u32) -> Seq<u8> {
    seq![
        (v & 0xff) as u8,
        ((v >> 8) & 0xff) as u8,
        ((v >> 16) & 0xff) as u8,
        ((v >> 24) & 0xff) as u8,
    ]
}

/// Reading two bytes and re-encoding the value reproduces the bytes.
pub proof fn lemma_le16_bytes_id(b: Seq<u8>, i: int)
    requires
        0 <= i,
        i + 2 <= b.len(),
    ensures
        u16_le_bytes(le16_at(b, i)) =~= b.subrange(i, i + 2),
{
    let x = b[i];
    let y = b[i + 1];
    assert(((((x as u16) | ((y as u16) << 8)) & 0xff) as u8) == x) by (bit_vector);
    assert((((((x as u16) | ((y as u16) << 8)) >> 8) & 0xff) as u8) == y) by (bit_vector);
}

/// Reading four bytes and re-encoding the value reproduces the bytes.
pub proof fn lemma_le32_bytes_id(b: Seq<u8>, i: int)
    requires
        0 <= i,
        i + 4 <= b.len(),
    ensures
        u32_le_bytes(le32_at(b, i)) =~= b.subrange(i, i + 4),
{
    let b0 = b[i];
    let b1 = b[i + 1];
    let b2 = b[i + 2];
    let b3 = b[i + 3];
    let v = le32_at(b, i);
    assert(v == ((((b0 as u16) | ((b1 as u16) << 8)) as u32) | ((((b2 as u16) | ((b3 as u16)
        << 8)) as u32) << 16)));
    assert({
        let w = ((((b0 as u16) | ((b1 as u16) << 8)) as u32) | ((((b2 as u16) | ((b3 as u16) << 8))
            as u32) << 16));
        ((w & 0xff) as u8) == b0 && (((w >> 8) & 0xff) as u8) == b1 && (((w >> 16) & 0xff) as u8)
            == b2 && (((w >> 24) & 0xff) as u8) == b3
    }) by (bit_vector);
}

/// A one-byte view.
#[derive(Clone, Copy, Debug, PartialEq, Eq, Structural)]
pub struct ByteView {
    pub offset: usize,
}

/// A two-byte little-endian scalar view.
#[derive(Clone, Copy, Debug, PartialEq, Eq, Structural)]
pub struct U16View {
    pub offset: usize,
}

/// A four-byte little-endian scalar view.
#[derive(Clone, Copy, Debug, PartialEq, Eq, Structural)]
pub struct U32View {
    pub offset: usize,
}

/// An eight-byte little-endian scalar view.
#[derive(Clone, Copy, Debug, PartialEq, Eq, Structural)]
pub struct U64View {
    pub offset: usize,
}

/// A raw byte window of `len` bytes.
#[derive(Clone, Copy, Debug, PartialEq, Eq, Structural)]
pub struct ArrayView {
    pub offset: usize,
    pub len: usize,
}

impl ByteView {
    /// The view lies within a buffer of `blen` bytes.
    pub open spec fn wf(&self, blen: nat) -> bool {
        self.offset + 1 <= blen
    }

    /// The byte this view projects out of `b`.
    pub open spec fn spec_get(&self, b: Seq<u8>) -> u8 {
        b[self.offset as int]
    }

    pub fn get(&self, buf: &Vec<u8>) -> (r: u8)
        requires
            self.wf(buf@.len()),
        ensures
            r == self.spec_get(buf@),
    {
        buf[self.offset]
    }

    pub fn set(&self, buf: &mut Vec<u8>, v: u8)
        requires
            self.wf(old(buf)@.len()),
        ensures
            final(buf)@ =~= old(buf)@.update(self.offset as int, v),
            self.spec_get(final(buf)@) == v,
    {
        buf.set(self.offset, v);
    }
}

impl U16View {
    /// The view lies within a buffer of `blen` bytes.
    pub open spec fn wf(&self, blen: nat) -> bool {
        self.offset + 2 <= blen
    }

    /// The value this view projects out of `b`.
    pub open spec fn spec_get(&self, b: Seq<u8>) -> u16 {
        le16_at(b, self.offset as int)
    }

    pub fn get(&self, buf: &Vec<u8>) -> (r: u16)
        requires
            self.wf(buf@.len()),
        ensures
            r == self.spec_get(buf@),
    {
        assert(self.offset + 2 <= buf.len());
        let b0 = buf[self.offset];
        let b1 = buf[self.offset + 1];
        (b0 as u16) | ((b1 as u16) << 8)
    }

    pub fn set(&self, buf: &mut Vec<u8>, v: u16)
        requires
            self.wf(old(buf)@.len()),
        ensures
            final(buf)@.len() == old(buf)@.len(),
            forall|i: int|
                0 <= i < old(buf)@.len() && !(self.offset <= i < self.offset + 2) ==> final(buf)@[i] == old(buf)@[i],
            final(buf)@.subrange(self.offset as int, self.offset + 2) =~= u16_le_bytes(v),
            self.spec_get(final(buf)@) == v,
    {
        assert(self.offset + 2 <= buf.len());
        proof {
            assert(v & 0xff < 256 && (v >> 8) & 0xff < 256) by (bit_vector);
        }
        let b0: u8 = (v & 0xff) as u8;
        let b1: u8 = ((v >> 8) & 0xff) as u8;
        buf.set(self.offset, b0);
        buf.set(self.offset + 1, b1);
        proof {
            assert(((b0 as u16) | ((b1 as u16) << 8)) == v) by (bit_vector)
                requires
                    b0 == (v & 0xff) as u8,
                    b1 == ((v >> 8) & 0xff) as u8,
            ;
        }
    }
}

impl U32View {
    /// The view lies within a buffer of `blen` bytes.
    pub open spec fn wf(&self, blen: nat) -> bool {
        self.offset + 4 <= blen
    }

    /// The value this view projects out of `b`.
    pub open spec fn spec_get(&self, b: Seq<u8>) -> u32 {
        le32_at(b, self.offset as int)
    }

    pub fn get(&self, buf: &Vec<u8>) -> (r: u32)
        requires
            self.wf(buf@.len()),
        ensures
            r == self.spec_get(buf@),
    {
        assert(self.offset + 4 <= buf.len());
        let b0 = buf[self.offset];
        let b1 = buf[self.offset + 1];
        let b2 = buf[self.offset + 2];
        let b3 = buf[self.offset + 3];
        (((b0 as u16) | ((b1 as u16) << 8)) as u32) | ((((b2 as u16) | ((b3 as u16) << 8)) as u32)
            << 16)
    }

    pub fn set(&self, buf: &mut Vec<u8>, v: u32)
        requires
            self.wf(old(buf)@.len()),
        ensures
            final(buf)@.len() == old(buf)@.len(),
            forall|i: int|
                0 <= i < old(buf)@.len() && !(self.offset <= i < self.offset + 4) ==> final(buf)@[i] == old(buf)@[i],
            final(buf)@.subrange(self.offset as int, self.offset + 4) =~= u32_le_bytes(v),
            self.spec_get(final(buf)@) == v,
    {
        assert(self.offset + 4 <= buf.len());
        proof {
            assert(v & 0xff < 256 && (v >> 8) & 0xff < 256 && (v >> 16) & 0xff < 256 && (v >> 24)
                & 0xff < 256) by (bit_vector);
        }
        let b0: u8 = (v & 0xff) as u8;
        let b1: u8 = ((v >> 8) & 0xff) as u8;
        let b2: u8 = ((v >> 16) & 0xff) as u8;
        let b3: u8 = ((v >> 24) & 0xff) as u8;
        buf.set(self.offset, b0);
        buf.set(self.offset + 1, b1);
        buf.set(self.offset + 2, b2);
        buf.set(self.offset + 3, b3);
        proof {
            assert(((((b0 as u16) | ((b1 as u16) << 8)) as u32) | ((((b2 as u16) | ((b3 as u16)
                << 8)) as u32) << 16)) == v) by (bit_vector)
                requires
                    b0 == (v & 0xff) as u8,
                    b1 == ((v >> 8) & 0xff) as u8,
                    b2 == ((v >> 16) & 0xff) as u8,
                    b3 == ((v >> 24) & 0xff) as u8,
            ;
        }
    }
}

impl U64View {
    /// The view lies within a buffer of `blen` bytes.
    pub open spec fn wf(&self, blen: nat) -> bool {
        self.offset + 8 <= blen
    }

    /// The value this view projects out of `b`.
    pub open spec fn spec_get(&self, b: Seq<u8>) -> u64 {
        le64_at(b, self.offset as int)
    }

    pub fn get(&self, buf: &Vec<u8>) -> (r: u64)
        requires
            self.wf(buf@.len()),
        ensures
            r == self.spec_get(buf@),
    {
        assert(self.offset + 8 <= buf.len());
        let lo = U32View { offset: self.offset };
        let hi = U32View { offset: self.offset + 4 };
        let l = lo.get(buf);
        let h = hi.get(buf);
        (l as u64) | ((h as u64) << 32)
    }

    pub fn set(&self, buf: &mut Vec<u8>, v: u64)
        requires
            self.wf(old(buf)@.len()),
        ensures
            final(buf)@.len() == old(buf)@.len(),
            forall|i: int|
                0 <= i < old(buf)@.len() && !(self.offset <= i < self.offset + 8) ==> final(buf)@[i] == old(buf)@[i],
            self.spec_get(final(buf)@) == v,
    {
        assert(self.offset + 8 <= buf.len());
        proof {
            assert(v & 0xffff_ffff < 0x1_0000_0000 && (v >> 32) & 0xffff_ffff < 0x1_0000_0000)
                by (bit_vector);
        }
        let l: u32 = (v & 0xffff_ffff) as u32;
        let h: u32 = ((v >> 32) & 0xffff_ffff) as u32;
        let lo = U32View { offset: self.offset };
        let hi = U32View { offset: self.offset + 4 };
        lo.set(buf, l);
        hi.set(buf, h);
        proof {
            assert(lo.spec_get(final(buf)@) == l);
            assert(((l as u64) | ((h as u64) << 32)) == v) by (bit_vector)
                requires
                    l == (v & 0xffff_ffff) as u32,
                    h == ((v >> 32) & 0xffff_ffff) as u32,
            ;
        }
    }
}

impl ArrayView {
    /// The window lies within a buffer of `blen` bytes.
    pub open spec fn wf(&self, blen: nat) -> bool {
        self.offset + self.len <= blen
    }

    /// The byte range this window projects out of `b`.
    pub open spec fn spec_bytes(&self, b: Seq<u8>) -> Seq<u8> {
        b.subrange(self.offset as int, self.offset + self.len)
    }

    /// Read the byte at index `i` of the window.
    pub fn get(&self, buf: &Vec<u8>, i: usize) -> (r: u8)
        requires
            self.wf(buf@.len()),
            i < self.len,
        ensures
            r == self.spec_bytes(buf@)[i as int],
    {
        assert(self.offset + self.len <= buf.len());
        buf[self.offset + i]
    }

    /// Write the byte at index `i` of the window.
    pub fn set(&self, buf: &mut Vec<u8>, i: usize, v: u8)
        requires
            self.wf(old(buf)@.len()),
            i < self.len,
        ensures
            final(buf)@ =~= old(buf)@.update(self.offset + i, v),
            self.spec_bytes(final(buf)@)[i as int] == v,
    {
        assert(self.offset + self.len <= buf.len());
        buf.set(self.offset + i, v);
    }

    /// Copy the window's bytes out into a fresh vector.
    pub fn to_vec(&self, buf: &Vec<u8>) -> (r: Vec<u8>)
        requires
            self.wf(buf@.len()),
        ensures
            r@ =~= self.spec_bytes(buf@),
    {
        let mut r: Vec<u8> = Vec::new();
        let mut i: usize = 0;
        while i < self.len
            invariant
                i <= self.len,
                self.wf(buf@.len()),
                r@ =~= buf@.subrange(self.offset as int, self.offset + i),
            decreases self.len - i,
        {
            assert(self.offset + self.len <= buf.len());
            r.push(buf[self.offset + i]);
            i = i + 1;
        }
        r
    }
}


/// A view is a pure projection onto the buffer: two scalar views with the
/// same offset project the same value out of the same bytes, so a freshly
/// constructed view reads exactly what a `set` through another view stored.
pub proof fn lemma_u16_view_projection(v1: U16View, v2: U16View, b: Seq<u8>)
    requires
        v1.offset == v2.offset,
    ensures
        v1.spec_get(b) == v2.spec_get(b),
{
}

/// As `lemma_u16_view_projection`, for four-byte views.
pub proof fn lemma_u32_view_projection(v1: U32View, v2: U32View, b: Seq<u8>)
    requires
        v1.offset == v2.offset,
    ensures
        v1.spec_get(b) == v2.spec_get(b),
{
}

/// Binds views to the leading bytes of the unconsumed suffix of a buffer.
///
/// `pos` is the first unconsumed byte and `end` the buffer's length; each
/// successful bind consumes exactly the width of the view it hands out, so
/// views bound through one cursor never overlap.
#[derive(Clone, Copy, Debug, PartialEq, Eq, Structural)]
pub struct BindCursor {
    pub pos: usize,
    pub end: usize,
}

impl BindCursor {
    /// The cursor has not run past its buffer.
    pub open spec fn wf(&self) -> bool {
        self.pos <= self.end
    }

    /// A cursor over the whole of `buf`, starting at its first byte.
    pub fn new(buf: &Vec<u8>) -> (c: Self)
        ensures
            c.pos == 0,
            c.end == buf@.len(),
            c.wf(),
    {
        BindCursor { pos: 0, end: buf.len() }
    }

    /// A cursor over `buf` whose first unconsumed byte is `pos`.
    pub fn at(buf: &Vec<u8>, pos: usize) -> (c: Self)
        requires
            pos <= buf@.len(),
        ensures
            c.pos == pos,
            c.end == buf@.len(),
            c.wf(),
    {
        BindCursor { pos, end: buf.len() }
    }

    /// Consume one byte and hand back a view of it.
    pub fn bind_u8(&mut self) -> (r: Result<ByteView, PeError>)
        requires
            old(self).wf(),
        ensures
            final(self).end == old(self).end,
            final(self).wf(),
            match r {
                Ok(v) => old(self).pos + 1 <= old(self).end && v.offset == old(self).pos && final(self).pos == old(self).pos + 1,
                Err(e) => e == PeError::BufferTooSmall && old(self).pos + 1 > old(self).end
                    && *final(self) == *old(self),
            },
    {
        if self.end - self.pos >= 1 {
            let v = ByteView { offset: self.pos };
            self.pos = self.pos + 1;
            Ok(v)
        } else {
            Err(PeError::BufferTooSmall)
        }
    }

    /// Consume two bytes and hand back a scalar view of them.
    pub fn bind_u16(&mut self) -> (r: Result<U16View, PeError>)
        requires
            old(self).wf(),
        ensures
            final(self).end == old(self).end,
            final(self).wf(),
            match r {
                Ok(v) => old(self).pos + 2 <= old(self).end && v.offset == old(self).pos && final(self).pos == old(self).pos + 2,
                Err(e) => e == PeError::BufferTooSmall && old(self).pos + 2 > old(self).end
                    && *final(self) == *old(self),
            },
    {
        if self.end - self.pos >= 2 {
            let v = U16View { offset: self.pos };
            self.pos = self.pos + 2;
            Ok(v)
        } else {
            Err(PeError::BufferTooSmall)
        }
    }

    /// Consume four bytes and hand back a scalar view of them.
    pub fn bind_u32(&mut self) -> (r: Result<U32View, PeError>)
        requires
            old(self).wf(),
        ensures
            final(self).end == old(self).end,
            final(self).wf(),
            match r {
                Ok(v) => old(self).pos + 4 <= old(self).end && v.offset == old(self).pos && final(self).pos == old(self).pos + 4,
                Err(e) => e == PeError::BufferTooSmall && old(self).pos + 4 > old(self).end
                    && *final(self) == *old(self),
            },
    {
        if self.end - self.pos >= 4 {
            let v = U32View { offset: self.pos };
            self.pos = self.pos + 4;
            Ok(v)
        } else {
            Err(PeError::BufferTooSmall)
        }
    }

    /// Consume eight bytes and hand back a scalar view of them.
    pub fn bind_u64(&mut self) -> (r: Result<U64View, PeError>)
        requires
            old(self).wf(),
        ensures
            final(self).end == old(self).end,
            final(self).wf(),
            match r {
                Ok(v) => old(self).pos + 8 <= old(self).end && v.offset == old(self).pos && final(self).pos == old(self).pos + 8,
                Err(e) => e == PeError::BufferTooSmall && old(self).pos + 8 > old(self).end
                    && *final(self) == *old(self),
            },
    {
        if self.end - self.pos >= 8 {
            let v = U64View { offset: self.pos };
            self.pos = self.pos + 8;
            Ok(v)
        } else {
            Err(PeError::BufferTooSmall)
        }
    }

    /// Consume `len` bytes and hand back a raw window of them.
    pub fn bind_array(&mut self, len: usize) -> (r: Result<ArrayView, PeError>)
        requires
            old(self).wf(),
        ensures
            final(self).end == old(self).end,
            final(self).wf(),
            match r {
                Ok(v) => old(self).pos + len <= old(self).end && v.offset == old(self).pos
                    && v.len == len && final(self).pos == old(self).pos + len,
                Err(e) => e == PeError::BufferTooSmall && old(self).pos + len > old(self).end
                    && *final(self) == *old(self),
            },
    {
        if self.end - self.pos >= len {
            let v = ArrayView { offset: self.pos, len };
            self.pos = self.pos + len;
            Ok(v)
        } else {
            Err(PeError::BufferTooSmall)
        }
    }
}

} // verus!
