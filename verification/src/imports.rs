//! The import-descriptor sequence codec.
//!
//! A descriptor is a fixed 20-byte record of five u32 fields. Records chain
//! end to end; a record whose `original_first_thunk` is zero terminates the
//! sequence without being emitted. The wire format is decoded and encoded
//! here, but never invoked automatically from the data directory: that
//! wiring is an extension point left open on purpose.

use crate::err::PeError;
use crate::util::{IterWriteBack, RWCursor};
use crate::views::{le32_at, u32_le_bytes, U32View};
use vstd::prelude::*;

verus! {

/// One decoded import descriptor.
#[derive(Clone, Copy, Debug, PartialEq, Eq, Structural)]
pub struct ImportDescriptor {
    pub original_first_thunk: u32,
    pub time_data_stamp: u32,
    pub forwarder_chain: u32,
    pub name: u32,
    pub first_thunk: u32,
}

/// The number of bytes one descriptor occupies on disk.
pub const IMPORT_DESC_SIZE: usize = 20;

/// Encode one descriptor: its five fields in declared order.
pub open spec fn spec_enc_desc(d: ImportDescriptor) -> Seq<u8> {
    u32_le_bytes(d.original_first_thunk) + u32_le_bytes(d.time_data_stamp) + u32_le_bytes(
        d.forwarder_chain,
    ) + u32_le_bytes(d.name) + u32_le_bytes(d.first_thunk)
}

/// Encode a sequence of descriptors end to end (without a sentinel).
pub open spec fn spec_enc_descs(ds: Seq<ImportDescriptor>) -> Seq<u8>
    decreases ds.len(),
{
    if ds.len() == 0 {
        Seq::empty()
    } else {
        spec_enc_desc(ds[0]) + spec_enc_descs(ds.skip(1))
    }
}

/// Decode one step of a descriptor sequence from `pos`, bounded by `end`:
/// `Ok(None)` is the zero sentinel, `Ok(Some(d))` a descriptor occupying 20
/// bytes.
pub open spec fn spec_dec_desc_step(b: Seq<u8>, pos: int, end: int) -> Result<
    Option<ImportDescriptor>,
    PeError,
> {
    if pos + 4 > end {
        Err(PeError::BufferTooSmall)
    } else if le32_at(b, pos) == 0 {
        Ok(None)
    } else if pos + 20 > end {
        Err(PeError::BufferTooSmall)
    } else {
        Ok(
            Some(
                ImportDescriptor {
                    original_first_thunk: le32_at(b, pos),
                    time_data_stamp: le32_at(b, pos + 4),
                    forwarder_chain: le32_at(b, pos + 8),
                    name: le32_at(b, pos + 12),
                    first_thunk: le32_at(b, pos + 16),
                },
            ),
        )
    }
}

/// Decode a whole descriptor sequence from `pos`, bounded by `end`, up to
/// and including its zero sentinel; the second component is the number of
/// bytes consumed, sentinel included.
pub open spec fn spec_dec_descs(b: Seq<u8>, pos: int, end: int) -> Result<
    (Seq<ImportDescriptor>, int),
    PeError,
>
    decreases end - pos,
{
    match spec_dec_desc_step(b, pos, end) {
        Err(e) => Err(e),
        Ok(None) => Ok((Seq::empty(), 4)),
        Ok(Some(d)) => if pos + 20 <= end {
            match spec_dec_descs(b, pos + 20, end) {
                Err(e) => Err(e),
                Ok((rest, c)) => Ok((seq![d] + rest, 20 + c)),
            }
        } else {
            Err(PeError::BufferTooSmall)
        },
    }
}

/// Appending a descriptor appends its encoding.
pub proof fn lemma_enc_descs_snoc(ds: Seq<ImportDescriptor>, d: ImportDescriptor)
    ensures
        spec_enc_descs(ds.push(d)) =~= spec_enc_descs(ds) + spec_enc_desc(d),
    decreases ds.len(),
{
    if ds.len() == 0 {
        assert(ds.push(d)[0] == d);
        assert(ds.push(d).skip(1) =~= Seq::<ImportDescriptor>::empty());
        assert(spec_enc_descs(Seq::<ImportDescriptor>::empty()) == Seq::<u8>::empty());
    } else {
        let h = spec_enc_desc(ds[0]);
        assert(ds.push(d)[0] == ds[0]);
        assert(ds.push(d).skip(1) =~= ds.skip(1).push(d));
        lemma_enc_descs_snoc(ds.skip(1), d);
        assert(spec_enc_descs(ds.push(d)) == h + spec_enc_descs(ds.skip(1).push(d)));
        assert(spec_enc_descs(ds.skip(1).push(d)) == spec_enc_descs(ds.skip(1)) + spec_enc_desc(
            d,
        )) by {
            assert(spec_enc_descs(ds.skip(1).push(d)) =~= spec_enc_descs(ds.skip(1))
                + spec_enc_desc(d));
        }
        assert(spec_enc_descs(ds.push(d)) =~= (h + spec_enc_descs(ds.skip(1))) + spec_enc_desc(
            d,
        ));
    }
}

/// A descriptor that decodes re-encodes to its source bytes.
pub proof fn lemma_desc_bytes_id(b: Seq<u8>, pos: int, end: int)
    requires
        0 <= pos,
        pos + 20 <= end,
        end <= b.len(),
    ensures
        match spec_dec_desc_step(b, pos, end) {
            Ok(Some(d)) => spec_enc_desc(d) =~= b.subrange(pos, pos + 20),
            _ => true,
        },
{
    crate::views::lemma_le32_bytes_id(b, pos);
    crate::views::lemma_le32_bytes_id(b, pos + 4);
    crate::views::lemma_le32_bytes_id(b, pos + 8);
    crate::views::lemma_le32_bytes_id(b, pos + 12);
    crate::views::lemma_le32_bytes_id(b, pos + 16);
}

/// A descriptor sequence that decodes re-encodes, sentinel included, to
/// exactly the bytes it was decoded from.
pub proof fn lemma_import_round_trip(b: Seq<u8>, pos: int, end: int)
    requires
        0 <= pos <= end,
        end <= b.len(),
    ensures
        match spec_dec_descs(b, pos, end) {
            Ok((ds, c)) => 4 <= c && pos + c <= end && spec_enc_descs(ds) + u32_le_bytes(0) =~= b
                .subrange(pos, pos + c),
            Err(_) => true,
        },
    decreases end - pos,
{
    match spec_dec_desc_step(b, pos, end) {
        Err(_) => {},
        Ok(None) => {
            crate::views::lemma_le32_bytes_id(b, pos);
            assert(spec_enc_descs(Seq::empty()) + u32_le_bytes(0) =~= b.subrange(pos, pos + 4));
        },
        Ok(Some(d)) => {
            lemma_desc_bytes_id(b, pos, end);
            lemma_import_round_trip(b, pos + 20, end);
            match spec_dec_descs(b, pos + 20, end) {
                Ok((rest, c2)) => {
                    let ds = seq![d] + rest;
                    assert(ds[0] == d);
                    assert(ds.skip(1) =~= rest);
                    assert(spec_enc_descs(ds) == spec_enc_desc(d) + spec_enc_descs(rest));
                    assert(spec_enc_descs(rest) + u32_le_bytes(0) =~= b.subrange(
                        pos + 20,
                        pos + 20 + c2,
                    ));
                    assert(spec_enc_descs(ds) + u32_le_bytes(0) =~= (spec_enc_desc(d)
                        + spec_enc_descs(rest)) + u32_le_bytes(0));
                    assert((spec_enc_desc(d) + spec_enc_descs(rest)) + u32_le_bytes(0) =~= b
                        .subrange(pos, pos + 20) + b.subrange(pos + 20, pos + 20 + c2));
                    assert(b.subrange(pos, pos + 20) + b.subrange(pos + 20, pos + 20 + c2) =~= b
                        .subrange(pos, pos + 20 + c2));
                },
                Err(_) => {},
            }
        },
    }
}

/// Walks a byte region and decodes one import descriptor per call.
#[derive(Clone, Copy, Debug, PartialEq, Eq, Structural)]
pub struct ImportDescriptorIter {
    pub pos: usize,
    pub end: usize,
}

impl ImportDescriptorIter {
    /// The iterator has not run past its region.
    pub open spec fn wf(&self) -> bool {
        self.pos <= self.end
    }

    /// An iterator over the whole of `buf`.
    pub fn new(buf: &Vec<u8>) -> (it: Self)
        ensures
            it.pos == 0,
            it.end == buf@.len(),
            it.wf(),
    {
        ImportDescriptorIter { pos: 0, end: buf.len() }
    }

    /// An iterator over the region `[start, end)` of a buffer; the bound
    /// keeps a malformed chain from being scanned past its directory.
    pub fn bounded(start: usize, end: usize) -> (it: Self)
        requires
            start <= end,
        ensures
            it.pos == start,
            it.end == end,
            it.wf(),
    {
        ImportDescriptorIter { pos: start, end }
    }

    /// Decode the next descriptor: `Ok(None)` at the zero sentinel, after
    /// which the chain is finished.
    pub fn next(&mut self, buf: &Vec<u8>) -> (r: Result<Option<ImportDescriptor>, PeError>)
        requires
            old(self).wf(),
            old(self).end <= buf@.len(),
        ensures
            final(self).end == old(self).end,
            final(self).wf(),
            match r {
                Ok(Some(d)) => spec_dec_desc_step(buf@, old(self).pos as int, old(self).end as int)
                    == Ok::<_, PeError>(Some(d)) && final(self).pos == old(self).pos + 20,
                Ok(None) => spec_dec_desc_step(buf@, old(self).pos as int, old(self).end as int)
                    == Ok::<Option<ImportDescriptor>, PeError>(None) && final(self).pos == old(
                    self,
                ).pos + 4,
                Err(e) => spec_dec_desc_step(buf@, old(self).pos as int, old(self).end as int)
                    == Err::<Option<ImportDescriptor>, PeError>(e) && *final(self) == *old(self),
            },
    {
        if self.end - self.pos < 4 {
            return Err(PeError::BufferTooSmall);
        }
        let oft_view = U32View { offset: self.pos };
        let original_first_thunk = oft_view.get(buf);
        if original_first_thunk == 0 {
            self.pos = self.pos + 4;
            return Ok(None);
        }
        if self.end - self.pos < 20 {
            return Err(PeError::BufferTooSmall);
        }
        let time_data_stamp = (U32View { offset: self.pos + 4 }).get(buf);
        let forwarder_chain = (U32View { offset: self.pos + 8 }).get(buf);
        let name = (U32View { offset: self.pos + 12 }).get(buf);
        let first_thunk = (U32View { offset: self.pos + 16 }).get(buf);
        self.pos = self.pos + 20;
        Ok(
            Some(
                ImportDescriptor {
                    original_first_thunk,
                    time_data_stamp,
                    forwarder_chain,
                    name,
                    first_thunk,
                },
            ),
        )
    }
}

/// The descriptor codec as a write-back pair: iterate to decode, write to
/// re-encode.
pub struct ImportDescriptors;

impl IterWriteBack for ImportDescriptors {
    type Iter = ImportDescriptorIter;

    type Output = ImportDescriptor;

    open spec fn spec_iter(b: Seq<u8>) -> ImportDescriptorIter {
        ImportDescriptorIter { pos: 0, end: b.len() as usize }
    }

    open spec fn spec_enc_one(item: ImportDescriptor) -> Seq<u8> {
        spec_enc_desc(item)
    }

    open spec fn spec_enc_seq(items: Seq<ImportDescriptor>) -> Seq<u8> {
        spec_enc_descs(items)
    }

    /// An iterator over the descriptors encoded in `buf`.
    fn iter(buf: &Vec<u8>) -> (it: ImportDescriptorIter) {
        ImportDescriptorIter::new(buf)
    }

    /// Write one descriptor's bytes at the cursor: its five fields in
    /// declared order.
    fn write_single(cur: &mut RWCursor, buf: &mut Vec<u8>, import_desc: &ImportDescriptor) {
        let ghost pos0 = cur.pos as int;
        cur.write_u32(buf, import_desc.original_first_thunk);
        cur.write_u32(buf, import_desc.time_data_stamp);
        proof {
            assert(buf@.subrange(pos0, pos0 + 4) =~= u32_le_bytes(
                import_desc.original_first_thunk,
            ));
        }
        cur.write_u32(buf, import_desc.forwarder_chain);
        proof {
            assert(buf@.subrange(pos0, pos0 + 4) =~= u32_le_bytes(
                import_desc.original_first_thunk,
            ));
            assert(buf@.subrange(pos0 + 4, pos0 + 8) =~= u32_le_bytes(
                import_desc.time_data_stamp,
            ));
        }
        cur.write_u32(buf, import_desc.name);
        proof {
            assert(buf@.subrange(pos0, pos0 + 4) =~= u32_le_bytes(
                import_desc.original_first_thunk,
            ));
            assert(buf@.subrange(pos0 + 4, pos0 + 8) =~= u32_le_bytes(
                import_desc.time_data_stamp,
            ));
            assert(buf@.subrange(pos0 + 8, pos0 + 12) =~= u32_le_bytes(
                import_desc.forwarder_chain,
            ));
        }
        cur.write_u32(buf, import_desc.first_thunk);
        proof {
            assert(buf@.subrange(pos0, pos0 + 4) =~= u32_le_bytes(
                import_desc.original_first_thunk,
            ));
            assert(buf@.subrange(pos0 + 4, pos0 + 8) =~= u32_le_bytes(
                import_desc.time_data_stamp,
            ));
            assert(buf@.subrange(pos0 + 8, pos0 + 12) =~= u32_le_bytes(
                import_desc.forwarder_chain,
            ));
            assert(buf@.subrange(pos0 + 12, pos0 + 16) =~= u32_le_bytes(import_desc.name));
            assert(buf@.subrange(pos0 + 16, pos0 + 20) =~= u32_le_bytes(import_desc.first_thunk));
            assert(buf@.subrange(pos0, pos0 + 20) =~= spec_enc_desc(*import_desc));
        }
    }

    /// Write every descriptor's bytes, in order, at the cursor; the caller
    /// appends the terminal all-zero record itself, as the wire format asks.
    #[verifier::loop_isolation(false)]
    fn write_all(cur: &mut RWCursor, buf: &mut Vec<u8>, items: &Vec<ImportDescriptor>) {
        let ghost pos0 = cur.pos as int;
        let ghost end0 = cur.end as int;
        let ghost blen = old(buf)@.len() as int;
        let n = items.len();
        proof {
            assert(items@.take(0) =~= Seq::<ImportDescriptor>::empty());
            assert(spec_enc_descs(Seq::<ImportDescriptor>::empty()) == Seq::<u8>::empty());
            assert(buf@.subrange(pos0, pos0) =~= spec_enc_descs(items@.take(0)));
            assert(items@.skip(0) =~= items@);
        }
        let mut j: usize = 0;
        while j < n
            invariant
                j <= n,
                n == items@.len(),
                cur.end == end0,
                cur.pos == pos0 + spec_enc_descs(items@.take(j as int)).len(),
                pos0 + spec_enc_descs(items@).len() <= end0,
                end0 <= blen,
                buf@.len() == blen,
                cur.pos as int + spec_enc_descs(items@.skip(j as int)).len() == pos0
                    + spec_enc_descs(items@).len(),
                forall|i: int|
                    0 <= i < blen && !(pos0 <= i < cur.pos) ==> buf@[i] == old(buf)@[i],
                buf@.subrange(pos0, cur.pos as int) =~= spec_enc_descs(items@.take(j as int)),
            decreases n - j,
        {
            let ghost pre = buf@;
            let ghost posj = cur.pos as int;
            proof {
                let rest = items@.skip(j as int);
                assert(rest.len() > 0);
                assert(rest[0] == items@[j as int]);
                assert(rest.skip(1) =~= items@.skip(j as int + 1));
            }
            Self::write_single(cur, buf, &items[j]);
            proof {
                assert(forall|i: int|
                    0 <= i < blen && !(posj <= i < cur.pos as int) ==> buf@[i] == pre[i]);
                assert(pre.subrange(pos0, posj) =~= buf@.subrange(pos0, posj));
                lemma_enc_descs_snoc(items@.take(j as int), items@[j as int]);
                assert(items@.take(j as int).push(items@[j as int]) =~= items@.take(j as int + 1));
                assert(buf@.subrange(pos0, cur.pos as int) =~= buf@.subrange(pos0, posj)
                    + buf@.subrange(posj, cur.pos as int));
                assert(buf@.subrange(pos0, cur.pos as int) =~= spec_enc_descs(
                    items@.take(j as int + 1),
                ));
            }
            j = j + 1;
        }
        proof {
            assert(items@.take(n as int) =~= items@);
        }
    }
}

} // verus!
