//! The base-relocation block codec.
//!
//! A block is a page RVA, a block size, and `(size - 8) / 2` packed entries
//! of a 4-bit type and a 12-bit page offset. Blocks chain end to end; a
//! block whose page RVA is zero terminates the sequence.

use crate::err::PeError;
use crate::util::{IterWriteBack, RWCursor};
use crate::views::{le16_at, le32_at, u16_le_bytes, u32_le_bytes, U16View, U32View};
use vstd::prelude::*;

verus! {

/// The relocation entry types this crate supports (type nibbles 0 to 5).
#[derive(Clone, Copy, Debug, PartialEq, Eq, Structural)]
pub enum RelocationType {
    ImageRelBasedAbsolute,
    ImageRelBasedHigh,
    ImageRelBasedLow,
    ImageRelBasedHighLow,
    ImageRelBasedHighAdj,
    ImageRelBasedMipsJmpAddr,
}

/// The wire code of a relocation type.
pub open spec fn spec_type_code(t: RelocationType) -> u8 {
    match t {
        RelocationType::ImageRelBasedAbsolute => 0,
        RelocationType::ImageRelBasedHigh => 1,
        RelocationType::ImageRelBasedLow => 2,
        RelocationType::ImageRelBasedHighLow => 3,
        RelocationType::ImageRelBasedHighAdj => 4,
        RelocationType::ImageRelBasedMipsJmpAddr => 5,
    }
}

/// The relocation type of a wire code at most 5; codes above 5 are not
/// decodable and this function is never applied to them by the codec.
pub open spec fn type_of_code(code: u8) -> RelocationType {
    if code == 0 {
        RelocationType::ImageRelBasedAbsolute
    } else if code == 1 {
        RelocationType::ImageRelBasedHigh
    } else if code == 2 {
        RelocationType::ImageRelBasedLow
    } else if code == 3 {
        RelocationType::ImageRelBasedHighLow
    } else if code == 4 {
        RelocationType::ImageRelBasedHighAdj
    } else {
        RelocationType::ImageRelBasedMipsJmpAddr
    }
}

impl RelocationType {
    /// Decode a type nibble; nibbles above 5 are a fatal
    /// `UnsupportedRelocationType`, never silently ignored.
    pub fn new(reloc_type: u8) -> (r: Result<RelocationType, PeError>)
        ensures
            match r {
                Ok(t) => reloc_type <= 5 && t == type_of_code(reloc_type) && spec_type_code(t)
                    == reloc_type,
                Err(e) => e == PeError::UnsupportedRelocationType && reloc_type > 5,
            },
    {
        match reloc_type {
            0 => Ok(RelocationType::ImageRelBasedAbsolute),
            1 => Ok(RelocationType::ImageRelBasedHigh),
            2 => Ok(RelocationType::ImageRelBasedLow),
            3 => Ok(RelocationType::ImageRelBasedHighLow),
            4 => Ok(RelocationType::ImageRelBasedHighAdj),
            5 => Ok(RelocationType::ImageRelBasedMipsJmpAddr),
            _ => Err(PeError::UnsupportedRelocationType),
        }
    }

    /// The wire code of this type.
    pub fn to_code(&self) -> (r: u8)
        ensures
            r == spec_type_code(*self),
            r <= 5,
    {
        match self {
            RelocationType::ImageRelBasedAbsolute => 0,
            RelocationType::ImageRelBasedHigh => 1,
            RelocationType::ImageRelBasedLow => 2,
            RelocationType::ImageRelBasedHighLow => 3,
            RelocationType::ImageRelBasedHighAdj => 4,
            RelocationType::ImageRelBasedMipsJmpAddr => 5,
        }
    }
}

/// One decoded relocation entry: a type and a 12-bit page offset.
#[derive(Clone, Copy, Debug, PartialEq, Eq, Structural)]
pub struct RelocTypeOffset {
    pub reloc_type: RelocationType,
    pub reloc_offset: u16,
}

/// The packed u16 wire form of an entry: type in bits 12 to 15, offset in
/// bits 0 to 11.
pub open spec fn spec_entry_u16(e: RelocTypeOffset) -> u16 {
    ((spec_type_code(e.reloc_type) as u16) << 12) | e.reloc_offset
}

/// The entry a packed u16 decodes to (meaningful when its type nibble is at
/// most 5).
pub open spec fn spec_dec_entry(pair: u16) -> RelocTypeOffset {
    RelocTypeOffset {
        reloc_type: type_of_code(((pair & 0xF000) >> 12) as u8),
        reloc_offset: pair & 0xFFF,
    }
}

/// Decoding a packed u16 and re-packing the entry reproduces the u16.
pub proof fn lemma_entry_u16_id(pair: u16)
    requires
        pair >> 12 <= 5,
    ensures
        spec_entry_u16(spec_dec_entry(pair)) == pair,
{
    assert((pair & 0xF000) >> 12 == pair >> 12 && pair >> 12 <= 0xF) by (bit_vector);
    assert(((((((pair & 0xF000) >> 12) as u8) as u16) << 12) | (pair & 0xFFF)) == pair)
        by (bit_vector);
}

impl RelocTypeOffset {
    /// Split a packed u16 into its type and offset; a type nibble above 5
    /// is a fatal `UnsupportedRelocationType`.
    pub fn new(type_offset_pair: u16) -> (r: Result<RelocTypeOffset, PeError>)
        ensures
            match r {
                Ok(e) => type_offset_pair >> 12 <= 5 && e == spec_dec_entry(type_offset_pair)
                    && spec_entry_u16(e) == type_offset_pair,
                Err(err) => err == PeError::UnsupportedRelocationType && type_offset_pair >> 12
                    > 5,
            },
    {
        proof {
            assert((type_offset_pair & 0xF000) >> 12 == type_offset_pair >> 12 && type_offset_pair
                >> 12 <= 0xF && type_offset_pair & 0xFFF <= 0xFFF) by (bit_vector);
        }
        let code: u8 = ((type_offset_pair & 0xF000) >> 12) as u8;
        let reloc_type = match RelocationType::new(code) {
            Ok(t) => t,
            Err(e) => return Err(e),
        };
        let e = RelocTypeOffset { reloc_type, reloc_offset: type_offset_pair & 0xFFF };
        proof {
            lemma_entry_u16_id(type_offset_pair);
        }
        Ok(e)
    }

    /// Re-pack the entry into its u16 wire form.
    pub fn to_u16le(&self) -> (r: u16)
        ensures
            r == spec_entry_u16(*self),
    {
        ((self.reloc_type.to_code() as u16) << 12) | self.reloc_offset
    }
}

/// The mathematical shape of one decoded block.
pub ghost struct RelocationModel {
    pub virt_addr: u32,
    pub size_of_block: u32,
    pub block: Seq<RelocTypeOffset>,
}

/// One decoded relocation block: its page RVA, its declared size, and its
/// decoded entries.
#[derive(Debug)]
pub struct Relocation {
    pub virt_addr: u32,
    pub size_of_block: u32,
    pub block: Vec<RelocTypeOffset>,
}

impl View for Relocation {
    type V = RelocationModel;

    open spec fn view(&self) -> RelocationModel {
        RelocationModel {
            virt_addr: self.virt_addr,
            size_of_block: self.size_of_block,
            block: self.block@,
        }
    }
}

/// The models of a sequence of decoded blocks.
pub open spec fn models(rs: Seq<Relocation>) -> Seq<RelocationModel> {
    rs.map_values(|r: Relocation| r@)
}

/// Decode `cnt` packed entries from the bytes at `off`.
pub open spec fn spec_dec_entries(b: Seq<u8>, off: int, cnt: int) -> Result<
    Seq<RelocTypeOffset>,
    PeError,
>
    decreases cnt,
{
    if cnt <= 0 {
        Ok(Seq::empty())
    } else {
        let pair = le16_at(b, off);
        if pair >> 12 > 5 {
            Err(PeError::UnsupportedRelocationType)
        } else {
            match spec_dec_entries(b, off + 2, cnt - 1) {
                Ok(rest) => Ok(seq![spec_dec_entry(pair)] + rest),
                Err(e) => Err(e),
            }
        }
    }
}

/// Decode one step of a block sequence from `pos`, bounded by `end`:
/// `Ok(None)` is the zero sentinel, `Ok(Some((m, adv)))` a block and the
/// bytes it occupies.
pub open spec fn spec_dec_step(b: Seq<u8>, pos: int, end: int) -> Result<
    Option<(RelocationModel, int)>,
    PeError,
> {
    if pos + 4 > end {
        Err(PeError::BufferTooSmall)
    } else if le32_at(b, pos) == 0 {
        Ok(None)
    } else if pos + 8 > end {
        Err(PeError::BufferTooSmall)
    } else {
        let va = le32_at(b, pos);
        let sz = le32_at(b, pos + 4);
        if sz < 8 {
            Err(PeError::MalformedHeader)
        } else {
            let cnt = (sz - 8) / 2;
            if pos + 8 + 2 * cnt > end {
                Err(PeError::BufferTooSmall)
            } else {
                match spec_dec_entries(b, pos + 8, cnt) {
                    Ok(es) => Ok(
                        Some(
                            (
                                RelocationModel { virt_addr: va, size_of_block: sz, block: es },
                                8 + 2 * cnt,
                            ),
                        ),
                    ),
                    Err(e) => Err(e),
                }
            }
        }
    }
}

/// Decode a whole block sequence from `pos`, bounded by `end`, up to and
/// including its zero sentinel; the second component is the number of bytes
/// consumed, sentinel included.
pub open spec fn spec_dec_blocks(b: Seq<u8>, pos: int, end: int) -> Result<
    (Seq<RelocationModel>, int),
    PeError,
>
    decreases end - pos,
{
    match spec_dec_step(b, pos, end) {
        Err(e) => Err(e),
        Ok(None) => Ok((Seq::empty(), 4)),
        Ok(Some((m, adv))) => if 0 < adv && pos + adv <= end {
            match spec_dec_blocks(b, pos + adv, end) {
                Err(e) => Err(e),
                Ok((rest, c)) => Ok((seq![m] + rest, adv + c)),
            }
        } else {
            Err(PeError::BufferTooSmall)
        },
    }
}

/// Encode a sequence of entries into their packed little-endian bytes.
pub open spec fn spec_enc_entries(es: Seq<RelocTypeOffset>) -> Seq<u8>
    decreases es.len(),
{
    if es.len() == 0 {
        Seq::empty()
    } else {
        u16_le_bytes(spec_entry_u16(es[0])) + spec_enc_entries(es.skip(1))
    }
}

/// Encode one block: page RVA, declared size, then its entries.
pub open spec fn spec_enc_block(m: RelocationModel) -> Seq<u8> {
    u32_le_bytes(m.virt_addr) + u32_le_bytes(m.size_of_block) + spec_enc_entries(m.block)
}

/// Encode a sequence of blocks end to end (without a sentinel).
pub open spec fn spec_enc_blocks(ms: Seq<RelocationModel>) -> Seq<u8>
    decreases ms.len(),
{
    if ms.len() == 0 {
        Seq::empty()
    } else {
        spec_enc_block(ms[0]) + spec_enc_blocks(ms.skip(1))
    }
}

/// The encoding of entries is two bytes per entry.
pub proof fn lemma_enc_entries_len(es: Seq<RelocTypeOffset>)
    ensures
        spec_enc_entries(es).len() == 2 * es.len(),
    decreases es.len(),
{
    if es.len() > 0 {
        lemma_enc_entries_len(es.skip(1));
    }
}

/// Appending an entry appends its two bytes to the encoding.
pub proof fn lemma_enc_entries_snoc(es: Seq<RelocTypeOffset>, e: RelocTypeOffset)
    ensures
        spec_enc_entries(es.push(e)) =~= spec_enc_entries(es) + u16_le_bytes(spec_entry_u16(e)),
    decreases es.len(),
{
    if es.len() == 0 {
        assert(es.push(e)[0] == e);
        assert(es.push(e).skip(1) =~= Seq::<RelocTypeOffset>::empty());
        assert(spec_enc_entries(Seq::<RelocTypeOffset>::empty()) == Seq::<u8>::empty());
    } else {
        let h = u16_le_bytes(spec_entry_u16(es[0]));
        assert(es.push(e)[0] == es[0]);
        assert(es.push(e).skip(1) =~= es.skip(1).push(e));
        lemma_enc_entries_snoc(es.skip(1), e);
        assert(spec_enc_entries(es.push(e)) == h + spec_enc_entries(es.skip(1).push(e)));
        assert(spec_enc_entries(es.skip(1).push(e)) == spec_enc_entries(es.skip(1))
            + u16_le_bytes(spec_entry_u16(e))) by {
            assert(spec_enc_entries(es.skip(1).push(e)) =~= spec_enc_entries(es.skip(1))
                + u16_le_bytes(spec_entry_u16(e)));
        }
        assert(spec_enc_entries(es.push(e)) =~= (h + spec_enc_entries(es.skip(1)))
            + u16_le_bytes(spec_entry_u16(e)));
    }
}

/// Appending a block appends its encoding.
pub proof fn lemma_enc_blocks_snoc(ms: Seq<RelocationModel>, m: RelocationModel)
    ensures
        spec_enc_blocks(ms.push(m)) =~= spec_enc_blocks(ms) + spec_enc_block(m),
    decreases ms.len(),
{
    if ms.len() == 0 {
        assert(ms.push(m)[0] == m);
        assert(ms.push(m).skip(1) =~= Seq::<RelocationModel>::empty());
        assert(spec_enc_blocks(Seq::<RelocationModel>::empty()) == Seq::<u8>::empty());
    } else {
        let h = spec_enc_block(ms[0]);
        assert(ms.push(m)[0] == ms[0]);
        assert(ms.push(m).skip(1) =~= ms.skip(1).push(m));
        lemma_enc_blocks_snoc(ms.skip(1), m);
        assert(spec_enc_blocks(ms.push(m)) == h + spec_enc_blocks(ms.skip(1).push(m)));
        assert(spec_enc_blocks(ms.skip(1).push(m)) == spec_enc_blocks(ms.skip(1))
            + spec_enc_block(m)) by {
            assert(spec_enc_blocks(ms.skip(1).push(m)) =~= spec_enc_blocks(ms.skip(1))
                + spec_enc_block(m));
        }
        assert(spec_enc_blocks(ms.push(m)) =~= (h + spec_enc_blocks(ms.skip(1)))
            + spec_enc_block(m));
    }
}

/// Entries that decode re-encode to their source bytes.
pub proof fn lemma_entries_round_trip(b: Seq<u8>, off: int, cnt: int)
    requires
        0 <= off,
        0 <= cnt,
        off + 2 * cnt <= b.len(),
    ensures
        match spec_dec_entries(b, off, cnt) {
            Ok(es) => es.len() == cnt && spec_enc_entries(es) =~= b.subrange(off, off + 2 * cnt),
            Err(_) => true,
        },
    decreases cnt,
{
    if cnt > 0 {
        let pair = le16_at(b, off);
        if pair >> 12 <= 5 {
            lemma_entries_round_trip(b, off + 2, cnt - 1);
            match spec_dec_entries(b, off + 2, cnt - 1) {
                Ok(rest) => {
                    let e = spec_dec_entry(pair);
                    let es = seq![e] + rest;
                    assert(es[0] == e);
                    assert(es.skip(1) =~= rest);
                    lemma_entry_u16_id(pair);
                    crate::views::lemma_le16_bytes_id(b, off);
                    assert(spec_enc_entries(es) =~= u16_le_bytes(pair) + spec_enc_entries(rest));
                    assert(spec_enc_entries(es) =~= b.subrange(off, off + 2 * cnt));
                },
                Err(_) => {},
            }
        }
    }
}

/// A block sequence that decodes re-encodes, sentinel included, to exactly
/// the bytes it was decoded from.
pub proof fn lemma_reloc_round_trip(b: Seq<u8>, pos: int, end: int)
    requires
        0 <= pos <= end,
        end <= b.len(),
    ensures
        match spec_dec_blocks(b, pos, end) {
            Ok((ms, c)) => 4 <= c && pos + c <= end && spec_enc_blocks(ms) + u32_le_bytes(0) =~= b
                .subrange(pos, pos + c),
            Err(_) => true,
        },
    decreases end - pos,
{
    match spec_dec_step(b, pos, end) {
        Err(_) => {},
        Ok(None) => {
            crate::views::lemma_le32_bytes_id(b, pos);
            assert(spec_enc_blocks(Seq::empty()) + u32_le_bytes(0) =~= b.subrange(pos, pos + 4));
        },
        Ok(Some((m, adv))) => {
            let sz = le32_at(b, pos + 4);
            let cnt = (sz - 8) / 2;
            assert(adv == 8 + 2 * cnt);
            lemma_entries_round_trip(b, pos + 8, cnt);
            crate::views::lemma_le32_bytes_id(b, pos);
            crate::views::lemma_le32_bytes_id(b, pos + 4);
            assert(spec_enc_block(m) =~= b.subrange(pos, pos + adv));
            lemma_reloc_round_trip(b, pos + adv, end);
            match spec_dec_blocks(b, pos + adv, end) {
                Ok((rest, c2)) => {
                    let ms = seq![m] + rest;
                    assert(ms[0] == m);
                    assert(ms.skip(1) =~= rest);
                    assert(spec_enc_blocks(ms) == spec_enc_block(m) + spec_enc_blocks(rest));
                    assert(spec_enc_blocks(rest) + u32_le_bytes(0) =~= b.subrange(
                        pos + adv,
                        pos + adv + c2,
                    ));
                    assert(spec_enc_blocks(ms) + u32_le_bytes(0) =~= (spec_enc_block(m)
                        + spec_enc_blocks(rest)) + u32_le_bytes(0));
                    assert((spec_enc_block(m) + spec_enc_blocks(rest)) + u32_le_bytes(0)
                        =~= b.subrange(pos, pos + adv) + b.subrange(pos + adv, pos + adv + c2));
                    assert(b.subrange(pos, pos + adv) + b.subrange(pos + adv, pos + adv + c2)
                        =~= b.subrange(pos, pos + adv + c2));
                },
                Err(_) => {},
            }
        },
    }
}

/// Walks a byte region and decodes one relocation block per call.
#[derive(Clone, Copy, Debug, PartialEq, Eq, Structural)]
pub struct RelocationsIter {
    pub pos: usize,
    pub end: usize,
}

impl RelocationsIter {
    /// The iterator has not run past its region.
    pub open spec fn wf(&self) -> bool {
        self.pos <= self.end
    }

    /// An iterator over the whole of `buf`.
    pub fn new(buf: &Vec<u8>) -> (it: Self)
        ensures
            it.pos == 0,
            it.end == buf@.len(),
            it.wf(),
    {
        RelocationsIter { pos: 0, end: buf.len() }
    }

    /// An iterator over the region `[start, end)` of a buffer; the bound
    /// keeps a malformed chain from being scanned past its directory.
    pub fn bounded(start: usize, end: usize) -> (it: Self)
        requires
            start <= end,
        ensures
            it.pos == start,
            it.end == end,
            it.wf(),
    {
        RelocationsIter { pos: start, end }
    }

    /// Decode the next block: `Ok(None)` at the zero sentinel, after which
    /// the chain is finished.
    #[verifier::loop_isolation(false)]
    pub fn next(&mut self, buf: &Vec<u8>) -> (r: Result<Option<Relocation>, PeError>)
        requires
            old(self).wf(),
            old(self).end <= buf@.len(),
        ensures
            final(self).end == old(self).end,
            final(self).wf(),
            match r {
                Ok(Some(rel)) => spec_dec_step(buf@, old(self).pos as int, old(self).end as int)
                    == Ok::<_, PeError>(
                    Some((rel@, final(self).pos - old(self).pos)),
                ) && final(self).pos > old(self).pos,
                Ok(None) => spec_dec_step(buf@, old(self).pos as int, old(self).end as int)
                    == Ok::<Option<(RelocationModel, int)>, PeError>(None) && final(self).pos
                    == old(self).pos + 4,
                Err(e) => spec_dec_step(buf@, old(self).pos as int, old(self).end as int)
                    == Err::<Option<(RelocationModel, int)>, PeError>(e) && *final(self) == *old(
                    self,
                ),
            },
    {
        let ghost pos0 = self.pos as int;
        let ghost end0 = self.end as int;
        if self.end - self.pos < 4 {
            return Err(PeError::BufferTooSmall);
        }
        let va_view = U32View { offset: self.pos };
        let virt_addr = va_view.get(buf);
        if virt_addr == 0 {
            self.pos = self.pos + 4;
            return Ok(None);
        }
        if self.end - self.pos < 8 {
            return Err(PeError::BufferTooSmall);
        }
        let sz_view = U32View { offset: self.pos + 4 };
        let size_of_block = sz_view.get(buf);
        if size_of_block < 8 {
            return Err(PeError::MalformedHeader);
        }
        let cnt: u32 = (size_of_block - 8) / 2;
        if 8u64 + 2u64 * (cnt as u64) > (self.end - self.pos) as u64 {
            return Err(PeError::BufferTooSmall);
        }
        let cnt_us: usize = cnt as usize;
        let entry_base: usize = self.pos + 8;
        let mut block: Vec<RelocTypeOffset> = Vec::new();
        let mut k: usize = 0;
        while k < cnt_us
            invariant
                self.pos == old(self).pos,
                self.end == old(self).end,
                pos0 == old(self).pos as int,
                end0 == old(self).end as int,
                k <= cnt_us,
                cnt_us == cnt,
                cnt == ((size_of_block - 8) / 2) as u32,
                size_of_block >= 8,
                entry_base == pos0 + 8,
                pos0 + 8 + 2 * (cnt as int) <= end0,
                end0 <= buf@.len(),
                block@.len() == k,
                spec_dec_entries(buf@, pos0 + 8, cnt as int) == (match spec_dec_entries(
                    buf@,
                    pos0 + 8 + 2 * (k as int),
                    cnt - k,
                ) {
                    Ok(rest) => Ok::<Seq<RelocTypeOffset>, PeError>(block@ + rest),
                    Err(e) => Err(e),
                }),
            decreases cnt_us - k,
        {
            let pv = U16View { offset: entry_base + 2 * k };
            let pair = pv.get(buf);
            let e = match RelocTypeOffset::new(pair) {
                Ok(e) => e,
                Err(err) => {
                    proof {
                        assert(spec_dec_entries(buf@, pos0 + 8 + 2 * (k as int), cnt - k) == Err::<
                            Seq<RelocTypeOffset>,
                            PeError,
                        >(PeError::UnsupportedRelocationType));
                    }
                    return Err(err);
                },
            };
            proof {
                let off_k = pos0 + 8 + 2 * (k as int);
                match spec_dec_entries(buf@, off_k + 2, cnt - k - 1) {
                    Ok(rest2) => {
                        assert(spec_dec_entries(buf@, off_k, cnt - k) == Ok::<
                            Seq<RelocTypeOffset>,
                            PeError,
                        >(seq![e] + rest2));
                        assert(block@.push(e) + rest2 =~= block@ + (seq![e] + rest2));
                    },
                    Err(_) => {},
                }
            }
            block.push(e);
            k = k + 1;
        }
        proof {
            assert(spec_dec_entries(buf@, pos0 + 8 + 2 * (cnt as int), 0) == Ok::<
                Seq<RelocTypeOffset>,
                PeError,
            >(Seq::empty()));
            assert(block@ + Seq::<RelocTypeOffset>::empty() =~= block@);
        }
        self.pos = self.pos + 8 + 2 * cnt_us;
        Ok(Some(Relocation { virt_addr, size_of_block, block }))
    }
}

/// Decode a whole block chain from the region `[start, end)`, up to its
/// zero sentinel.
#[verifier::loop_isolation(false)]
pub fn decode_blocks(buf: &Vec<u8>, start: usize, end: usize) -> (r: Result<
    Vec<Relocation>,
    PeError,
>)
    requires
        start <= end,
        end <= buf@.len(),
    ensures
        match r {
            Ok(rs) => spec_dec_blocks(buf@, start as int, end as int) matches Ok(p) && models(rs@)
                == p.0,
            Err(e) => spec_dec_blocks(buf@, start as int, end as int) == Err::<
                (Seq<RelocationModel>, int),
                PeError,
            >(e),
        },
{
    let mut it = RelocationsIter::bounded(start, end);
    let mut acc: Vec<Relocation> = Vec::new();
    loop
        invariant
            it.wf(),
            start <= it.pos,
            it.end == end,
            end <= buf@.len(),
            match spec_dec_blocks(buf@, it.pos as int, end as int) {
                Ok(p) => spec_dec_blocks(buf@, start as int, end as int) matches Ok(q) && q.0
                    == models(acc@) + p.0,
                Err(e) => spec_dec_blocks(buf@, start as int, end as int) == Err::<
                    (Seq<RelocationModel>, int),
                    PeError,
                >(e),
            },
        decreases end - it.pos,
    {
        let ghost pos_before = it.pos as int;
        match it.next(buf) {
            Ok(Some(rel)) => {
                proof {
                    assert(models(acc@.push(rel)) =~= models(acc@) + seq![rel@]);
                    match spec_dec_blocks(buf@, it.pos as int, end as int) {
                        Ok(p2) => {
                            assert(models(acc@) + (seq![rel@] + p2.0) =~= models(acc@.push(rel))
                                + p2.0);
                        },
                        Err(_) => {},
                    }
                }
                acc.push(rel);
            },
            Ok(None) => {
                proof {
                    assert(models(acc@) + Seq::<RelocationModel>::empty() =~= models(acc@));
                }
                return Ok(acc);
            },
            Err(e) => {
                return Err(e);
            },
        }
    }
}

/// The chain codec as a write-back pair: iterate to decode, write to
/// re-encode.
pub struct Relocations;

impl IterWriteBack for Relocations {
    type Iter = RelocationsIter;

    type Output = Relocation;

    open spec fn spec_iter(b: Seq<u8>) -> RelocationsIter {
        RelocationsIter { pos: 0, end: b.len() as usize }
    }

    open spec fn spec_enc_one(item: Relocation) -> Seq<u8> {
        spec_enc_block(item@)
    }

    open spec fn spec_enc_seq(items: Seq<Relocation>) -> Seq<u8> {
        spec_enc_blocks(models(items))
    }

    /// An iterator over the blocks encoded in `buf`.
    fn iter(buf: &Vec<u8>) -> (it: RelocationsIter) {
        RelocationsIter::new(buf)
    }

    /// Write one block's bytes at the cursor: page RVA, declared size, then
    /// the packed entries.
    #[verifier::loop_isolation(false)]
    fn write_single(cur: &mut RWCursor, buf: &mut Vec<u8>, reloc: &Relocation) {
        proof {
            lemma_enc_entries_len(reloc.block@);
        }
        let ghost pos0 = cur.pos as int;
        let ghost end0 = cur.end as int;
        let ghost blen = old(buf)@.len() as int;
        let n = reloc.block.len();
        cur.write_u32(buf, reloc.virt_addr);
        cur.write_u32(buf, reloc.size_of_block);
        proof {
            assert(buf@.subrange(pos0, pos0 + 4) =~= u32_le_bytes(reloc.virt_addr));
            assert(reloc.block@.take(0) =~= Seq::<RelocTypeOffset>::empty());
            assert(buf@.subrange(pos0 + 8, pos0 + 8) =~= spec_enc_entries(reloc.block@.take(0)));
        }
        let mut k: usize = 0;
        while k < n
            invariant
                k <= n,
                n == reloc.block@.len(),
                cur.pos == pos0 + 8 + 2 * k,
                cur.end == end0,
                pos0 + 8 + 2 * (n as int) <= end0,
                end0 <= blen,
                buf@.len() == blen,
                forall|i: int|
                    0 <= i < blen && !(pos0 <= i < cur.pos) ==> buf@[i] == old(buf)@[i],
                buf@.subrange(pos0, pos0 + 4) =~= u32_le_bytes(reloc.virt_addr),
                buf@.subrange(pos0 + 4, pos0 + 8) =~= u32_le_bytes(reloc.size_of_block),
                buf@.subrange(pos0 + 8, cur.pos as int) =~= spec_enc_entries(
                    reloc.block@.take(k as int),
                ),
            decreases n - k,
        {
            let ghost pre = buf@;
            let ghost posk = cur.pos as int;
            let w = reloc.block[k].to_u16le();
            cur.write_u16(buf, w);
            proof {
                assert(forall|i: int|
                    0 <= i < blen && !(posk <= i < posk + 2) ==> buf@[i] == pre[i]);
                assert(buf@.subrange(pos0, pos0 + 4) =~= pre.subrange(pos0, pos0 + 4));
                assert(buf@.subrange(pos0 + 4, pos0 + 8) =~= pre.subrange(pos0 + 4, pos0 + 8));
                assert(buf@.subrange(pos0 + 8, posk) =~= pre.subrange(pos0 + 8, posk));
                lemma_enc_entries_snoc(reloc.block@.take(k as int), reloc.block@[k as int]);
                assert(reloc.block@.take(k as int).push(reloc.block@[k as int]) =~= reloc.block@
                    .take(k + 1));
                assert(buf@.subrange(pos0 + 8, posk + 2) =~= spec_enc_entries(
                    reloc.block@.take(k + 1),
                ));
            }
            k = k + 1;
        }
        proof {
            assert(reloc.block@.take(n as int) =~= reloc.block@);
            assert(buf@.subrange(pos0, cur.pos as int) =~= spec_enc_block(reloc@));
        }
    }

    /// Write every block's bytes, in order, at the cursor; the caller
    /// appends the terminal zero sentinel itself, as the wire format asks.
    #[verifier::loop_isolation(false)]
    fn write_all(cur: &mut RWCursor, buf: &mut Vec<u8>, items: &Vec<Relocation>) {
        let ghost pos0 = cur.pos as int;
        let ghost end0 = cur.end as int;
        let ghost blen = old(buf)@.len() as int;
        let n = items.len();
        proof {
            assert(items@.take(0) =~= Seq::<Relocation>::empty());
            assert(models(Seq::<Relocation>::empty()) =~= Seq::<RelocationModel>::empty());
            assert(spec_enc_blocks(Seq::<RelocationModel>::empty()) == Seq::<u8>::empty());
            assert(buf@.subrange(pos0, pos0) =~= spec_enc_blocks(models(items@.take(0))));
            assert(items@.skip(0) =~= items@);
        }
        let mut j: usize = 0;
        while j < n
            invariant
                j <= n,
                n == items@.len(),
                cur.end == end0,
                cur.pos == pos0 + spec_enc_blocks(models(items@.take(j as int))).len(),
                pos0 + spec_enc_blocks(models(items@)).len() <= end0,
                end0 <= blen,
                buf@.len() == blen,
                cur.pos as int + spec_enc_blocks(models(items@.skip(j as int))).len() == pos0
                    + spec_enc_blocks(models(items@)).len(),
                forall|i: int|
                    0 <= i < blen && !(pos0 <= i < cur.pos) ==> buf@[i] == old(buf)@[i],
                buf@.subrange(pos0, cur.pos as int) =~= spec_enc_blocks(
                    models(items@.take(j as int)),
                ),
            decreases n - j,
        {
            let ghost pre = buf@;
            let ghost posj = cur.pos as int;
            proof {
                let rest = models(items@.skip(j as int));
                assert(rest.len() > 0);
                assert(rest[0] == items@[j as int]@);
                assert(rest.skip(1) =~= models(items@.skip(j as int + 1)));
                lemma_enc_entries_len(items@[j as int]@.block);
            }
            Self::write_single(cur, buf, &items[j]);
            proof {
                assert(forall|i: int|
                    0 <= i < blen && !(posj <= i < cur.pos as int) ==> buf@[i] == pre[i]);
                assert(pre.subrange(pos0, posj) =~= buf@.subrange(pos0, posj));
                lemma_enc_blocks_snoc(models(items@.take(j as int)), items@[j as int]@);
                assert(models(items@.take(j as int)).push(items@[j as int]@) =~= models(
                    items@.take(j as int + 1),
                ));
                assert(buf@.subrange(pos0, cur.pos as int) =~= buf@.subrange(pos0, posj)
                    + buf@.subrange(posj, cur.pos as int));
                assert(buf@.subrange(pos0, cur.pos as int) =~= spec_enc_blocks(
                    models(items@.take(j as int + 1)),
                ));
            }
            j = j + 1;
        }
        proof {
            assert(items@.take(n as int) =~= items@);
        }
    }
}

} // verus!
