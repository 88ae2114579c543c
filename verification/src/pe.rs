//! The PE structural decoder and the address translator over its section
//! table.

use crate::dos_hdr::{DosHeader, DOS_HDR_SIZE};
use crate::err::PeError;
use crate::nt_hdr::{dir_present, NtHeader, NT_HDR_SIZE};
use crate::relocs::{decode_blocks, models, spec_dec_blocks, Relocation, RelocationModel};
use crate::sec_hdr::{SectionHeader, SEC_HDR_SIZE};
use crate::views::{le16_at, le32_at, ArrayView, BindCursor, U16View, U32View};
use vstd::prelude::*;

verus! {

/// The buffer offset of the NT header, as the DOS header declares it.
pub open spec fn spec_nt_off(b: Seq<u8>) -> int {
    le32_at(b, 0x3C) as int
}

/// The declared number of sections, read from the file header.
pub open spec fn spec_num_secs(b: Seq<u8>) -> int {
    le16_at(b, spec_nt_off(b) + 6) as int
}

/// The buffer offset of the first byte past the section header table.
pub open spec fn spec_hdr_end(b: Seq<u8>) -> int {
    spec_nt_off(b) + NT_HDR_SIZE + SEC_HDR_SIZE * spec_num_secs(b)
}

/// The buffer offset of section header `i`.
pub open spec fn spec_sec_base(b: Seq<u8>, i: int) -> int {
    spec_nt_off(b) + NT_HDR_SIZE + SEC_HDR_SIZE * i
}

/// The declared raw-data file pointer of section `i`.
pub open spec fn spec_sec_ptr(b: Seq<u8>, i: int) -> int {
    le32_at(b, spec_sec_base(b, i) + 20) as int
}

/// The declared raw-data size of section `i`.
pub open spec fn spec_sec_rawsize(b: Seq<u8>, i: int) -> int {
    le32_at(b, spec_sec_base(b, i) + 16) as int
}

/// The section-header views a decode of `b` binds for section `i`.
pub open spec fn spec_sec_hdr(b: Seq<u8>, i: int) -> SectionHeader {
    let base = spec_sec_base(b, i);
    SectionHeader {
        name: ArrayView { offset: base as usize, len: 8 },
        virt_size: U32View { offset: (base + 8) as usize },
        virt_addr: U32View { offset: (base + 12) as usize },
        size_of_raw_data: U32View { offset: (base + 16) as usize },
        ptr_to_raw_data: U32View { offset: (base + 20) as usize },
        ptr_to_relocs: U32View { offset: (base + 24) as usize },
        ptr_to_line_nums: U32View { offset: (base + 28) as usize },
        num_of_relocs: U16View { offset: (base + 32) as usize },
        num_of_line_nums: U16View { offset: (base + 34) as usize },
        characteristics: U32View { offset: (base + 36) as usize },
    }
}

/// The declared-order section header list a decode of `b` produces.
pub open spec fn spec_sec_hdrs(b: Seq<u8>) -> Seq<SectionHeader> {
    Seq::new(spec_num_secs(b) as nat, |i: int| spec_sec_hdr(b, i))
}

/// Section `h` contains `rva` under the virtual-size rule:
/// `virt_addr <= rva < virt_addr + virt_size`.
pub open spec fn sec_contains_rva(b: Seq<u8>, h: SectionHeader, rva: u32) -> bool {
    h.virt_addr.spec_get(b) <= rva && rva < h.virt_addr.spec_get(b) + h.virt_size.spec_get(b)
}

/// The page-rounded virtual size of a raw-data size: one full page is
/// always added, even when the size is already page-aligned (so 0x1000
/// rounds to 0x2000, not to itself). The rule is deliberately not
/// conventional ceiling rounding and is kept exactly for compatibility.
pub open spec fn spec_sec_virt_size(size_of_raw_data: u32) -> int {
    ((size_of_raw_data / 0x1000) + 1) * 0x1000
}

/// Translate an RVA to a file offset: the first section in declared order
/// that contains it under the virtual-size rule wins; the offset is the
/// RVA's displacement in that section added to its raw-data pointer.
pub open spec fn spec_rva_to_file_offset(b: Seq<u8>, secs: Seq<SectionHeader>, rva: u32) -> Result<
    u32,
    PeError,
>
    decreases secs.len(),
{
    if secs.len() == 0 {
        Err(PeError::SectionNotFound)
    } else if sec_contains_rva(b, secs[0], rva) {
        let off = rva - secs[0].virt_addr.spec_get(b) + secs[0].ptr_to_raw_data.spec_get(b);
        if off <= u32::MAX {
            Ok(off as u32)
        } else {
            Err(PeError::OutOfRange)
        }
    } else {
        spec_rva_to_file_offset(b, secs.skip(1), rva)
    }
}

/// Find the declared index of the first section containing `va`, under the
/// same virtual-size containment rule the RVA translation uses.
pub open spec fn spec_va_to_sec_index(b: Seq<u8>, secs: Seq<SectionHeader>, va: u32) -> Result<
    int,
    PeError,
>
    decreases secs.len(),
{
    if secs.len() == 0 {
        Err(PeError::SectionNotFound)
    } else if sec_contains_rva(b, secs[0], va) {
        Ok(0)
    } else {
        match spec_va_to_sec_index(b, secs.skip(1), va) {
            Ok(i) => Ok(i + 1),
            Err(e) => Err(e),
        }
    }
}

/// A translated RVA lands in the first declared section whose virtual
/// range contains it, at the matching displacement from that section's
/// raw-data pointer; `SectionNotFound` comes exactly when no section
/// contains the RVA.
pub proof fn lemma_rva_offset_consistent(b: Seq<u8>, secs: Seq<SectionHeader>, rva: u32)
    ensures
        match spec_rva_to_file_offset(b, secs, rva) {
            Ok(off) => exists|i: int|
                0 <= i < secs.len() && #[trigger] sec_contains_rva(b, secs[i], rva) && (forall|
                    j: int,
                |
                    0 <= j < i ==> !sec_contains_rva(b, secs[j], rva)) && off == rva - secs[i]
                    .virt_addr.spec_get(b) + secs[i].ptr_to_raw_data.spec_get(b),
            Err(e) => if e == PeError::SectionNotFound {
                forall|i: int| 0 <= i < secs.len() ==> !sec_contains_rva(b, secs[i], rva)
            } else {
                e == PeError::OutOfRange
            },
        },
    decreases secs.len(),
{
    if secs.len() == 0 {
    } else if sec_contains_rva(b, secs[0], rva) {
        let off = rva - secs[0].virt_addr.spec_get(b) + secs[0].ptr_to_raw_data.spec_get(b);
        if off <= u32::MAX {
            assert(0 <= 0 < secs.len() && sec_contains_rva(b, secs[0], rva) && (forall|j: int|
                0 <= j < 0 ==> !sec_contains_rva(b, secs[j], rva)) && off == rva - secs[0]
                .virt_addr.spec_get(b) + secs[0].ptr_to_raw_data.spec_get(b));
        }
    } else {
        lemma_rva_offset_consistent(b, secs.skip(1), rva);
        match spec_rva_to_file_offset(b, secs.skip(1), rva) {
            Ok(off) => {
                let i0 = choose|i: int|
                    0 <= i < secs.skip(1).len() && #[trigger] sec_contains_rva(
                        b,
                        secs.skip(1)[i],
                        rva,
                    ) && (forall|j: int|
                        0 <= j < i ==> !sec_contains_rva(b, secs.skip(1)[j], rva)) && off == rva
                        - secs.skip(1)[i].virt_addr.spec_get(b) + secs.skip(1)[i].ptr_to_raw_data
                        .spec_get(b);
                assert(secs.skip(1)[i0] == secs[i0 + 1]);
                assert(forall|j: int|
                    0 <= j < i0 + 1 ==> !sec_contains_rva(b, secs[j], rva)) by {
                    assert(forall|j: int|
                        1 <= j < i0 + 1 ==> secs[j] == secs.skip(1)[j - 1]);
                }
                assert(0 <= i0 + 1 < secs.len() && sec_contains_rva(b, secs[i0 + 1], rva) && (
                forall|j: int| 0 <= j < i0 + 1 ==> !sec_contains_rva(b, secs[j], rva)) && off
                    == rva - secs[i0 + 1].virt_addr.spec_get(b) + secs[i0 + 1].ptr_to_raw_data
                    .spec_get(b));
            },
            Err(_) => {
                assert(forall|i: int|
                    1 <= i < secs.len() ==> secs[i] == secs.skip(1)[i - 1]);
            },
        }
    }
}

/// The found section index is the first declared index containing the
/// address under the virtual-size rule; `SectionNotFound` comes exactly
/// when no section contains it.
pub proof fn lemma_sec_index_first_match(b: Seq<u8>, secs: Seq<SectionHeader>, va: u32)
    ensures
        match spec_va_to_sec_index(b, secs, va) {
            Ok(i) => 0 <= i < secs.len() && sec_contains_rva(b, secs[i], va) && (forall|j: int|
                0 <= j < i ==> !sec_contains_rva(b, secs[j], va)),
            Err(e) => e == PeError::SectionNotFound && (forall|i: int|
                0 <= i < secs.len() ==> !sec_contains_rva(b, secs[i], va)),
        },
    decreases secs.len(),
{
    if secs.len() == 0 {
    } else if sec_contains_rva(b, secs[0], va) {
    } else {
        lemma_sec_index_first_match(b, secs.skip(1), va);
        assert(forall|i: int| 1 <= i < secs.len() ==> secs[i] == secs.skip(1)[i - 1]);
    }
}

/// Lexicographic order on a section's carve key: its raw-data pointer,
/// tie-broken by its declared index.
pub open spec fn sec_key_le(b: Seq<u8>, i: int, j: int) -> bool {
    spec_sec_ptr(b, i) < spec_sec_ptr(b, j) || (spec_sec_ptr(b, i) == spec_sec_ptr(b, j) && i
        <= j)
}

/// The position within `idxs` of the section with the least carve key.
pub open spec fn spec_argmin(b: Seq<u8>, idxs: Seq<usize>) -> int
    decreases idxs.len(),
{
    if idxs.len() <= 1 {
        0
    } else {
        let p = spec_argmin(b, idxs.skip(1)) + 1;
        if 1 <= p < idxs.len() && !sec_key_le(b, idxs[0] as int, idxs[p] as int) {
            p
        } else {
            0
        }
    }
}

/// `spec_argmin` is in range and its key is least.
pub proof fn lemma_argmin_min(b: Seq<u8>, idxs: Seq<usize>)
    requires
        idxs.len() > 0,
    ensures
        0 <= spec_argmin(b, idxs) < idxs.len(),
        forall|t: int|
            0 <= t < idxs.len() ==> sec_key_le(
                b,
                idxs[spec_argmin(b, idxs)] as int,
                #[trigger] idxs[t] as int,
            ),
    decreases idxs.len(),
{
    if idxs.len() > 1 {
        lemma_argmin_min(b, idxs.skip(1));
        assert(forall|t: int| 1 <= t < idxs.len() ==> idxs[t] == idxs.skip(1)[t - 1]);
    }
}

/// The declared section indices `0 .. n` in declared order.
pub open spec fn spec_full_idxs(n: int) -> Seq<usize> {
    Seq::new(n as nat, |i: int| i as usize)
}

/// Carve the sections' raw-data windows out of the buffer in ascending
/// file-offset order (ties broken by declared index), the forward cursor
/// starting at the end of the header region: a window starting before the
/// cursor is a `MalformedHeader`, one running past the buffer a
/// `BufferTooSmall`. On success, the windows as `(offset, length)` pairs in
/// carve order.
pub open spec fn spec_carve(b: Seq<u8>, idxs: Seq<usize>, cursor: int) -> Result<
    Seq<(int, int)>,
    PeError,
>
    decreases idxs.len(),
{
    if idxs.len() == 0 {
        Ok(Seq::empty())
    } else {
        let p = spec_argmin(b, idxs);
        let i = idxs[p] as int;
        let ptr = spec_sec_ptr(b, i);
        let sz = spec_sec_rawsize(b, i);
        if ptr < cursor {
            Err(PeError::MalformedHeader)
        } else if ptr + sz > b.len() {
            Err(PeError::BufferTooSmall)
        } else {
            match spec_carve(b, idxs.remove(p), ptr + sz) {
                Ok(rest) => Ok(seq![(ptr, sz)] + rest),
                Err(e) => Err(e),
            }
        }
    }
}

/// Strict lexicographic order on carve keys.
pub open spec fn sec_key_lt(b: Seq<u8>, i: int, j: int) -> bool {
    spec_sec_ptr(b, i) < spec_sec_ptr(b, j) || (spec_sec_ptr(b, i) == spec_sec_ptr(b, j) && i
        < j)
}

/// The declarative shape of a carvable section set: every window starts at
/// or after the cursor, lies within the buffer, and when one window's key
/// precedes another's, the first ends at or before the second begins — the
/// windows partition disjoint ranges of the buffer.
pub open spec fn spec_carve_ok(b: Seq<u8>, idxs: Seq<usize>, cursor: int) -> bool {
    &&& forall|p: int|
        0 <= p < idxs.len() ==> cursor <= spec_sec_ptr(b, (#[trigger] idxs[p]) as int)
    &&& forall|p: int|
        0 <= p < idxs.len() ==> spec_sec_ptr(b, (#[trigger] idxs[p]) as int)
            + spec_sec_rawsize(b, idxs[p] as int) <= b.len()
    &&& forall|p: int, q: int|
        0 <= p < idxs.len() && 0 <= q < idxs.len() && sec_key_lt(
            b,
            (#[trigger] idxs[p]) as int,
            (#[trigger] idxs[q]) as int,
        ) ==> spec_sec_ptr(b, idxs[p] as int) + spec_sec_rawsize(b, idxs[p] as int)
            <= spec_sec_ptr(b, idxs[q] as int)
}

/// Carving succeeds exactly when the declarative condition holds: the
/// forward-cursor walk in ascending key order is equivalent to pairwise
/// disjointness of the windows above the cursor, within the buffer.
pub proof fn lemma_carve_iff(b: Seq<u8>, idxs: Seq<usize>, cursor: int)
    requires
        forall|a: int, c: int| 0 <= a < c < idxs.len() ==> idxs[a] != idxs[c],
    ensures
        (spec_carve(b, idxs, cursor) is Ok) == spec_carve_ok(b, idxs, cursor),
    decreases idxs.len(),
{
    if idxs.len() > 0 {
        lemma_argmin_min(b, idxs);
        let p = spec_argmin(b, idxs);
        let i = idxs[p] as int;
        let ptr = spec_sec_ptr(b, i);
        let sz = spec_sec_rawsize(b, i);
        let r = idxs.remove(p);
        assert(forall|a: int|
            0 <= a < r.len() ==> #[trigger] r[a] == (if a < p {
                idxs[a]
            } else {
                idxs[a + 1]
            }));
        assert forall|a: int, c: int| 0 <= a < c < r.len() implies r[a] != r[c] by {
            if a < p && c < p {
            } else if a < p {
                assert(r[a] == idxs[a] && r[c] == idxs[c + 1]);
            } else {
                assert(r[a] == idxs[a + 1] && r[c] == idxs[c + 1]);
            }
        }
        assert forall|a: int| 0 <= a < r.len() implies sec_key_lt(b, i, (#[trigger] r[a]) as int)
            by {
            if a < p {
                assert(r[a] == idxs[a] && idxs[a] != idxs[p]);
                assert(sec_key_le(b, i, idxs[a] as int));
            } else {
                assert(r[a] == idxs[a + 1] && idxs[a + 1] != idxs[p]);
                assert(sec_key_le(b, i, idxs[a + 1] as int));
            }
        }
        lemma_carve_iff(b, r, ptr + sz);
        if ptr < cursor {
            assert(!spec_carve_ok(b, idxs, cursor));
        } else if ptr + sz > b.len() {
            assert(!spec_carve_ok(b, idxs, cursor));
        } else {
            if spec_carve_ok(b, idxs, cursor) {
                assert forall|a: int|
                    0 <= a < r.len() implies ptr + sz <= spec_sec_ptr(
                    b,
                    (#[trigger] r[a]) as int,
                ) by {
                    if a < p {
                        assert(r[a] == idxs[a]);
                        assert(sec_key_lt(b, idxs[p] as int, idxs[a] as int));
                    } else {
                        assert(r[a] == idxs[a + 1]);
                        assert(sec_key_lt(b, idxs[p] as int, idxs[a + 1] as int));
                    }
                }
                assert forall|a: int|
                    0 <= a < r.len() implies spec_sec_ptr(b, (#[trigger] r[a]) as int)
                    + spec_sec_rawsize(b, r[a] as int) <= b.len() by {
                    if a < p {
                        assert(r[a] == idxs[a]);
                    } else {
                        assert(r[a] == idxs[a + 1]);
                    }
                }
                assert forall|a: int, c: int|
                    0 <= a < r.len() && 0 <= c < r.len() && sec_key_lt(
                        b,
                        (#[trigger] r[a]) as int,
                        (#[trigger] r[c]) as int,
                    ) implies spec_sec_ptr(b, r[a] as int) + spec_sec_rawsize(b, r[a] as int)
                    <= spec_sec_ptr(b, r[c] as int) by {
                    let a2 = if a < p { a } else { a + 1 };
                    let c2 = if c < p { c } else { c + 1 };
                    assert(r[a] == idxs[a2] && r[c] == idxs[c2]);
                }
                assert(spec_carve_ok(b, r, ptr + sz));
            }
            if spec_carve_ok(b, r, ptr + sz) && cursor <= ptr && ptr + sz <= b.len() {
                assert forall|x: int|
                    0 <= x < idxs.len() implies cursor <= spec_sec_ptr(
                    b,
                    (#[trigger] idxs[x]) as int,
                ) by {
                    if x != p {
                        let x2 = if x < p { x } else { x - 1 };
                        assert(r[x2] == idxs[x]);
                        assert(ptr + sz <= spec_sec_ptr(b, r[x2] as int));
                    }
                }
                assert forall|x: int|
                    0 <= x < idxs.len() implies spec_sec_ptr(b, (#[trigger] idxs[x]) as int)
                    + spec_sec_rawsize(b, idxs[x] as int) <= b.len() by {
                    if x != p {
                        let x2 = if x < p { x } else { x - 1 };
                        assert(r[x2] == idxs[x]);
                    }
                }
                assert forall|x: int, y: int|
                    0 <= x < idxs.len() && 0 <= y < idxs.len() && sec_key_lt(
                        b,
                        (#[trigger] idxs[x]) as int,
                        (#[trigger] idxs[y]) as int,
                    ) implies spec_sec_ptr(b, idxs[x] as int) + spec_sec_rawsize(
                    b,
                    idxs[x] as int,
                ) <= spec_sec_ptr(b, idxs[y] as int) by {
                    if x == p && y != p {
                        let y2 = if y < p { y } else { y - 1 };
                        assert(r[y2] == idxs[y]);
                        assert(ptr + sz <= spec_sec_ptr(b, r[y2] as int));
                    } else if x != p && y == p {
                        assert(sec_key_le(b, i, idxs[x] as int));
                    } else if x != p && y != p {
                        let x2 = if x < p { x } else { x - 1 };
                        let y2 = if y < p { y } else { y - 1 };
                        assert(r[x2] == idxs[x] && r[y2] == idxs[y]);
                    }
                }
                assert(spec_carve_ok(b, idxs, cursor));
            }
        }
    }
}

/// The `(offset, length)` pairs of a sequence of raw windows.
pub open spec fn spec_windows(s: Seq<ArrayView>) -> Seq<(int, int)> {
    s.map_values(|a: ArrayView| (a.offset as int, a.len as int))
}

/// The base-relocation directory slot, under the presence rule.
pub open spec fn spec_reloc_dir(b: Seq<u8>) -> Option<(u32, u32)> {
    if dir_present(b, spec_nt_off(b) + 176) {
        Some((le32_at(b, spec_nt_off(b) + 176), le32_at(b, spec_nt_off(b) + 180)))
    } else {
        None
    }
}

/// Decode the base-relocation directory, when present: translate its RVA
/// through the section table, bound the chain by the directory's declared
/// size, and decode the blocks.
pub open spec fn spec_decode_relocs(b: Seq<u8>) -> Result<
    Option<Seq<RelocationModel>>,
    PeError,
> {
    match spec_reloc_dir(b) {
        None => Ok(None),
        Some((rva, size)) => match spec_rva_to_file_offset(b, spec_sec_hdrs(b), rva) {
            Err(e) => Err(e),
            Ok(off) => if off + size > b.len() {
                Err(PeError::BufferTooSmall)
            } else {
                match spec_dec_blocks(b, off as int, off + size) {
                    Err(e) => Err(e),
                    Ok((ms, _c)) => Ok(Some(ms)),
                }
            },
        },
    }
}

/// The first error a structural decode of `b` reports, in decode order, or
/// `None` when the whole image decodes.
pub open spec fn spec_decode_err(b: Seq<u8>) -> Option<PeError> {
    if b.len() < DOS_HDR_SIZE {
        Some(PeError::BufferTooSmall)
    } else if spec_nt_off(b) < DOS_HDR_SIZE || spec_nt_off(b) >= b.len() {
        // an offset at or past the end leaves no byte for the NT header:
        // bad chaining, not a truncated image
        Some(PeError::MalformedHeader)
    } else if spec_nt_off(b) + NT_HDR_SIZE > b.len() {
        Some(PeError::BufferTooSmall)
    } else if spec_hdr_end(b) > b.len() {
        Some(PeError::BufferTooSmall)
    } else {
        match spec_carve(b, spec_full_idxs(spec_num_secs(b)), spec_hdr_end(b)) {
            Err(e) => Some(e),
            Ok(_) => match spec_decode_relocs(b) {
                Err(e) => Some(e),
                Ok(_) => None,
            },
        }
    }
}

/// Section header `i`'s views lie at their declared offsets within a
/// buffer that holds the whole header table.
pub proof fn lemma_sec_hdr_layout(b: Seq<u8>, i: int)
    requires
        0 <= i < spec_num_secs(b),
        0 <= spec_nt_off(b),
        spec_hdr_end(b) <= b.len(),
        b.len() <= usize::MAX,
    ensures
        spec_sec_hdr(b, i).is_at(spec_sec_base(b, i)),
        spec_sec_hdr(b, i).wf(b.len()),
        spec_sec_hdr(b, i).virt_addr.wf(b.len()),
        spec_sec_hdr(b, i).virt_size.wf(b.len()),
        spec_sec_hdr(b, i).size_of_raw_data.wf(b.len()),
        spec_sec_hdr(b, i).ptr_to_raw_data.wf(b.len()),
        spec_sec_hdr(b, i).ptr_to_raw_data.spec_get(b) == spec_sec_ptr(b, i),
        spec_sec_hdr(b, i).size_of_raw_data.spec_get(b) == spec_sec_rawsize(b, i),
{
    assert(SEC_HDR_SIZE * i + SEC_HDR_SIZE <= SEC_HDR_SIZE * spec_num_secs(b)) by (nonlinear_arith)
        requires
            i + 1 <= spec_num_secs(b),
    ;
}

/// Removing an element keeps the remaining elements distinct and in range.
proof fn lemma_remove_keeps_distinct(s: Seq<usize>, p: int, n: int)
    requires
        0 <= p < s.len(),
        forall|a: int, c: int| 0 <= a < c < s.len() ==> s[a] != s[c],
        forall|a: int| 0 <= a < s.len() ==> (s[a] as int) < n,
    ensures
        forall|a: int, c: int|
            0 <= a < c < s.remove(p).len() ==> s.remove(p)[a] != s.remove(p)[c],
        forall|a: int| 0 <= a < s.remove(p).len() ==> (s.remove(p)[a] as int) < n,
{
    assert forall|a: int, c: int|
        0 <= a < c < s.remove(p).len() implies s.remove(p)[a] != s.remove(p)[c] by {
        if a < p && c < p {
            assert(s.remove(p)[a] == s[a] && s.remove(p)[c] == s[c]);
        } else if a < p {
            assert(s.remove(p)[a] == s[a] && s.remove(p)[c] == s[c + 1]);
        } else {
            assert(s.remove(p)[a] == s[a + 1] && s.remove(p)[c] == s[c + 1]);
        }
    }
    assert forall|a: int| 0 <= a < s.remove(p).len() implies (s.remove(p)[a] as int) < n by {
        if a < p {
            assert(s.remove(p)[a] == s[a]);
        } else {
            assert(s.remove(p)[a] == s[a + 1]);
        }
    }
}

/// The two translators agree: when an RVA translates to a file offset, the
/// index lookup on the same address finds the first section whose virtual
/// range contains it, and the offset is that section's raw-data pointer
/// plus the address's displacement within it. When no section contains the
/// address, both report `SectionNotFound`.
pub proof fn lemma_translators_consistent(b: Seq<u8>, secs: Seq<SectionHeader>, rva: u32)
    ensures
        match spec_rva_to_file_offset(b, secs, rva) {
            Ok(off) => spec_va_to_sec_index(b, secs, rva) matches Ok(i) && 0 <= i < secs.len()
                && sec_contains_rva(b, secs[i], rva) && (forall|j: int|
                0 <= j < i ==> !sec_contains_rva(b, secs[j], rva)) && off == rva - secs[i]
                .virt_addr.spec_get(b) + secs[i].ptr_to_raw_data.spec_get(b),
            Err(e) => e == PeError::SectionNotFound ==> spec_va_to_sec_index(b, secs, rva)
                == Err::<int, PeError>(PeError::SectionNotFound),
        },
    decreases secs.len(),
{
    if secs.len() == 0 {
    } else if sec_contains_rva(b, secs[0], rva) {
    } else {
        lemma_translators_consistent(b, secs.skip(1), rva);
        assert(forall|j: int| 1 <= j < secs.len() ==> secs[j] == secs.skip(1)[j - 1]);
        match spec_rva_to_file_offset(b, secs.skip(1), rva) {
            Ok(off) => {
                match spec_va_to_sec_index(b, secs.skip(1), rva) {
                    Ok(i2) => {
                        assert(forall|j: int|
                            0 <= j < i2 + 1 ==> !sec_contains_rva(b, secs[j], rva)) by {
                            assert(forall|j: int|
                                1 <= j < i2 + 1 ==> secs[j] == secs.skip(1)[j - 1]);
                        }
                    },
                    Err(_) => {},
                }
            },
            Err(_) => {},
        }
    }
}

/// The decoded image: the DOS and NT header views, the declared-order
/// section header list, the section raw-data windows in ascending
/// file-offset order, and the decoded relocation blocks, all over the one
/// owned buffer.
pub struct PeHeader {
    pub buf: Vec<u8>,
    pub dos_hdr: DosHeader,
    pub nt_hdr: NtHeader,
    pub sec_hdrs: Vec<SectionHeader>,
    pub secs: Vec<ArrayView>,
    pub relocs: Option<Vec<Relocation>>,
}

impl PeHeader {
    /// Structural well-formedness: every view lies within the buffer at its
    /// declared offset. This depends only on the buffer's length, so
    /// writing any field through a view preserves it.
    pub open spec fn wf(&self) -> bool {
        &&& self.dos_hdr.is_at(0)
        &&& DOS_HDR_SIZE <= self.buf@.len()
        &&& self.nt_hdr.is_at(self.nt_hdr.base())
        &&& DOS_HDR_SIZE <= self.nt_hdr.base()
        &&& self.nt_hdr.base() + NT_HDR_SIZE <= self.buf@.len()
        &&& forall|i: int|
            0 <= i < self.sec_hdrs@.len() ==> (#[trigger] self.sec_hdrs@[i]).is_at(
                self.nt_hdr.base() + NT_HDR_SIZE + SEC_HDR_SIZE * i,
            )
        &&& self.nt_hdr.base() + NT_HDR_SIZE + SEC_HDR_SIZE * self.sec_hdrs@.len()
            <= self.buf@.len()
        &&& forall|k: int|
            0 <= k < self.secs@.len() ==> (#[trigger] self.secs@[k]).wf(self.buf@.len())
    }

    /// Decode a whole image in one forward pass: bind the DOS header at
    /// offset zero, chain to the NT header through `addr_of_new_exe_hdr`,
    /// bind the declared number of section headers, carve the section
    /// raw-data windows in ascending file-offset order, and decode the
    /// base-relocation directory when present. Every failure mode is
    /// returned, never a panic.
    #[verifier::loop_isolation(false)]
    #[verifier::rlimit(60)]
    pub fn new(buf: Vec<u8>) -> (r: Result<PeHeader, PeError>)
        ensures
            match r {
                Ok(pe) => {
                    &&& spec_decode_err(buf@) is None
                    &&& pe.buf@ == buf@
                    &&& pe.wf()
                    &&& pe.dos_hdr.is_at(0)
                    &&& pe.nt_hdr.is_at(spec_nt_off(buf@))
                    &&& pe.nt_hdr.opt_hdr.data_dirs.matches(buf@, spec_nt_off(buf@) + 136)
                    &&& pe.sec_hdrs@ == spec_sec_hdrs(buf@)
                    &&& spec_carve(buf@, spec_full_idxs(spec_num_secs(buf@)), spec_hdr_end(buf@))
                        == Ok::<Seq<(int, int)>, PeError>(spec_windows(pe.secs@))
                    &&& spec_carve_ok(buf@, spec_full_idxs(spec_num_secs(buf@)), spec_hdr_end(buf@))
                    &&& match spec_decode_relocs(buf@) {
                        Ok(None) => pe.relocs is None,
                        Ok(Some(ms)) => pe.relocs matches Some(rs) && models(rs@) == ms,
                        Err(_) => false,
                    }
                },
                Err(e) => spec_decode_err(buf@) == Some(e),
            },
    {
        let blen = buf.len();
        let mut c = BindCursor::new(&buf);
        let dos_hdr = match DosHeader::bind(&mut c) {
            Ok(h) => h,
            Err(e) => return Err(e),
        };
        let e_lfanew = dos_hdr.addr_of_new_exe_hdr.get(&buf);
        proof {
            assert(e_lfanew == le32_at(buf@, 0x3C));
        }
        if e_lfanew < 0x40 || (e_lfanew as u64) >= (blen as u64) {
            return Err(PeError::MalformedHeader);
        }
        let nt_off = e_lfanew as usize;
        let mut c2 = BindCursor::at(&buf, nt_off);
        let nt_hdr = match NtHeader::bind(&mut c2, &buf) {
            Ok(h) => h,
            Err(e) => return Err(e),
        };
        let n = nt_hdr.file_hdr.num_of_secs.get(&buf) as usize;
        proof {
            assert(n == spec_num_secs(buf@));
        }
        let mut sec_hdrs: Vec<SectionHeader> = Vec::new();
        let mut i: usize = 0;
        while i < n
            invariant
                i <= n,
                c2.wf(),
                c2.pos == nt_off + NT_HDR_SIZE + SEC_HDR_SIZE * i,
                c2.end == blen,
                sec_hdrs@.len() == i,
                forall|t: int| 0 <= t < i ==> sec_hdrs@[t] == spec_sec_hdr(buf@, t),
            decreases n - i,
        {
            let h = match SectionHeader::bind(&mut c2) {
                Ok(h) => h,
                Err(e) => {
                    proof {
                        assert(SEC_HDR_SIZE * (i + 1) <= SEC_HDR_SIZE * (n as int));
                        assert(spec_hdr_end(buf@) > blen);
                    }
                    return Err(e);
                },
            };
            proof {
                assert(h == spec_sec_hdr(buf@, i as int));
            }
            sec_hdrs.push(h);
            i = i + 1;
        }
        let hdr_end = c2.pos;
        proof {
            assert(hdr_end == spec_hdr_end(buf@));
            assert(spec_hdr_end(buf@) <= blen);
            assert(sec_hdrs@ =~= spec_sec_hdrs(buf@));
        }
        let mut remaining: Vec<usize> = Vec::new();
        let mut t: usize = 0;
        while t < n
            invariant
                t <= n,
                remaining@.len() == t,
                forall|k: int| 0 <= k < t ==> (#[trigger] remaining@[k]) as int == k,
            decreases n - t,
        {
            remaining.push(t);
            t = t + 1;
        }
        proof {
            assert(remaining@ =~= spec_full_idxs(spec_num_secs(buf@)));
        }
        let ghost full = remaining@;
        let mut secs: Vec<ArrayView> = Vec::new();
        let mut cursor: usize = hdr_end;
        proof {
            assert(spec_windows(secs@) =~= Seq::<(int, int)>::empty());
        }
        while remaining.len() > 0
            invariant
                forall|a: int, c3: int|
                    0 <= a < c3 < remaining@.len() ==> remaining@[a] != remaining@[c3],
                forall|a: int| 0 <= a < remaining@.len() ==> (remaining@[a] as int) < n,
                forall|k: int| 0 <= k < secs@.len() ==> (#[trigger] secs@[k]).wf(buf@.len()),
                match spec_carve(buf@, remaining@, cursor as int) {
                    Ok(rest) => spec_carve(buf@, full, spec_hdr_end(buf@)) == Ok::<
                        Seq<(int, int)>,
                        PeError,
                    >(spec_windows(secs@) + rest),
                    Err(e) => spec_carve(buf@, full, spec_hdr_end(buf@)) == Err::<
                        Seq<(int, int)>,
                        PeError,
                    >(e),
                },
            decreases remaining@.len(),
        {
            let rem_len = remaining.len();
            let mut p: usize = 0;
            let mut q: usize = 1;
            while q < rem_len
                invariant
                    p < q,
                    q <= rem_len,
                    rem_len == remaining@.len(),
                    forall|u: int|
                        0 <= u < q ==> sec_key_le(
                            buf@,
                            remaining@[p as int] as int,
                            #[trigger] remaining@[u] as int,
                        ),
                decreases rem_len - q,
            {
                let iq = remaining[q];
                let ip = remaining[p];
                proof {
                    lemma_sec_hdr_layout(buf@, iq as int);
                    lemma_sec_hdr_layout(buf@, ip as int);
                }
                let ptr_q = sec_hdrs[iq].ptr_to_raw_data.get(&buf);
                let ptr_p = sec_hdrs[ip].ptr_to_raw_data.get(&buf);
                if ptr_q < ptr_p || (ptr_q == ptr_p && iq < ip) {
                    p = q;
                }
                q = q + 1;
            }
            proof {
                lemma_argmin_min(buf@, remaining@);
                let ps = spec_argmin(buf@, remaining@);
                assert(remaining@[ps] == remaining@[p as int]) by {
                    assert(sec_key_le(buf@, remaining@[ps] as int, remaining@[p as int] as int));
                    assert(sec_key_le(buf@, remaining@[p as int] as int, remaining@[ps] as int));
                }
                assert(ps == p as int) by {
                    if ps < p as int {
                        assert(remaining@[ps] != remaining@[p as int]);
                    } else if (p as int) < ps {
                        assert(remaining@[p as int] != remaining@[ps]);
                    }
                }
            }
            let i_min = remaining[p];
            let s_hdr = sec_hdrs[i_min];
            proof {
                lemma_sec_hdr_layout(buf@, i_min as int);
            }
            let ptr = s_hdr.ptr_to_raw_data.get(&buf);
            let sz = s_hdr.size_of_raw_data.get(&buf);
            if (ptr as usize) < cursor {
                return Err(PeError::MalformedHeader);
            }
            if (ptr as u64) + (sz as u64) > (blen as u64) {
                return Err(PeError::BufferTooSmall);
            }
            let w = ArrayView { offset: ptr as usize, len: sz as usize };
            let ghost old_remaining = remaining@;
            let ghost old_secs = secs@;
            let ghost old_cursor = cursor as int;
            secs.push(w);
            remaining.remove(p);
            cursor = (ptr as usize) + (sz as usize);
            proof {
                lemma_remove_keeps_distinct(old_remaining, p as int, n as int);
                match spec_carve(buf@, remaining@, cursor as int) {
                    Ok(rest2) => {
                        assert(spec_carve(buf@, old_remaining, old_cursor) == Ok::<
                            Seq<(int, int)>,
                            PeError,
                        >(seq![(ptr as int, sz as int)] + rest2));
                        assert(spec_windows(secs@) =~= spec_windows(old_secs).push(
                            (ptr as int, sz as int),
                        ));
                        assert(spec_windows(old_secs).push((ptr as int, sz as int)) + rest2
                            =~= spec_windows(old_secs) + (seq![(ptr as int, sz as int)] + rest2));
                    },
                    Err(_) => {},
                }
            }
        }
        proof {
            assert(spec_carve(buf@, remaining@, cursor as int) == Ok::<
                Seq<(int, int)>,
                PeError,
            >(Seq::empty()));
            assert(spec_windows(secs@) + Seq::<(int, int)>::empty() =~= spec_windows(secs@));
        }
        let relocs: Option<Vec<Relocation>> = match nt_hdr.opt_hdr.data_dirs.base_reloc {
            None => None,
            Some(dd) => {
                let rva = dd.virt_addr.get(&buf);
                let size = dd.size.get(&buf);
                proof {
                    assert forall|k: int| 0 <= k < sec_hdrs@.len() implies (
                    #[trigger] sec_hdrs@[k]).wf(buf@.len()) by {
                        lemma_sec_hdr_layout(buf@, k);
                    }
                }
                let off = match Self::rva_to_file_offset(&buf, &sec_hdrs, rva) {
                    Ok(o) => o,
                    Err(e) => return Err(e),
                };
                if (off as u64) + (size as u64) > (blen as u64) {
                    return Err(PeError::BufferTooSmall);
                }
                let start = off as usize;
                let end_r = start + (size as usize);
                match decode_blocks(&buf, start, end_r) {
                    Ok(rs) => Some(rs),
                    Err(e) => return Err(e),
                }
            },
        };
        proof {
            assert forall|k: int| 0 <= k < sec_hdrs@.len() implies (#[trigger] sec_hdrs@[k]).is_at(
                nt_off + NT_HDR_SIZE + SEC_HDR_SIZE * k,
            ) by {
                lemma_sec_hdr_layout(buf@, k);
            }
            lemma_carve_iff(buf@, full, spec_hdr_end(buf@));
        }
        let pe = PeHeader { buf, dos_hdr, nt_hdr, sec_hdrs, secs, relocs };
        Ok(pe)
    }

    /// The entry-point RVA the optional header declares.
    pub open spec fn spec_entry_va(&self) -> u32 {
        self.nt_hdr.opt_hdr.addr_of_entrypoint.spec_get(self.buf@)
    }

    /// Round a raw-data size up to the next page boundary, always adding a
    /// full page even when the size is already page-aligned; see
    /// `spec_sec_virt_size` for why this deliberate rule is kept.
    pub fn sec_virt_size(size_of_raw_data: u32) -> (r: u64)
        ensures
            r == spec_sec_virt_size(size_of_raw_data),
    {
        ((size_of_raw_data as u64 / 0x1000) + 1) * 0x1000
    }

    /// Translate an RVA to its file offset through the declared-order
    /// section list: first containing section (virtual-size rule) wins.
    pub fn rva_to_file_offset(buf: &Vec<u8>, sec_hdrs: &Vec<SectionHeader>, rva: u32) -> (r:
        Result<u32, PeError>)
        requires
            forall|i: int|
                0 <= i < sec_hdrs@.len() ==> (#[trigger] sec_hdrs@[i]).wf(buf@.len()),
        ensures
            r == spec_rva_to_file_offset(buf@, sec_hdrs@, rva),
    {
        let n = sec_hdrs.len();
        proof {
            assert(sec_hdrs@.skip(0) =~= sec_hdrs@);
        }
        let mut i: usize = 0;
        while i < n
            invariant
                i <= n,
                n == sec_hdrs@.len(),
                forall|t: int|
                    0 <= t < sec_hdrs@.len() ==> (#[trigger] sec_hdrs@[t]).wf(buf@.len()),
                spec_rva_to_file_offset(buf@, sec_hdrs@, rva) == spec_rva_to_file_offset(
                    buf@,
                    sec_hdrs@.skip(i as int),
                    rva,
                ),
            decreases n - i,
        {
            let s = sec_hdrs[i];
            let va = s.virt_addr.get(buf);
            let vs = s.virt_size.get(buf);
            proof {
                assert(sec_hdrs@.skip(i as int)[0] == sec_hdrs@[i as int]);
                assert(sec_hdrs@.skip(i as int).skip(1) =~= sec_hdrs@.skip(i as int + 1));
            }
            if va <= rva && (rva as u64) < (va as u64) + (vs as u64) {
                let off64: u64 = ((rva - va) as u64) + (s.ptr_to_raw_data.get(buf) as u64);
                if off64 <= u32::MAX as u64 {
                    return Ok(off64 as u32);
                } else {
                    return Err(PeError::OutOfRange);
                }
            }
            i = i + 1;
        }
        proof {
            assert(sec_hdrs@.skip(n as int) =~= Seq::<SectionHeader>::empty());
        }
        Err(PeError::SectionNotFound)
    }

    /// Find the declared index of the section containing `section_va`,
    /// under the same virtual-size containment rule as `rva_to_file_offset`.
    pub fn virt_addr_to_sec_index(&self, section_va: u32) -> (r: Result<usize, PeError>)
        requires
            self.wf(),
        ensures
            match r {
                Ok(i) => spec_va_to_sec_index(self.buf@, self.sec_hdrs@, section_va) == Ok::<
                    int,
                    PeError,
                >(i as int) && i < self.sec_hdrs@.len(),
                Err(e) => spec_va_to_sec_index(self.buf@, self.sec_hdrs@, section_va) == Err::<
                    int,
                    PeError,
                >(e),
            },
    {
        let n = self.sec_hdrs.len();
        proof {
            assert(self.sec_hdrs@.skip(0) =~= self.sec_hdrs@);
        }
        let mut i: usize = 0;
        while i < n
            invariant
                i <= n,
                n == self.sec_hdrs@.len(),
                self.wf(),
                match spec_va_to_sec_index(self.buf@, self.sec_hdrs@.skip(i as int), section_va) {
                    Ok(t) => spec_va_to_sec_index(self.buf@, self.sec_hdrs@, section_va) == Ok::<
                        int,
                        PeError,
                    >(t + i),
                    Err(e) => spec_va_to_sec_index(self.buf@, self.sec_hdrs@, section_va) == Err::<
                        int,
                        PeError,
                    >(e),
                },
            decreases n - i,
        {
            let s = self.sec_hdrs[i];
            proof {
                assert(s.wf(self.buf@.len()));
                assert(self.sec_hdrs@.skip(i as int)[0] == self.sec_hdrs@[i as int]);
                assert(self.sec_hdrs@.skip(i as int).skip(1) =~= self.sec_hdrs@.skip(i as int + 1));
            }
            let va = s.virt_addr.get(&self.buf);
            let vs = s.virt_size.get(&self.buf);
            if va <= section_va && (section_va as u64) < (va as u64) + (vs as u64) {
                return Ok(i);
            }
            i = i + 1;
        }
        proof {
            assert(self.sec_hdrs@.skip(n as int) =~= Seq::<SectionHeader>::empty());
        }
        Err(PeError::SectionNotFound)
    }

    /// The declared index of the section containing the entry point.
    pub fn entry_sec_index(&self) -> (r: Result<usize, PeError>)
        requires
            self.wf(),
        ensures
            match r {
                Ok(i) => spec_va_to_sec_index(self.buf@, self.sec_hdrs@, self.spec_entry_va())
                    == Ok::<int, PeError>(i as int) && i < self.sec_hdrs@.len(),
                Err(e) => spec_va_to_sec_index(self.buf@, self.sec_hdrs@, self.spec_entry_va())
                    == Err::<int, PeError>(e),
            },
    {
        let entry = self.nt_hdr.opt_hdr.addr_of_entrypoint.get(&self.buf);
        self.virt_addr_to_sec_index(entry)
    }

    /// The header of the section containing the entry point.
    pub fn entry_sec_ref(&self) -> (r: Result<&SectionHeader, PeError>)
        requires
            self.wf(),
        ensures
            match r {
                Ok(h) => spec_va_to_sec_index(self.buf@, self.sec_hdrs@, self.spec_entry_va())
                    matches Ok(i) && 0 <= i < self.sec_hdrs@.len() && *h == self.sec_hdrs@[i],
                Err(e) => spec_va_to_sec_index(self.buf@, self.sec_hdrs@, self.spec_entry_va())
                    == Err::<int, PeError>(e),
            },
    {
        let i = match self.entry_sec_index() {
            Ok(i) => i,
            Err(e) => return Err(e),
        };
        Ok(&self.sec_hdrs[i])
    }

    /// The entry point's byte offset within its section.
    pub fn entry_rel_sec_offset(&self) -> (r: Result<usize, PeError>)
        requires
            self.wf(),
        ensures
            match r {
                Ok(o) => spec_va_to_sec_index(self.buf@, self.sec_hdrs@, self.spec_entry_va())
                    matches Ok(i) && o == self.spec_entry_va() - self.sec_hdrs@[i].virt_addr
                    .spec_get(self.buf@),
                Err(e) => spec_va_to_sec_index(self.buf@, self.sec_hdrs@, self.spec_entry_va())
                    == Err::<int, PeError>(e),
            },
    {
        let h = match self.entry_sec_ref() {
            Ok(h) => *h,
            Err(e) => return Err(e),
        };
        let entry = self.nt_hdr.opt_hdr.addr_of_entrypoint.get(&self.buf);
        let va = h.virt_addr.get(&self.buf);
        proof {
            let i = spec_va_to_sec_index(self.buf@, self.sec_hdrs@, self.spec_entry_va())->Ok_0;
            lemma_sec_index_first_match(self.buf@, self.sec_hdrs@, self.spec_entry_va());
            assert(sec_contains_rva(self.buf@, self.sec_hdrs@[i], self.spec_entry_va()));
        }
        Ok((entry - va) as usize)
    }

    /// The entry point's absolute file offset: its section's raw-data
    /// pointer plus its offset within the section.
    pub fn entry_disk_offset(&self) -> (r: Result<usize, PeError>)
        requires
            self.wf(),
        ensures
            match r {
                Ok(o) => spec_va_to_sec_index(self.buf@, self.sec_hdrs@, self.spec_entry_va())
                    matches Ok(i) && o == self.sec_hdrs@[i].ptr_to_raw_data.spec_get(self.buf@) + (
                    self.spec_entry_va() - self.sec_hdrs@[i].virt_addr.spec_get(self.buf@)),
                Err(e) => match spec_va_to_sec_index(
                    self.buf@,
                    self.sec_hdrs@,
                    self.spec_entry_va(),
                ) {
                    Err(e2) => e == e2,
                    Ok(i) => e == PeError::OutOfRange && self.sec_hdrs@[i].ptr_to_raw_data
                        .spec_get(self.buf@) + (self.spec_entry_va() - self.sec_hdrs@[i].virt_addr
                        .spec_get(self.buf@)) > usize::MAX,
                },
            },
    {
        let h = match self.entry_sec_ref() {
            Ok(h) => *h,
            Err(e) => return Err(e),
        };
        let rel = match self.entry_rel_sec_offset() {
            Ok(o) => o,
            Err(e) => return Err(e),
        };
        let ptr = h.ptr_to_raw_data.get(&self.buf);
        let total: u64 = (ptr as u64) + (rel as u64);
        if total <= usize::MAX as u64 {
            Ok(total as usize)
        } else {
            Err(PeError::OutOfRange)
        }
    }

    /// The entry point's absolute virtual address once the image is
    /// loaded: the image base plus its section's virtual address.
    pub fn entry_sec_virt_ip(&self) -> (r: Result<u64, PeError>)
        requires
            self.wf(),
        ensures
            match r {
                Ok(ip) => spec_va_to_sec_index(self.buf@, self.sec_hdrs@, self.spec_entry_va())
                    matches Ok(i) && ip == self.nt_hdr.opt_hdr.image_base.spec_get(self.buf@)
                    + self.sec_hdrs@[i].virt_addr.spec_get(self.buf@),
                Err(e) => match spec_va_to_sec_index(
                    self.buf@,
                    self.sec_hdrs@,
                    self.spec_entry_va(),
                ) {
                    Err(e2) => e == e2,
                    Ok(i) => e == PeError::OutOfRange && self.nt_hdr.opt_hdr.image_base.spec_get(
                        self.buf@,
                    ) + self.sec_hdrs@[i].virt_addr.spec_get(self.buf@) > u64::MAX,
                },
            },
    {
        let h = match self.entry_sec_ref() {
            Ok(h) => *h,
            Err(e) => return Err(e),
        };
        let base = self.nt_hdr.opt_hdr.image_base.get(&self.buf);
        let va = h.virt_addr.get(&self.buf);
        if base <= u64::MAX - (va as u64) {
            Ok(base + (va as u64))
        } else {
            Err(PeError::OutOfRange)
        }
    }

    /// The page-rounded virtual size of the entry point's section.
    pub fn entry_sec_virt_size(&self) -> (r: Result<u64, PeError>)
        requires
            self.wf(),
        ensures
            match r {
                Ok(v) => spec_va_to_sec_index(self.buf@, self.sec_hdrs@, self.spec_entry_va())
                    matches Ok(i) && v == spec_sec_virt_size(
                    self.sec_hdrs@[i].size_of_raw_data.spec_get(self.buf@),
                ),
                Err(e) => spec_va_to_sec_index(self.buf@, self.sec_hdrs@, self.spec_entry_va())
                    == Err::<int, PeError>(e),
            },
    {
        let h = match self.entry_sec_ref() {
            Ok(h) => *h,
            Err(e) => return Err(e),
        };
        let raw = h.size_of_raw_data.get(&self.buf);
        Ok(Self::sec_virt_size(raw))
    }
}

} // verus!
