//! The 64-byte legacy DOS header at the start of the image.

use crate::err::PeError;
use crate::views::{ArrayView, BindCursor, U16View, U32View};
use vstd::prelude::*;

verus! {

/// Views onto the DOS header. Only `addr_of_new_exe_hdr` is used downstream:
/// it holds the absolute buffer offset of the NT header.
#[derive(Clone, Copy, Debug, PartialEq, Eq, Structural)]
pub struct DosHeader {
    pub mz_sig: U16View,
    pub used_bytes_in_last_page: U16View,
    pub file_size_in_pages: U16View,
    pub num_of_reloc_items: U16View,
    pub header_size_in_paragraphs: U16View,
    pub min_extra_paragraphs: U16View,
    pub max_extra_paragraphs: U16View,
    pub initial_relative_ss: U16View,
    pub initial_sp: U16View,
    pub checksum: U16View,
    pub initial_ip: U16View,
    pub initial_relative_cs: U16View,
    pub addr_of_reloc_table: U16View,
    pub overlay_number: U16View,
    pub reserved_0: ArrayView,
    pub oem_id: U16View,
    pub oem_info: U16View,
    pub reserved_1: ArrayView,
    pub addr_of_new_exe_hdr: U32View,
}

/// The number of bytes the DOS header occupies on disk.
pub const DOS_HDR_SIZE: usize = 0x40;

impl DosHeader {
    /// The buffer offset of the header's first byte.
    pub open spec fn base(&self) -> int {
        self.mz_sig.offset as int
    }

    /// Every field view sits at its declared offset from `base`; in
    /// particular `addr_of_new_exe_hdr` sits at `base + 0x3C`.
    pub open spec fn is_at(&self, base: int) -> bool {
        &&& self.mz_sig.offset == base
        &&& self.used_bytes_in_last_page.offset == base + 0x02
        &&& self.file_size_in_pages.offset == base + 0x04
        &&& self.num_of_reloc_items.offset == base + 0x06
        &&& self.header_size_in_paragraphs.offset == base + 0x08
        &&& self.min_extra_paragraphs.offset == base + 0x0A
        &&& self.max_extra_paragraphs.offset == base + 0x0C
        &&& self.initial_relative_ss.offset == base + 0x0E
        &&& self.initial_sp.offset == base + 0x10
        &&& self.checksum.offset == base + 0x12
        &&& self.initial_ip.offset == base + 0x14
        &&& self.initial_relative_cs.offset == base + 0x16
        &&& self.addr_of_reloc_table.offset == base + 0x18
        &&& self.overlay_number.offset == base + 0x1A
        &&& self.reserved_0.offset == base + 0x1C
        &&& self.reserved_0.len == 0x08
        &&& self.oem_id.offset == base + 0x24
        &&& self.oem_info.offset == base + 0x26
        &&& self.reserved_1.offset == base + 0x28
        &&& self.reserved_1.len == 0x14
        &&& self.addr_of_new_exe_hdr.offset == base + 0x3C
    }

    /// The header is laid out contiguously and lies within a buffer of
    /// `blen` bytes.
    pub open spec fn wf(&self, blen: nat) -> bool {
        self.is_at(self.base()) && self.base() + DOS_HDR_SIZE <= blen
    }

    /// Bind the header to the 64 leading unconsumed bytes of the cursor.
    pub fn bind(c: &mut BindCursor) -> (r: Result<DosHeader, PeError>)
        requires
            old(c).wf(),
        ensures
            final(c).end == old(c).end,
            final(c).wf(),
            match r {
                Ok(h) => old(c).pos + DOS_HDR_SIZE <= old(c).end && h.is_at(old(c).pos as int)
                    && final(c).pos == old(c).pos + DOS_HDR_SIZE,
                Err(e) => e == PeError::BufferTooSmall && old(c).pos + DOS_HDR_SIZE > old(c).end
                    && *final(c) == *old(c),
            },
    {
        if c.end - c.pos < DOS_HDR_SIZE {
            return Err(PeError::BufferTooSmall);
        }
        let mz_sig = match c.bind_u16() {
            Ok(v) => v,
            Err(e) => return Err(e),
        };
        let used_bytes_in_last_page = match c.bind_u16() {
            Ok(v) => v,
            Err(e) => return Err(e),
        };
        let file_size_in_pages = match c.bind_u16() {
            Ok(v) => v,
            Err(e) => return Err(e),
        };
        let num_of_reloc_items = match c.bind_u16() {
            Ok(v) => v,
            Err(e) => return Err(e),
        };
        let header_size_in_paragraphs = match c.bind_u16() {
            Ok(v) => v,
            Err(e) => return Err(e),
        };
        let min_extra_paragraphs = match c.bind_u16() {
            Ok(v) => v,
            Err(e) => return Err(e),
        };
        let max_extra_paragraphs = match c.bind_u16() {
            Ok(v) => v,
            Err(e) => return Err(e),
        };
        let initial_relative_ss = match c.bind_u16() {
            Ok(v) => v,
            Err(e) => return Err(e),
        };
        let initial_sp = match c.bind_u16() {
            Ok(v) => v,
            Err(e) => return Err(e),
        };
        let checksum = match c.bind_u16() {
            Ok(v) => v,
            Err(e) => return Err(e),
        };
        let initial_ip = match c.bind_u16() {
            Ok(v) => v,
            Err(e) => return Err(e),
        };
        let initial_relative_cs = match c.bind_u16() {
            Ok(v) => v,
            Err(e) => return Err(e),
        };
        let addr_of_reloc_table = match c.bind_u16() {
            Ok(v) => v,
            Err(e) => return Err(e),
        };
        let overlay_number = match c.bind_u16() {
            Ok(v) => v,
            Err(e) => return Err(e),
        };
        let reserved_0 = match c.bind_array(0x08) {
            Ok(v) => v,
            Err(e) => return Err(e),
        };
        let oem_id = match c.bind_u16() {
            Ok(v) => v,
            Err(e) => return Err(e),
        };
        let oem_info = match c.bind_u16() {
            Ok(v) => v,
            Err(e) => return Err(e),
        };
        let reserved_1 = match c.bind_array(0x14) {
            Ok(v) => v,
            Err(e) => return Err(e),
        };
        let addr_of_new_exe_hdr = match c.bind_u32() {
            Ok(v) => v,
            Err(e) => return Err(e),
        };
        Ok(
            DosHeader {
                mz_sig,
                used_bytes_in_last_page,
                file_size_in_pages,
                num_of_reloc_items,
                header_size_in_paragraphs,
                min_extra_paragraphs,
                max_extra_paragraphs,
                initial_relative_ss,
                initial_sp,
                checksum,
                initial_ip,
                initial_relative_cs,
                addr_of_reloc_table,
                overlay_number,
                reserved_0,
                oem_id,
                oem_info,
                reserved_1,
                addr_of_new_exe_hdr,
            },
        )
    }
}

} // verus!
