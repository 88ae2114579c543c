//! The 40-byte section header record.

use crate::err::PeError;
use crate::views::{ArrayView, BindCursor, U16View, U32View};
use vstd::prelude::*;

verus! {

/// Views onto one section-table entry. The header keeps its declared index
/// (its position in the table) for every index-based lookup, independent of
/// the file-offset order of the sections' raw data.
#[derive(Clone, Copy, Debug, PartialEq, Eq, Structural)]
pub struct SectionHeader {
    pub name: ArrayView,
    pub virt_size: U32View,
    pub virt_addr: U32View,
    pub size_of_raw_data: U32View,
    pub ptr_to_raw_data: U32View,
    pub ptr_to_relocs: U32View,
    pub ptr_to_line_nums: U32View,
    pub num_of_relocs: U16View,
    pub num_of_line_nums: U16View,
    pub characteristics: U32View,
}

/// The number of bytes a section header occupies on disk.
pub const SEC_HDR_SIZE: usize = 40;

impl SectionHeader {
    /// The buffer offset of the record's first byte.
    pub open spec fn base(&self) -> int {
        self.name.offset as int
    }

    /// Every field view sits at its declared offset from `base`.
    pub open spec fn is_at(&self, base: int) -> bool {
        &&& self.name.offset == base
        &&& self.name.len == 8
        &&& self.virt_size.offset == base + 8
        &&& self.virt_addr.offset == base + 12
        &&& self.size_of_raw_data.offset == base + 16
        &&& self.ptr_to_raw_data.offset == base + 20
        &&& self.ptr_to_relocs.offset == base + 24
        &&& self.ptr_to_line_nums.offset == base + 28
        &&& self.num_of_relocs.offset == base + 32
        &&& self.num_of_line_nums.offset == base + 34
        &&& self.characteristics.offset == base + 36
    }

    /// The record is laid out contiguously and lies within a buffer of
    /// `blen` bytes.
    pub open spec fn wf(&self, blen: nat) -> bool {
        self.is_at(self.base()) && self.base() + SEC_HDR_SIZE <= blen
    }

    /// Bind the record to the 40 leading unconsumed bytes of the cursor.
    pub fn bind(c: &mut BindCursor) -> (r: Result<SectionHeader, PeError>)
        requires
            old(c).wf(),
        ensures
            final(c).end == old(c).end,
            final(c).wf(),
            match r {
                Ok(h) => old(c).pos + SEC_HDR_SIZE <= old(c).end && h.is_at(old(c).pos as int)
                    && final(c).pos == old(c).pos + SEC_HDR_SIZE,
                Err(e) => e == PeError::BufferTooSmall && old(c).pos + SEC_HDR_SIZE > old(c).end
                    && *final(c) == *old(c),
            },
    {
        if c.end - c.pos < SEC_HDR_SIZE {
            return Err(PeError::BufferTooSmall);
        }
        let name = match c.bind_array(8) {
            Ok(v) => v,
            Err(e) => return Err(e),
        };
        let virt_size = match c.bind_u32() {
            Ok(v) => v,
            Err(e) => return Err(e),
        };
        let virt_addr = match c.bind_u32() {
            Ok(v) => v,
            Err(e) => return Err(e),
        };
        let size_of_raw_data = match c.bind_u32() {
            Ok(v) => v,
            Err(e) => return Err(e),
        };
        let ptr_to_raw_data = match c.bind_u32() {
            Ok(v) => v,
            Err(e) => return Err(e),
        };
        let ptr_to_relocs = match c.bind_u32() {
            Ok(v) => v,
            Err(e) => return Err(e),
        };
        let ptr_to_line_nums = match c.bind_u32() {
            Ok(v) => v,
            Err(e) => return Err(e),
        };
        let num_of_relocs = match c.bind_u16() {
            Ok(v) => v,
            Err(e) => return Err(e),
        };
        let num_of_line_nums = match c.bind_u16() {
            Ok(v) => v,
            Err(e) => return Err(e),
        };
        let characteristics = match c.bind_u32() {
            Ok(v) => v,
            Err(e) => return Err(e),
        };
        Ok(
            SectionHeader {
                name,
                virt_size,
                virt_addr,
                size_of_raw_data,
                ptr_to_raw_data,
                ptr_to_relocs,
                ptr_to_line_nums,
                num_of_relocs,
                num_of_line_nums,
                characteristics,
            },
        )
    }
}

} // verus!
