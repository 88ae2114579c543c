//! The NT header: signature, file header, optional header and the sixteen
//! data-directory slots.

use crate::err::PeError;
use crate::views::{le32_at, BindCursor, ByteView, U16View, U32View, U64View};
use vstd::prelude::*;

verus! {

/// The directory kinds this crate decodes structurally.
#[derive(Clone, Copy, Debug, PartialEq, Eq, Structural)]
pub enum DataDirType {
    Import,
    Reloc,
}

/// One data-directory slot: an RVA and a byte size.
#[derive(Clone, Copy, Debug, PartialEq, Eq, Structural)]
pub struct DataDirectory {
    pub virt_addr: U32View,
    pub size: U32View,
}

/// By PE convention a directory slot is absent when both of its fields are
/// zero. This is the explicit presence rule applied to the slot at `off`.
pub open spec fn dir_present(b: Seq<u8>, off: int) -> bool {
    le32_at(b, off) != 0 || le32_at(b, off + 4) != 0
}

/// The executable form of the presence rule over the two decoded fields.
pub fn dir_slot_present(virt_addr: u32, size: u32) -> (r: bool)
    ensures
        r == (virt_addr != 0 || size != 0),
{
    virt_addr != 0 || size != 0
}

impl DataDirectory {
    /// Both field views sit at their declared offsets from `base`.
    pub open spec fn is_at(&self, base: int) -> bool {
        self.virt_addr.offset == base && self.size.offset == base + 4
    }
}

/// A decoded slot's views sit at `off`, and the slot is `Some` exactly when
/// the presence rule held of the bytes it was decoded from.
pub open spec fn slot_matches(slot: Option<DataDirectory>, b: Seq<u8>, off: int) -> bool {
    match slot {
        Some(d) => d.is_at(off) && dir_present(b, off),
        None => !dir_present(b, off),
    }
}

/// A decoded slot's views sit at `off`; nothing is said of the bytes.
pub open spec fn slot_at(slot: Option<DataDirectory>, off: int) -> bool {
    match slot {
        Some(d) => d.is_at(off),
        None => true,
    }
}

/// The sixteen data-directory slots, in their fixed declared order.
#[derive(Clone, Copy, Debug, PartialEq, Eq, Structural)]
pub struct DataDirectories {
    pub export: Option<DataDirectory>,
    pub import: Option<DataDirectory>,
    pub resource: Option<DataDirectory>,
    pub exception: Option<DataDirectory>,
    pub security: Option<DataDirectory>,
    pub base_reloc: Option<DataDirectory>,
    pub debug: Option<DataDirectory>,
    pub architecture: Option<DataDirectory>,
    pub global_ptr: Option<DataDirectory>,
    pub tls: Option<DataDirectory>,
    pub load_config: Option<DataDirectory>,
    pub bound_import: Option<DataDirectory>,
    pub iat: Option<DataDirectory>,
    pub delay_import: Option<DataDirectory>,
    pub com_descriptor: Option<DataDirectory>,
    pub reserved: Option<DataDirectory>,
}

/// The number of bytes the sixteen directory slots occupy on disk.
pub const DATA_DIRS_SIZE: usize = 128;

impl DataDirectories {
    /// Every present slot's views sit at the slot's declared offset from
    /// `base`. Holds whatever the buffer now contains.
    pub open spec fn is_at(&self, base: int) -> bool {
        &&& slot_at(self.export, base)
        &&& slot_at(self.import, base + 8)
        &&& slot_at(self.resource, base + 16)
        &&& slot_at(self.exception, base + 24)
        &&& slot_at(self.security, base + 32)
        &&& slot_at(self.base_reloc, base + 40)
        &&& slot_at(self.debug, base + 48)
        &&& slot_at(self.architecture, base + 56)
        &&& slot_at(self.global_ptr, base + 64)
        &&& slot_at(self.tls, base + 72)
        &&& slot_at(self.load_config, base + 80)
        &&& slot_at(self.bound_import, base + 88)
        &&& slot_at(self.iat, base + 96)
        &&& slot_at(self.delay_import, base + 104)
        &&& slot_at(self.com_descriptor, base + 112)
        &&& slot_at(self.reserved, base + 120)
    }

    /// `is_at`, strengthened with the presence rule against the bytes `b`
    /// the slots were decoded from.
    pub open spec fn matches(&self, b: Seq<u8>, base: int) -> bool {
        &&& slot_matches(self.export, b, base)
        &&& slot_matches(self.import, b, base + 8)
        &&& slot_matches(self.resource, b, base + 16)
        &&& slot_matches(self.exception, b, base + 24)
        &&& slot_matches(self.security, b, base + 32)
        &&& slot_matches(self.base_reloc, b, base + 40)
        &&& slot_matches(self.debug, b, base + 48)
        &&& slot_matches(self.architecture, b, base + 56)
        &&& slot_matches(self.global_ptr, b, base + 64)
        &&& slot_matches(self.tls, b, base + 72)
        &&& slot_matches(self.load_config, b, base + 80)
        &&& slot_matches(self.bound_import, b, base + 88)
        &&& slot_matches(self.iat, b, base + 96)
        &&& slot_matches(self.delay_import, b, base + 104)
        &&& slot_matches(self.com_descriptor, b, base + 112)
        &&& slot_matches(self.reserved, b, base + 120)
    }

    /// Bind one slot: consume its eight bytes, read both fields, and apply
    /// the presence rule.
    fn bind_slot(c: &mut BindCursor, buf: &Vec<u8>) -> (r: Result<
        Option<DataDirectory>,
        PeError,
    >)
        requires
            old(c).wf(),
            old(c).end == buf@.len(),
        ensures
            final(c).end == old(c).end,
            final(c).wf(),
            match r {
                Ok(slot) => old(c).pos + 8 <= old(c).end && slot_matches(
                    slot,
                    buf@,
                    old(c).pos as int,
                ) && final(c).pos == old(c).pos + 8,
                Err(e) => e == PeError::BufferTooSmall && old(c).pos + 8 > old(c).end && *final(c)
                    == *old(c),
            },
    {
        if c.end - c.pos < 8 {
            return Err(PeError::BufferTooSmall);
        }
        let virt_addr = match c.bind_u32() {
            Ok(v) => v,
            Err(e) => return Err(e),
        };
        let size = match c.bind_u32() {
            Ok(v) => v,
            Err(e) => return Err(e),
        };
        let va = virt_addr.get(buf);
        let sz = size.get(buf);
        if dir_slot_present(va, sz) {
            Ok(Some(DataDirectory { virt_addr, size }))
        } else {
            Ok(None)
        }
    }

    /// Bind the sixteen slots to the 128 leading unconsumed bytes.
    pub fn bind(c: &mut BindCursor, buf: &Vec<u8>) -> (r: Result<DataDirectories, PeError>)
        requires
            old(c).wf(),
            old(c).end == buf@.len(),
        ensures
            final(c).end == old(c).end,
            final(c).wf(),
            match r {
                Ok(d) => old(c).pos + DATA_DIRS_SIZE <= old(c).end && d.matches(
                    buf@,
                    old(c).pos as int,
                ) && d.is_at(old(c).pos as int) && final(c).pos == old(c).pos + DATA_DIRS_SIZE,
                Err(e) => e == PeError::BufferTooSmall && old(c).pos + DATA_DIRS_SIZE > old(c).end
                    && *final(c) == *old(c),
            },
    {
        if c.end - c.pos < DATA_DIRS_SIZE {
            return Err(PeError::BufferTooSmall);
        }
        let export = match Self::bind_slot(c, buf) {
            Ok(v) => v,
            Err(e) => return Err(e),
        };
        let import = match Self::bind_slot(c, buf) {
            Ok(v) => v,
            Err(e) => return Err(e),
        };
        let resource = match Self::bind_slot(c, buf) {
            Ok(v) => v,
            Err(e) => return Err(e),
        };
        let exception = match Self::bind_slot(c, buf) {
            Ok(v) => v,
            Err(e) => return Err(e),
        };
        let security = match Self::bind_slot(c, buf) {
            Ok(v) => v,
            Err(e) => return Err(e),
        };
        let base_reloc = match Self::bind_slot(c, buf) {
            Ok(v) => v,
            Err(e) => return Err(e),
        };
        let debug = match Self::bind_slot(c, buf) {
            Ok(v) => v,
            Err(e) => return Err(e),
        };
        let architecture = match Self::bind_slot(c, buf) {
            Ok(v) => v,
            Err(e) => return Err(e),
        };
        let global_ptr = match Self::bind_slot(c, buf) {
            Ok(v) => v,
            Err(e) => return Err(e),
        };
        let tls = match Self::bind_slot(c, buf) {
            Ok(v) => v,
            Err(e) => return Err(e),
        };
        let load_config = match Self::bind_slot(c, buf) {
            Ok(v) => v,
            Err(e) => return Err(e),
        };
        let bound_import = match Self::bind_slot(c, buf) {
            Ok(v) => v,
            Err(e) => return Err(e),
        };
        let iat = match Self::bind_slot(c, buf) {
            Ok(v) => v,
            Err(e) => return Err(e),
        };
        let delay_import = match Self::bind_slot(c, buf) {
            Ok(v) => v,
            Err(e) => return Err(e),
        };
        let com_descriptor = match Self::bind_slot(c, buf) {
            Ok(v) => v,
            Err(e) => return Err(e),
        };
        let reserved = match Self::bind_slot(c, buf) {
            Ok(v) => v,
            Err(e) => return Err(e),
        };
        Ok(
            DataDirectories {
                export,
                import,
                resource,
                exception,
                security,
                base_reloc,
                debug,
                architecture,
                global_ptr,
                tls,
                load_config,
                bound_import,
                iat,
                delay_import,
                com_descriptor,
                reserved,
            },
        )
    }
}

/// Views onto the 20-byte COFF file header.
#[derive(Clone, Copy, Debug, PartialEq, Eq, Structural)]
pub struct FileHeader {
    pub machine: U16View,
    pub num_of_secs: U16View,
    pub time_data_stamp: U32View,
    pub ptr_to_symbol_table: U32View,
    pub num_of_symbols: U32View,
    pub opt_hdr_size: U16View,
    pub file_characteristics: U16View,
}

/// The number of bytes the file header occupies on disk.
pub const FILE_HDR_SIZE: usize = 20;

impl FileHeader {
    /// Every field view sits at its declared offset from `base`.
    pub open spec fn is_at(&self, base: int) -> bool {
        &&& self.machine.offset == base
        &&& self.num_of_secs.offset == base + 2
        &&& self.time_data_stamp.offset == base + 4
        &&& self.ptr_to_symbol_table.offset == base + 8
        &&& self.num_of_symbols.offset == base + 12
        &&& self.opt_hdr_size.offset == base + 16
        &&& self.file_characteristics.offset == base + 18
    }

    /// Bind the file header to the 20 leading unconsumed bytes.
    pub fn bind(c: &mut BindCursor) -> (r: Result<FileHeader, PeError>)
        requires
            old(c).wf(),
        ensures
            final(c).end == old(c).end,
            final(c).wf(),
            match r {
                Ok(h) => old(c).pos + FILE_HDR_SIZE <= old(c).end && h.is_at(old(c).pos as int)
                    && final(c).pos == old(c).pos + FILE_HDR_SIZE,
                Err(e) => e == PeError::BufferTooSmall && old(c).pos + FILE_HDR_SIZE > old(c).end
                    && *final(c) == *old(c),
            },
    {
        if c.end - c.pos < FILE_HDR_SIZE {
            return Err(PeError::BufferTooSmall);
        }
        let machine = match c.bind_u16() {
            Ok(v) => v,
            Err(e) => return Err(e),
        };
        let num_of_secs = match c.bind_u16() {
            Ok(v) => v,
            Err(e) => return Err(e),
        };
        let time_data_stamp = match c.bind_u32() {
            Ok(v) => v,
            Err(e) => return Err(e),
        };
        let ptr_to_symbol_table = match c.bind_u32() {
            Ok(v) => v,
            Err(e) => return Err(e),
        };
        let num_of_symbols = match c.bind_u32() {
            Ok(v) => v,
            Err(e) => return Err(e),
        };
        let opt_hdr_size = match c.bind_u16() {
            Ok(v) => v,
            Err(e) => return Err(e),
        };
        let file_characteristics = match c.bind_u16() {
            Ok(v) => v,
            Err(e) => return Err(e),
        };
        Ok(
            FileHeader {
                machine,
                num_of_secs,
                time_data_stamp,
                ptr_to_symbol_table,
                num_of_symbols,
                opt_hdr_size,
                file_characteristics,
            },
        )
    }
}

/// Views onto the optional header's fixed scalar fields, followed by the
/// sixteen data-directory slots.
#[derive(Clone, Copy, Debug, PartialEq, Eq, Structural)]
pub struct OptHeader {
    pub magic: U16View,
    pub major_linker_ver: ByteView,
    pub minor_linker_ver: ByteView,
    pub size_of_code: U32View,
    pub size_of_init_data: U32View,
    pub size_of_uninit_data: U32View,
    pub addr_of_entrypoint: U32View,
    pub base_of_code: U32View,
    pub image_base: U64View,
    pub sec_alignment: U32View,
    pub file_alignment: U32View,
    pub major_os_ver: U16View,
    pub minor_os_ver: U16View,
    pub major_image_ver: U16View,
    pub minor_image_ver: U16View,
    pub major_subsystem_ver: U16View,
    pub minor_subsystem_ver: U16View,
    pub win32_ver_val: U32View,
    pub size_of_image: U32View,
    pub size_of_hdrs: U32View,
    pub checksum: U32View,
    pub subsystem: U16View,
    pub dll_characteristics: U16View,
    pub size_of_stack_reservee: U64View,
    pub size_of_stack_commit: U64View,
    pub size_of_heap_reserve: U64View,
    pub size_of_heap_commit: U64View,
    pub loader_flags: U32View,
    pub num_of_rva_and_sizes: U32View,
    pub data_dirs: DataDirectories,
}

/// The number of bytes the optional header occupies on disk, directory
/// slots included.
pub const OPT_HDR_SIZE: usize = 240;

impl OptHeader {
    /// Every field view sits at its declared offset from `base`.
    pub open spec fn is_at(&self, base: int) -> bool {
        &&& self.magic.offset == base
        &&& self.major_linker_ver.offset == base + 2
        &&& self.minor_linker_ver.offset == base + 3
        &&& self.size_of_code.offset == base + 4
        &&& self.size_of_init_data.offset == base + 8
        &&& self.size_of_uninit_data.offset == base + 12
        &&& self.addr_of_entrypoint.offset == base + 16
        &&& self.base_of_code.offset == base + 20
        &&& self.image_base.offset == base + 24
        &&& self.sec_alignment.offset == base + 32
        &&& self.file_alignment.offset == base + 36
        &&& self.major_os_ver.offset == base + 40
        &&& self.minor_os_ver.offset == base + 42
        &&& self.major_image_ver.offset == base + 44
        &&& self.minor_image_ver.offset == base + 46
        &&& self.major_subsystem_ver.offset == base + 48
        &&& self.minor_subsystem_ver.offset == base + 50
        &&& self.win32_ver_val.offset == base + 52
        &&& self.size_of_image.offset == base + 56
        &&& self.size_of_hdrs.offset == base + 60
        &&& self.checksum.offset == base + 64
        &&& self.subsystem.offset == base + 68
        &&& self.dll_characteristics.offset == base + 70
        &&& self.size_of_stack_reservee.offset == base + 72
        &&& self.size_of_stack_commit.offset == base + 80
        &&& self.size_of_heap_reserve.offset == base + 88
        &&& self.size_of_heap_commit.offset == base + 96
        &&& self.loader_flags.offset == base + 104
        &&& self.num_of_rva_and_sizes.offset == base + 108
        &&& self.data_dirs.is_at(base + 112)
    }

    /// Bind the optional header to the 240 leading unconsumed bytes.
    pub fn bind(c: &mut BindCursor, buf: &Vec<u8>) -> (r: Result<OptHeader, PeError>)
        requires
            old(c).wf(),
            old(c).end == buf@.len(),
        ensures
            final(c).end == old(c).end,
            final(c).wf(),
            match r {
                Ok(h) => old(c).pos + OPT_HDR_SIZE <= old(c).end && h.is_at(old(c).pos as int)
                    && h.data_dirs.matches(buf@, old(c).pos + 112) && final(c).pos == old(c).pos
                    + OPT_HDR_SIZE,
                Err(e) => e == PeError::BufferTooSmall && old(c).pos + OPT_HDR_SIZE > old(c).end
                    && *final(c) == *old(c),
            },
    {
        if c.end - c.pos < OPT_HDR_SIZE {
            return Err(PeError::BufferTooSmall);
        }
        let magic = match c.bind_u16() {
            Ok(v) => v,
            Err(e) => return Err(e),
        };
        let major_linker_ver = match c.bind_u8() {
            Ok(v) => v,
            Err(e) => return Err(e),
        };
        let minor_linker_ver = match c.bind_u8() {
            Ok(v) => v,
            Err(e) => return Err(e),
        };
        let size_of_code = match c.bind_u32() {
            Ok(v) => v,
            Err(e) => return Err(e),
        };
        let size_of_init_data = match c.bind_u32() {
            Ok(v) => v,
            Err(e) => return Err(e),
        };
        let size_of_uninit_data = match c.bind_u32() {
            Ok(v) => v,
            Err(e) => return Err(e),
        };
        let addr_of_entrypoint = match c.bind_u32() {
            Ok(v) => v,
            Err(e) => return Err(e),
        };
        let base_of_code = match c.bind_u32() {
            Ok(v) => v,
            Err(e) => return Err(e),
        };
        let image_base = match c.bind_u64() {
            Ok(v) => v,
            Err(e) => return Err(e),
        };
        let sec_alignment = match c.bind_u32() {
            Ok(v) => v,
            Err(e) => return Err(e),
        };
        let file_alignment = match c.bind_u32() {
            Ok(v) => v,
            Err(e) => return Err(e),
        };
        let major_os_ver = match c.bind_u16() {
            Ok(v) => v,
            Err(e) => return Err(e),
        };
        let minor_os_ver = match c.bind_u16() {
            Ok(v) => v,
            Err(e) => return Err(e),
        };
        let major_image_ver = match c.bind_u16() {
            Ok(v) => v,
            Err(e) => return Err(e),
        };
        let minor_image_ver = match c.bind_u16() {
            Ok(v) => v,
            Err(e) => return Err(e),
        };
        let major_subsystem_ver = match c.bind_u16() {
            Ok(v) => v,
            Err(e) => return Err(e),
        };
        let minor_subsystem_ver = match c.bind_u16() {
            Ok(v) => v,
            Err(e) => return Err(e),
        };
        let win32_ver_val = match c.bind_u32() {
            Ok(v) => v,
            Err(e) => return Err(e),
        };
        let size_of_image = match c.bind_u32() {
            Ok(v) => v,
            Err(e) => return Err(e),
        };
        let size_of_hdrs = match c.bind_u32() {
            Ok(v) => v,
            Err(e) => return Err(e),
        };
        let checksum = match c.bind_u32() {
            Ok(v) => v,
            Err(e) => return Err(e),
        };
        let subsystem = match c.bind_u16() {
            Ok(v) => v,
            Err(e) => return Err(e),
        };
        let dll_characteristics = match c.bind_u16() {
            Ok(v) => v,
            Err(e) => return Err(e),
        };
        let size_of_stack_reservee = match c.bind_u64() {
            Ok(v) => v,
            Err(e) => return Err(e),
        };
        let size_of_stack_commit = match c.bind_u64() {
            Ok(v) => v,
            Err(e) => return Err(e),
        };
        let size_of_heap_reserve = match c.bind_u64() {
            Ok(v) => v,
            Err(e) => return Err(e),
        };
        let size_of_heap_commit = match c.bind_u64() {
            Ok(v) => v,
            Err(e) => return Err(e),
        };
        let loader_flags = match c.bind_u32() {
            Ok(v) => v,
            Err(e) => return Err(e),
        };
        let num_of_rva_and_sizes = match c.bind_u32() {
            Ok(v) => v,
            Err(e) => return Err(e),
        };
        let data_dirs = match DataDirectories::bind(c, buf) {
            Ok(v) => v,
            Err(e) => return Err(e),
        };
        Ok(
            OptHeader {
                magic,
                major_linker_ver,
                minor_linker_ver,
                size_of_code,
                size_of_init_data,
                size_of_uninit_data,
                addr_of_entrypoint,
                base_of_code,
                image_base,
                sec_alignment,
                file_alignment,
                major_os_ver,
                minor_os_ver,
                major_image_ver,
                minor_image_ver,
                major_subsystem_ver,
                minor_subsystem_ver,
                win32_ver_val,
                size_of_image,
                size_of_hdrs,
                checksum,
                subsystem,
                dll_characteristics,
                size_of_stack_reservee,
                size_of_stack_commit,
                size_of_heap_reserve,
                size_of_heap_commit,
                loader_flags,
                num_of_rva_and_sizes,
                data_dirs,
            },
        )
    }
}

/// Views onto the whole NT header: signature, file header, optional header.
#[derive(Clone, Copy, Debug, PartialEq, Eq, Structural)]
pub struct NtHeader {
    pub sig: U32View,
    pub file_hdr: FileHeader,
    pub opt_hdr: OptHeader,
}

/// The number of bytes the NT header occupies on disk.
pub const NT_HDR_SIZE: usize = 264;

impl NtHeader {
    /// The buffer offset of the header's first byte.
    pub open spec fn base(&self) -> int {
        self.sig.offset as int
    }

    /// Every part sits at its declared offset from `base`.
    pub open spec fn is_at(&self, base: int) -> bool {
        &&& self.sig.offset == base
        &&& self.file_hdr.is_at(base + 4)
        &&& self.opt_hdr.is_at(base + 24)
    }

    /// The header is laid out contiguously and lies within a buffer of
    /// `blen` bytes.
    pub open spec fn wf(&self, blen: nat) -> bool {
        self.is_at(self.base()) && self.base() + NT_HDR_SIZE <= blen
    }

    /// Bind the NT header to the 264 leading unconsumed bytes.
    pub fn bind(c: &mut BindCursor, buf: &Vec<u8>) -> (r: Result<NtHeader, PeError>)
        requires
            old(c).wf(),
            old(c).end == buf@.len(),
        ensures
            final(c).end == old(c).end,
            final(c).wf(),
            match r {
                Ok(h) => old(c).pos + NT_HDR_SIZE <= old(c).end && h.is_at(old(c).pos as int)
                    && h.opt_hdr.data_dirs.matches(buf@, old(c).pos + 136) && final(c).pos == old(
                    c,
                ).pos + NT_HDR_SIZE,
                Err(e) => e == PeError::BufferTooSmall && old(c).pos + NT_HDR_SIZE > old(c).end
                    && *final(c) == *old(c),
            },
    {
        if c.end - c.pos < NT_HDR_SIZE {
            return Err(PeError::BufferTooSmall);
        }
        let sig = match c.bind_u32() {
            Ok(v) => v,
            Err(e) => return Err(e),
        };
        let file_hdr = match FileHeader::bind(c) {
            Ok(v) => v,
            Err(e) => return Err(e),
        };
        let opt_hdr = match OptHeader::bind(c, buf) {
            Ok(v) => v,
            Err(e) => return Err(e),
        };
        Ok(NtHeader { sig, file_hdr, opt_hdr })
    }
}

} // verus!
