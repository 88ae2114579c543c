use pe_view::err::PeError;
use pe_view::nt_hdr::dir_slot_present;
use pe_view::pe::PeHeader;
use pe_view::relocs::RelocationType;

fn put_u16(b: &mut Vec<u8>, off: usize, v: u16) {
    b[off] = v as u8;
    b[off + 1] = (v >> 8) as u8;
}

fn put_u32(b: &mut Vec<u8>, off: usize, v: u32) {
    b[off] = v as u8;
    b[off + 1] = (v >> 8) as u8;
    b[off + 2] = (v >> 16) as u8;
    b[off + 3] = (v >> 24) as u8;
}

fn put_u64(b: &mut Vec<u8>, off: usize, v: u64) {
    put_u32(b, off, v as u32);
    put_u32(b, off + 4, (v >> 32) as u32);
}

/// A minimal in-memory PE32+ image: DOS header chaining to the NT header at
/// 0x40, two sections at virtual addresses 0x1000 and 0x2000 with raw data
/// windows at 0x200 and 0x300, entry point 0x1500, and no data directories.
fn read_test_pe() -> Vec<u8> {
    let mut b: Vec<u8> = vec![0; 0x400];
    put_u16(&mut b, 0x00, 0x5A4D); // "MZ"
    put_u32(&mut b, 0x3C, 0x40); // addr_of_new_exe_hdr
    put_u32(&mut b, 0x40, 0x0000_4550); // "PE\0\0"
    put_u16(&mut b, 0x44, 0x8664); // machine
    put_u16(&mut b, 0x46, 2); // num_of_secs
    put_u16(&mut b, 0x54, 240); // opt_hdr_size
    put_u16(&mut b, 0x58, 0x20B); // PE32+ magic
    put_u32(&mut b, 0x68, 0x1500); // addr_of_entrypoint
    put_u64(&mut b, 0x70, 0x40_0000); // image_base
    // section 0 at 0x148: va 0x1000, vsize 0x1000, raw 0x100 @ 0x200
    put_u32(&mut b, 0x148 + 8, 0x1000);
    put_u32(&mut b, 0x148 + 12, 0x1000);
    put_u32(&mut b, 0x148 + 16, 0x100);
    put_u32(&mut b, 0x148 + 20, 0x200);
    // section 1 at 0x170: va 0x2000, vsize 0x1000, raw 0x100 @ 0x300
    put_u32(&mut b, 0x170 + 8, 0x1000);
    put_u32(&mut b, 0x170 + 12, 0x2000);
    put_u32(&mut b, 0x170 + 16, 0x100);
    put_u32(&mut b, 0x170 + 20, 0x300);
    b
}

#[test]
fn virt_addr_to_sec_index() {
    let mut pe_hdr = PeHeader::new(read_test_pe()).unwrap();

    let v = pe_hdr.sec_hdrs[0].virt_addr;
    v.set(&mut pe_hdr.buf, 0x1000);
    let v = pe_hdr.sec_hdrs[0].virt_size;
    v.set(&mut pe_hdr.buf, 0x1000);

    let v = pe_hdr.sec_hdrs[1].virt_addr;
    v.set(&mut pe_hdr.buf, 0x2000);
    let v = pe_hdr.sec_hdrs[1].virt_size;
    v.set(&mut pe_hdr.buf, 0x1000);

    assert_eq!(pe_hdr.virt_addr_to_sec_index(0x0).ok(), None);
    assert_eq!(pe_hdr.virt_addr_to_sec_index(0x1000).ok(), Some(0));
    assert_eq!(pe_hdr.virt_addr_to_sec_index(0x1500).ok(), Some(0));
    assert_eq!(pe_hdr.virt_addr_to_sec_index(0x2000).ok(), Some(1));
}

#[test]
fn entry_sec_index() {
    let mut pe_hdr = PeHeader::new(read_test_pe()).unwrap();

    let new_entry_va = pe_hdr.sec_hdrs[0].virt_addr.get(&pe_hdr.buf);
    let v = pe_hdr.nt_hdr.opt_hdr.addr_of_entrypoint;
    v.set(&mut pe_hdr.buf, new_entry_va);

    assert_eq!(pe_hdr.entry_sec_index().ok(), Some(0));
}

#[test]
fn entry_rel_sec_offset() {
    let mut pe_hdr = PeHeader::new(read_test_pe()).unwrap();

    let va0 = pe_hdr.sec_hdrs[0].virt_addr.get(&pe_hdr.buf);
    let v = pe_hdr.nt_hdr.opt_hdr.addr_of_entrypoint;
    v.set(&mut pe_hdr.buf, va0 + 0x100);
    assert_eq!(pe_hdr.entry_rel_sec_offset().ok(), Some(0x100));

    let v = pe_hdr.nt_hdr.opt_hdr.addr_of_entrypoint;
    v.set(&mut pe_hdr.buf, 0);
    assert_eq!(pe_hdr.entry_rel_sec_offset().ok(), None);
}

#[test]
fn entry_sec_ref() {
    let mut pe_hdr = PeHeader::new(read_test_pe()).unwrap();

    let v = pe_hdr.nt_hdr.opt_hdr.addr_of_entrypoint;
    v.set(&mut pe_hdr.buf, 0x1500);

    let v = pe_hdr.sec_hdrs[0].virt_addr;
    v.set(&mut pe_hdr.buf, 0x1000);
    let v = pe_hdr.sec_hdrs[0].virt_size;
    v.set(&mut pe_hdr.buf, 0x1000);

    assert_eq!(*pe_hdr.entry_sec_ref().unwrap(), pe_hdr.sec_hdrs[0]);
}

#[test]
pub fn entry_sec_virt_ip() {
    let mut pe_hdr = PeHeader::new(read_test_pe()).unwrap();

    let v = pe_hdr.nt_hdr.opt_hdr.addr_of_entrypoint;
    v.set(&mut pe_hdr.buf, 0x1000);

    let v = pe_hdr.sec_hdrs[0].virt_addr;
    v.set(&mut pe_hdr.buf, 0x1000);
    let v = pe_hdr.nt_hdr.opt_hdr.image_base;
    v.set(&mut pe_hdr.buf, 0x500000);

    assert_eq!(pe_hdr.entry_sec_virt_ip().unwrap(), 0x501000);
}

#[test]
pub fn entry_disk_offset() {
    let mut pe_hdr = PeHeader::new(read_test_pe()).unwrap();

    let v = pe_hdr.nt_hdr.opt_hdr.addr_of_entrypoint;
    v.set(&mut pe_hdr.buf, 0x1500);

    let v = pe_hdr.sec_hdrs[0].virt_addr;
    v.set(&mut pe_hdr.buf, 0x1000);
    let v = pe_hdr.sec_hdrs[0].virt_size;
    v.set(&mut pe_hdr.buf, 0x1000);
    let v = pe_hdr.sec_hdrs[0].ptr_to_raw_data;
    v.set(&mut pe_hdr.buf, 0x400);

    assert_eq!(pe_hdr.entry_disk_offset().unwrap(), 0x900);
}

#[test]
pub fn entry_sec_virt_size() {
    let mut pe_hdr = PeHeader::new(read_test_pe()).unwrap();

    let v = pe_hdr.nt_hdr.opt_hdr.addr_of_entrypoint;
    v.set(&mut pe_hdr.buf, 0x1500);

    let v = pe_hdr.sec_hdrs[0].virt_addr;
    v.set(&mut pe_hdr.buf, 0x1000);
    let v = pe_hdr.sec_hdrs[0].size_of_raw_data;
    v.set(&mut pe_hdr.buf, 0x442);
    assert_eq!(pe_hdr.entry_sec_virt_size().unwrap(), 0x1000);

    let v = pe_hdr.sec_hdrs[0].size_of_raw_data;
    v.set(&mut pe_hdr.buf, 0x0);
    assert_eq!(pe_hdr.entry_sec_virt_size().unwrap(), 0x1000);

    let v = pe_hdr.sec_hdrs[0].size_of_raw_data;
    v.set(&mut pe_hdr.buf, 0x1001);
    assert_eq!(pe_hdr.entry_sec_virt_size().unwrap(), 0x2000);
}

#[test]
fn sec_virt_size_rounding() {
    assert_eq!(PeHeader::sec_virt_size(0x442), 0x1000);
    assert_eq!(PeHeader::sec_virt_size(0), 0x1000);
    assert_eq!(PeHeader::sec_virt_size(0x1001), 0x2000);
    assert_eq!(PeHeader::sec_virt_size(0x1000), 0x2000);
}

#[test]
fn va_zero_is_not_found_when_headers_own_it() {
    let pe_hdr = PeHeader::new(read_test_pe()).unwrap();
    assert_eq!(pe_hdr.virt_addr_to_sec_index(0x0), Err(PeError::SectionNotFound));
}

#[test]
fn entry_point_chain() {
    let mut pe_hdr = PeHeader::new(read_test_pe()).unwrap();
    // sections [va=0x1000, size=0x1000] and [va=0x2000, size=0x1000],
    // entry point 0x1500, raw data pointer 0x400
    let v = pe_hdr.sec_hdrs[0].ptr_to_raw_data;
    v.set(&mut pe_hdr.buf, 0x400);
    assert_eq!(pe_hdr.entry_sec_index().unwrap(), 0);
    assert_eq!(pe_hdr.entry_rel_sec_offset().unwrap(), 0x500);
    assert_eq!(pe_hdr.entry_disk_offset().unwrap(), 0x900);
}

#[test]
fn rva_to_file_offset_first_match() {
    let pe_hdr = PeHeader::new(read_test_pe()).unwrap();
    assert_eq!(
        PeHeader::rva_to_file_offset(&pe_hdr.buf, &pe_hdr.sec_hdrs, 0x1000),
        Ok(0x200)
    );
    assert_eq!(
        PeHeader::rva_to_file_offset(&pe_hdr.buf, &pe_hdr.sec_hdrs, 0x1080),
        Ok(0x280)
    );
    assert_eq!(
        PeHeader::rva_to_file_offset(&pe_hdr.buf, &pe_hdr.sec_hdrs, 0x2010),
        Ok(0x310)
    );
    assert_eq!(
        PeHeader::rva_to_file_offset(&pe_hdr.buf, &pe_hdr.sec_hdrs, 0x9000),
        Err(PeError::SectionNotFound)
    );
}

#[test]
fn decode_rejects_short_buffer() {
    assert_eq!(PeHeader::new(vec![0; 0x20]).err(), Some(PeError::BufferTooSmall));
}

#[test]
fn decode_rejects_bad_nt_offset() {
    let mut b = read_test_pe();
    put_u32(&mut b, 0x3C, 0x10); // inside the DOS header
    assert_eq!(PeHeader::new(b).err(), Some(PeError::MalformedHeader));

    let mut b = read_test_pe();
    put_u32(&mut b, 0x3C, 0x10000); // past the buffer
    assert_eq!(PeHeader::new(b).err(), Some(PeError::MalformedHeader));

    let mut b = read_test_pe();
    put_u32(&mut b, 0x3C, 0x400); // exactly at the end: no byte left to bind
    assert_eq!(PeHeader::new(b).err(), Some(PeError::MalformedHeader));
}

#[test]
fn decode_rejects_truncated_nt_header() {
    let mut b: Vec<u8> = vec![0; 0x60];
    put_u32(&mut b, 0x3C, 0x40);
    assert_eq!(PeHeader::new(b).err(), Some(PeError::BufferTooSmall));
}

#[test]
fn decode_rejects_overlapping_section_data() {
    let mut b = read_test_pe();
    put_u32(&mut b, 0x170 + 20, 0x280); // second window starts inside the first
    assert_eq!(PeHeader::new(b).err(), Some(PeError::MalformedHeader));
}

#[test]
fn decode_rejects_section_data_past_end() {
    let mut b = read_test_pe();
    put_u32(&mut b, 0x170 + 16, 0x200); // 0x300 + 0x200 runs past 0x400
    assert_eq!(PeHeader::new(b).err(), Some(PeError::BufferTooSmall));
}

#[test]
fn section_windows_in_file_offset_order() {
    let pe_hdr = PeHeader::new(read_test_pe()).unwrap();
    assert_eq!(pe_hdr.secs.len(), 2);
    assert_eq!(pe_hdr.secs[0].offset, 0x200);
    assert_eq!(pe_hdr.secs[0].len, 0x100);
    assert_eq!(pe_hdr.secs[1].offset, 0x300);
    assert_eq!(pe_hdr.secs[1].len, 0x100);
}

#[test]
fn dir_presence_rule() {
    assert_eq!(dir_slot_present(0, 0), false);
    assert_eq!(dir_slot_present(1, 0), true);
    assert_eq!(dir_slot_present(0, 1), true);

    let pe_hdr = PeHeader::new(read_test_pe()).unwrap();
    assert!(pe_hdr.nt_hdr.opt_hdr.data_dirs.base_reloc.is_none());
    assert!(pe_hdr.nt_hdr.opt_hdr.data_dirs.import.is_none());
    assert!(pe_hdr.relocs.is_none());
}

#[test]
fn decode_relocation_directory() {
    let mut b = read_test_pe();
    // base_reloc slot: RVA 0x1000 (translates to file offset 0x200), 16 bytes
    put_u32(&mut b, 0xF0, 0x1000);
    put_u32(&mut b, 0xF4, 0x10);
    // one block with two entries, then the zero sentinel
    let block: [u8; 12] = [0, 0x10, 0, 0, 0x0C, 0, 0, 0, 0x17, 0x30, 0x1F, 0x30];
    for (k, byte) in block.iter().enumerate() {
        b[0x200 + k] = *byte;
    }
    let pe_hdr = PeHeader::new(b).unwrap();
    assert!(pe_hdr.nt_hdr.opt_hdr.data_dirs.base_reloc.is_some());
    let relocs = pe_hdr.relocs.as_ref().unwrap();
    assert_eq!(relocs.len(), 1);
    assert_eq!(relocs[0].virt_addr, 0x1000);
    assert_eq!(relocs[0].size_of_block, 0x0C);
    assert_eq!(relocs[0].block.len(), 2);
    assert_eq!(relocs[0].block[0].reloc_type, RelocationType::ImageRelBasedHighLow);
    assert_eq!(relocs[0].block[0].reloc_offset, 0x17);
    assert_eq!(relocs[0].block[1].reloc_offset, 0x1F);
}

#[test]
fn reloc_directory_with_untranslatable_rva_fails() {
    let mut b = read_test_pe();
    put_u32(&mut b, 0xF0, 0x9000); // no section contains this RVA
    put_u32(&mut b, 0xF4, 0x10);
    assert_eq!(PeHeader::new(b).err(), Some(PeError::SectionNotFound));
}

#[test]
fn dir_present_when_only_size_is_nonzero() {
    let mut b = read_test_pe();
    // export slot at 0xC8: RVA zero but a nonzero size still means present
    put_u32(&mut b, 0xC8 + 4, 5);
    let pe_hdr = PeHeader::new(b).unwrap();
    assert!(pe_hdr.nt_hdr.opt_hdr.data_dirs.export.is_some());
}

#[test]
fn overlapping_virtual_ranges_first_declared_wins() {
    let mut pe_hdr = PeHeader::new(read_test_pe()).unwrap();
    // widen section 0 so both sections claim RVA 0x2000
    let v = pe_hdr.sec_hdrs[0].virt_size;
    v.set(&mut pe_hdr.buf, 0x2000);
    assert_eq!(
        PeHeader::rva_to_file_offset(&pe_hdr.buf, &pe_hdr.sec_hdrs, 0x2000),
        Ok(0x1200)
    );
}

#[test]
fn index_lookup_uses_virtual_size_not_raw_size() {
    let mut pe_hdr = PeHeader::new(read_test_pe()).unwrap();

    // a section whose virtual range is far larger than its raw data
    let v = pe_hdr.sec_hdrs[0].virt_size;
    v.set(&mut pe_hdr.buf, 0x3000);
    let v = pe_hdr.sec_hdrs[0].size_of_raw_data;
    v.set(&mut pe_hdr.buf, 0);
    // 0x3800 lies in [0x1000, 0x4000) of section 0 and in no other section
    assert_eq!(pe_hdr.virt_addr_to_sec_index(0x3800).ok(), Some(0));

    // and one whose virtual range is far smaller than its raw data
    let v = pe_hdr.sec_hdrs[0].virt_size;
    v.set(&mut pe_hdr.buf, 0x100);
    let v = pe_hdr.sec_hdrs[0].size_of_raw_data;
    v.set(&mut pe_hdr.buf, 0x5000);
    // 0x1500 is past [0x1000, 0x1100), whatever the raw size rounds to
    assert_eq!(pe_hdr.virt_addr_to_sec_index(0x1500), Err(PeError::SectionNotFound));
}
