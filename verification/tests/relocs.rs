use pe_view::err::PeError;
use pe_view::relocs::{
    Relocation, RelocationType, Relocations, RelocationsIter, RelocTypeOffset,
};
use pe_view::util::{IterWriteBack, RWCursor};

const RELOC_TESTDATA: [u8; 28] = [
    0, 0x10, 0, 0, 0x0C, 0, 0, 0, 0x17, 0x30, 0x1F, 0x30, 0, 0x10, 0, 0, 0x0C, 0, 0, 0, 0x17,
    0x30, 0x1F, 0x30, 0, 0, 0, 0,
];

fn collect_relocs(buf: &Vec<u8>) -> Vec<Relocation> {
    let mut it = RelocationsIter::new(buf);
    let mut relocs: Vec<Relocation> = Vec::new();
    loop {
        match it.next(buf) {
            Ok(Some(r)) => relocs.push(r),
            Ok(None) => break,
            Err(e) => panic!("unexpected decode failure: {:?}", e),
        }
    }
    relocs
}

#[test]
fn relocations_iter() {
    let data: Vec<u8> = RELOC_TESTDATA.to_vec();
    let relocs = collect_relocs(&data);

    assert_eq!(relocs[0].virt_addr, 0x1000);
    assert_eq!(relocs[0].size_of_block, 0x0C);
    assert_eq!(relocs[0].block[0].to_u16le(), 0x3017);
    assert_eq!(relocs[0].block[1].to_u16le(), 0x301F);

    assert_eq!(relocs[1].virt_addr, 0x1000);
    assert_eq!(relocs[1].size_of_block, 0x0C);
    assert_eq!(relocs[1].block[0].to_u16le(), 0x3017);
    assert_eq!(relocs[1].block[1].to_u16le(), 0x301F);

    assert_eq!(relocs[0].block[0].reloc_type, RelocationType::ImageRelBasedHighLow);
    assert_eq!(relocs[0].block[1].reloc_type, RelocationType::ImageRelBasedHighLow);

    assert_eq!(relocs[1].block[0].reloc_type, RelocationType::ImageRelBasedHighLow);
    assert_eq!(relocs[1].block[1].reloc_type, RelocationType::ImageRelBasedHighLow);

    assert_eq!(relocs[0].block[0].reloc_offset, 0x17);
    assert_eq!(relocs[0].block[1].reloc_offset, 0x1F);

    assert_eq!(relocs[1].block[0].reloc_offset, 0x17);
    assert_eq!(relocs[1].block[1].reloc_offset, 0x1F);
}

#[test]
fn relocations_writeback() {
    let data: Vec<u8> = RELOC_TESTDATA.to_vec();
    let relocs = collect_relocs(&data);
    let mut write_buf: Vec<u8> = vec![0; RELOC_TESTDATA.len()];
    let mut cur = RWCursor::new(&write_buf);
    Relocations::write_all(&mut cur, &mut write_buf, &relocs);
    assert_eq!(RELOC_TESTDATA.to_vec(), write_buf);
}

#[test]
fn single_block_round_trip() {
    let data: Vec<u8> = vec![0, 0x10, 0, 0, 0x0C, 0, 0, 0, 0x17, 0x30, 0x1F, 0x30];
    let mut it = RelocationsIter::new(&data);
    let block = it.next(&data).unwrap().unwrap();
    assert_eq!(block.virt_addr, 0x1000);
    assert_eq!(block.size_of_block, 0x0C);
    assert_eq!(block.block.len(), 2);
    assert_eq!(block.block[0].reloc_type, RelocationType::ImageRelBasedHighLow);
    assert_eq!(block.block[0].reloc_offset, 0x17);
    assert_eq!(block.block[1].reloc_type, RelocationType::ImageRelBasedHighLow);
    assert_eq!(block.block[1].reloc_offset, 0x1F);

    let mut write_buf: Vec<u8> = vec![0; 12];
    let mut cur = RWCursor::new(&write_buf);
    Relocations::write_single(&mut cur, &mut write_buf, &block);
    assert_eq!(data, write_buf);

    // the region holds no sentinel, so the bounded scan stops with an error
    assert_eq!(it.next(&data).err(), Some(PeError::BufferTooSmall));
}

#[test]
fn relocation_type_codes() {
    assert_eq!(RelocationType::new(0), Ok(RelocationType::ImageRelBasedAbsolute));
    assert_eq!(RelocationType::new(1), Ok(RelocationType::ImageRelBasedHigh));
    assert_eq!(RelocationType::new(2), Ok(RelocationType::ImageRelBasedLow));
    assert_eq!(RelocationType::new(3), Ok(RelocationType::ImageRelBasedHighLow));
    assert_eq!(RelocationType::new(4), Ok(RelocationType::ImageRelBasedHighAdj));
    assert_eq!(RelocationType::new(5), Ok(RelocationType::ImageRelBasedMipsJmpAddr));
    assert_eq!(RelocationType::new(6), Err(PeError::UnsupportedRelocationType));
    assert_eq!(RelocationType::new(0xF), Err(PeError::UnsupportedRelocationType));
}

#[test]
fn entry_pack_unpack() {
    let e = RelocTypeOffset::new(0x3017).unwrap();
    assert_eq!(e.reloc_type, RelocationType::ImageRelBasedHighLow);
    assert_eq!(e.reloc_offset, 0x17);
    assert_eq!(e.to_u16le(), 0x3017);
    assert_eq!(RelocTypeOffset::new(0x6017), Err(PeError::UnsupportedRelocationType));
}

#[test]
fn unsupported_type_in_block() {
    // one entry whose type nibble is 6
    let data: Vec<u8> = vec![0, 0x10, 0, 0, 0x0A, 0, 0, 0, 0x17, 0x60];
    let mut it = RelocationsIter::new(&data);
    assert_eq!(it.next(&data).err(), Some(PeError::UnsupportedRelocationType));
}

#[test]
fn undersized_block_is_malformed() {
    // size_of_block below the 8-byte block header
    let data: Vec<u8> = vec![1, 0, 0, 0, 5, 0, 0, 0];
    let mut it = RelocationsIter::new(&data);
    assert_eq!(it.next(&data).err(), Some(PeError::MalformedHeader));
}

#[test]
fn truncated_block_is_too_small() {
    let data: Vec<u8> = vec![0, 0x10, 0, 0];
    let mut it = RelocationsIter::new(&data);
    assert_eq!(it.next(&data).err(), Some(PeError::BufferTooSmall));
}
