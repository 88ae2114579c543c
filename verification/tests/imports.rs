use pe_view::err::PeError;
use pe_view::imports::{ImportDescriptor, ImportDescriptorIter, ImportDescriptors};
use pe_view::util::{IterWriteBack, RWCursor};

const IMPORT_DESC_TESTDATA: [u8; 44] = [
    0x40, 0x31, 0x00, 0x00, 0x00, 0x00, 0x00, 0x00, 0x00, 0x00, 0x00, 0x00, 0x6E, 0x31, 0x00,
    0x00, 0x00, 0x30, 0x00, 0x00, 0x50, 0x31, 0x00, 0x00, 0x00, 0x00, 0x00, 0x00, 0x00, 0x00,
    0x00, 0x00, 0x8A, 0x31, 0x00, 0x00, 0x10, 0x30, 0x00, 0x00, 0x00, 0x00, 0x00, 0x00,
];

fn collect_descs(buf: &Vec<u8>) -> Vec<ImportDescriptor> {
    let mut it = ImportDescriptorIter::new(buf);
    let mut descs: Vec<ImportDescriptor> = Vec::new();
    loop {
        match it.next(buf) {
            Ok(Some(d)) => descs.push(d),
            Ok(None) => break,
            Err(e) => panic!("unexpected decode failure: {:?}", e),
        }
    }
    descs
}

#[test]
fn import_descriptor_iter() {
    let data: Vec<u8> = IMPORT_DESC_TESTDATA.to_vec();
    let import_descs = collect_descs(&data);

    assert_eq!(import_descs[0].original_first_thunk, 0x3140);
    assert_eq!(import_descs[0].time_data_stamp, 0);
    assert_eq!(import_descs[0].forwarder_chain, 0);
    assert_eq!(import_descs[0].name, 0x316E);
    assert_eq!(import_descs[0].first_thunk, 0x3000);

    assert_eq!(import_descs[1].original_first_thunk, 0x3150);
    assert_eq!(import_descs[1].time_data_stamp, 0);
    assert_eq!(import_descs[1].forwarder_chain, 0);
    assert_eq!(import_descs[1].name, 0x318A);
    assert_eq!(import_descs[1].first_thunk, 0x3010);
}

#[test]
fn import_descriptor_writeback() {
    let data: Vec<u8> = IMPORT_DESC_TESTDATA.to_vec();
    let import_descriptors = collect_descs(&data);
    let mut write_buf: Vec<u8> = vec![0; IMPORT_DESC_TESTDATA.len()];
    let mut cur = RWCursor::new(&write_buf);
    ImportDescriptors::write_all(&mut cur, &mut write_buf, &import_descriptors);
    assert_eq!(IMPORT_DESC_TESTDATA.to_vec(), write_buf);
}

#[test]
fn single_descriptor_round_trip() {
    let data: Vec<u8> = vec![
        0x40, 0x31, 0x00, 0x00, 0x00, 0x00, 0x00, 0x00, 0x00, 0x00, 0x00, 0x00, 0x6E, 0x31,
        0x00, 0x00, 0x00, 0x30, 0x00, 0x00,
    ];
    let mut it = ImportDescriptorIter::new(&data);
    let d = it.next(&data).unwrap().unwrap();
    assert_eq!(d.original_first_thunk, 0x3140);
    assert_eq!(d.time_data_stamp, 0);
    assert_eq!(d.forwarder_chain, 0);
    assert_eq!(d.name, 0x316E);
    assert_eq!(d.first_thunk, 0x3000);

    let mut write_buf: Vec<u8> = vec![0; 20];
    let mut cur = RWCursor::new(&write_buf);
    ImportDescriptors::write_single(&mut cur, &mut write_buf, &d);
    assert_eq!(data, write_buf);
}

#[test]
fn truncated_descriptor_is_too_small() {
    // a nonzero first field but fewer than 20 bytes in the region
    let data: Vec<u8> = vec![0x40, 0x31, 0x00, 0x00, 0x00, 0x00, 0x00, 0x00];
    let mut it = ImportDescriptorIter::new(&data);
    assert_eq!(it.next(&data), Err(PeError::BufferTooSmall));
}

#[test]
fn sentinel_ends_sequence() {
    let data: Vec<u8> = vec![0, 0, 0, 0];
    let mut it = ImportDescriptorIter::new(&data);
    assert_eq!(it.next(&data), Ok(None));
    assert_eq!(it.pos, 4);
}

#[test]
fn bounded_scan_stays_inside_the_directory() {
    // a descriptor followed by bytes that belong to another table: the
    // bounded iterator refuses to read past its region instead of scanning on
    let data: Vec<u8> = vec![
        0x40, 0x31, 0x00, 0x00, 0x00, 0x00, 0x00, 0x00, 0x00, 0x00, 0x00, 0x00, 0x6E, 0x31,
        0x00, 0x00, 0x00, 0x30, 0x00, 0x00, 0xFF, 0xFF, 0xFF, 0xFF, 0xFF, 0xFF, 0xFF, 0xFF,
    ];
    let mut it = ImportDescriptorIter::bounded(0, 20);
    let d = it.next(&data).unwrap().unwrap();
    assert_eq!(d.original_first_thunk, 0x3140);
    assert_eq!(it.pos, 20);
    // the region is exhausted without a sentinel: an error, not a scan past it
    assert_eq!(it.next(&data).err(), Some(PeError::BufferTooSmall));
}
