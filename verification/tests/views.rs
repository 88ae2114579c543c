use pe_view::err::PeError;
use pe_view::util::{ROCursor, RWCursor};
use pe_view::views::{ArrayView, BindCursor, ByteView, U16View, U32View, U64View};

#[test]
fn scalar_view_set_then_get() {
    let mut buf: Vec<u8> = vec![0; 32];

    let b = ByteView { offset: 0 };
    b.set(&mut buf, 0xAB);
    assert_eq!(b.get(&buf), 0xAB);

    let v16 = U16View { offset: 2 };
    v16.set(&mut buf, 0xBEEF);
    assert_eq!(v16.get(&buf), 0xBEEF);
    assert_eq!(buf[2], 0xEF);
    assert_eq!(buf[3], 0xBE);

    let v32 = U32View { offset: 4 };
    v32.set(&mut buf, 0xDEAD_BEEF);
    assert_eq!(v32.get(&buf), 0xDEAD_BEEF);
    assert_eq!(buf[4], 0xEF);
    assert_eq!(buf[5], 0xBE);
    assert_eq!(buf[6], 0xAD);
    assert_eq!(buf[7], 0xDE);

    let v64 = U64View { offset: 8 };
    v64.set(&mut buf, 0x0123_4567_89AB_CDEF);
    assert_eq!(v64.get(&buf), 0x0123_4567_89AB_CDEF);
    assert_eq!(buf[8], 0xEF);
    assert_eq!(buf[15], 0x01);
}

#[test]
fn fresh_view_sees_mutation() {
    let mut buf: Vec<u8> = vec![0; 8];
    let writer = U32View { offset: 4 };
    writer.set(&mut buf, 0x11223344);
    let fresh = U32View { offset: 4 };
    assert_eq!(fresh.get(&buf), 0x11223344);
}

#[test]
fn array_view_window() {
    let mut buf: Vec<u8> = vec![0; 16];
    let w = ArrayView { offset: 4, len: 8 };
    w.set(&mut buf, 0, 0x41);
    w.set(&mut buf, 7, 0x5A);
    assert_eq!(w.get(&buf, 0), 0x41);
    assert_eq!(w.get(&buf, 7), 0x5A);
    assert_eq!(buf[4], 0x41);
    assert_eq!(buf[11], 0x5A);
    let copied = w.to_vec(&buf);
    assert_eq!(copied.len(), 8);
    assert_eq!(copied[0], 0x41);
    assert_eq!(copied[7], 0x5A);
}

#[test]
fn bind_cursor_consumes_prefix() {
    let buf: Vec<u8> = vec![0; 7];
    let mut c = BindCursor::new(&buf);
    let a = c.bind_u16().unwrap();
    let b = c.bind_u32().unwrap();
    assert_eq!(a.offset, 0);
    assert_eq!(b.offset, 2);
    assert_eq!(c.pos, 6);
    assert_eq!(c.bind_u32(), Err(PeError::BufferTooSmall));
    assert_eq!(c.pos, 6);
    let last = c.bind_u8().unwrap();
    assert_eq!(last.offset, 6);
    assert_eq!(c.bind_u8(), Err(PeError::BufferTooSmall));
}

#[test]
fn cursors_read_back_written_bytes() {
    let mut buf: Vec<u8> = vec![0; 6];
    let mut w = RWCursor::new(&buf);
    w.write_u16(&mut buf, 0x1234);
    w.write_u32(&mut buf, 0xCAFEBABE);
    let mut r = ROCursor::new(&buf);
    assert_eq!(r.read_u16(&buf), 0x1234);
    assert_eq!(r.read_u32(&buf), 0xCAFEBABE);
    assert_eq!(r.pos, 6);
}
