//! In-place decoding and re-encoding of Portable-Executable (PE) image
//! headers over a single byte buffer.
//!
//! Every decoded field is a *view*: a typed window (offset and width) onto a
//! byte range of the buffer. Reading a view decodes the bytes at its offset;
//! writing a view stores the bytes back, so mutations are immediately visible
//! to every other view over the same buffer and no serialization step exists.

pub mod dos_hdr;
pub mod err;
pub mod imports;
pub mod nt_hdr;
pub mod pe;
pub mod relocs;
pub mod sec_hdr;
pub mod util;
pub mod views;
