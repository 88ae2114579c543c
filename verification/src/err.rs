//! The error taxonomy of the decoder.

use vstd::prelude::*;

verus! {

/// Why a decode or query step failed. Every failure is returned to the
/// immediate caller; nothing in this crate panics on malformed input.
#[derive(Clone, Copy, Debug, PartialEq, Eq, Structural)]
pub enum PeError {
    /// A requested view would extend past the remaining bytes.
    BufferTooSmall,
    /// A chaining offset or length field is structurally invalid, e.g. the
    /// DOS header points the NT header before its own end.
    MalformedHeader,
    /// No section of the table contains the queried address.
    SectionNotFound,
    /// A relocation entry's type nibble lies outside the supported range.
    UnsupportedRelocationType,
    /// A derived quantity does not fit the machine type that carries it.
    OutOfRange,
}

} // verus!
