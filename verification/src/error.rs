//! Error and diagnostic types surfaced by the reader.

use vstd::prelude::*;

verus! {

/// What went wrong with a record or subrecord.
#[derive(Clone, Copy, Debug, PartialEq, Eq, Structural)]
pub enum OmfErrorKind {
    /// A record or field extends past the end of its buffer.
    Truncated,
    /// A record type byte outside the OMF range (strict mode only).
    UnknownRecord(u8),
    /// A FIXUPP subrecord could not be decoded or resolved.
    MalformedFixup,
    /// A COMDAT record could not be decoded.
    MalformedComdat,
    /// A 1-based index names an entity that was never declared.
    IndexOutOfRange,
    /// A LIDATA block nests too deeply or expands past the size cap.
    LidataBomb,
    /// A field uses an encoding this reader does not accept.
    UnsupportedVariant,
}

/// A fatal parse failure: the first offending condition, with the byte
/// offset of the record that caused it.
#[derive(Clone, Copy, Debug, PartialEq, Eq, Structural)]
pub struct OmfParseError {
    /// The condition.
    pub kind: OmfErrorKind,
    /// Byte offset of the offending record within the input buffer.
    pub offset: usize,
}

/// A tolerated condition: in tolerant mode the record is skipped or
/// defaulted and the condition is noted on the returned module.
#[derive(Clone, Copy, Debug, PartialEq, Eq, Structural)]
pub struct OmfDiagnostic {
    /// The condition.
    pub kind: OmfErrorKind,
    /// Byte offset of the record it arose in.
    pub offset: usize,
}

} // verus!
