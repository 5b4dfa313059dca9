//! Record type bytes of the Intel OMF record stream.
//!
//! The low bit of an opcode selects the 16- vs 32-bit variant for the
//! SEGDEF, PUBDEF, LEDATA, LIDATA, COMDEF, LPUBDEF and COMDAT families.

use vstd::prelude::*;

verus! {

/// Translator header: names the source module.
pub const THEADR: u8 = 0x80;

/// Comment record: vendor or tooling metadata.
pub const COMENT: u8 = 0x88;

/// Module end, 16-bit variant.
pub const MODEND: u8 = 0x8A;

/// Module end, 32-bit variant.
pub const MODEND32: u8 = 0x8B;

/// External symbol declarations.
pub const EXTDEF: u8 = 0x8C;

/// Public symbol definitions, 16-bit variant.
pub const PUBDEF: u8 = 0x90;

/// Public symbol definitions, 32-bit variant.
pub const PUBDEF32: u8 = 0x91;

/// Logical name table entries.
pub const LNAMES: u8 = 0x96;

/// Segment definition, 16-bit variant.
pub const SEGDEF: u8 = 0x98;

/// Segment definition, 32-bit variant.
pub const SEGDEF32: u8 = 0x99;

/// Group definition.
pub const GRPDEF: u8 = 0x9A;

/// Relocation block.
pub const FIXUPP: u8 = 0x9C;

/// Enumerated segment data, 16-bit variant.
pub const LEDATA: u8 = 0xA0;

/// Enumerated segment data, 32-bit variant.
pub const LEDATA32: u8 = 0xA1;

/// Iterated segment data, 16-bit variant.
pub const LIDATA: u8 = 0xA2;

/// Iterated segment data, 32-bit variant.
pub const LIDATA32: u8 = 0xA3;

/// Common block declarations, 16-bit variant.
pub const COMDEF: u8 = 0xB0;

/// Common block declarations, 32-bit variant.
pub const COMDEF32: u8 = 0xB1;

/// Local external symbol declarations.
pub const LEXTDEF: u8 = 0xB4;

/// Local public symbol definitions, 16-bit variant.
pub const LPUBDEF: u8 = 0xB6;

/// Local public symbol definitions, 32-bit variant.
pub const LPUBDEF32: u8 = 0xB7;

/// Link-once fragment, 16-bit variant.
pub const COMDAT: u8 = 0xC2;

/// Link-once fragment, 32-bit variant.
pub const COMDAT32: u8 = 0xC3;

/// Library header: recognised but not decoded.
pub const LIBHDR: u8 = 0xF0;

/// Library directory: recognised but not decoded.
pub const LIBDIR: u8 = 0xF1;

/// Lowest record type byte of the OMF range; anything below is unknown.
pub const OMF_RANGE_LO: u8 = 0x6E;

} // verus!
