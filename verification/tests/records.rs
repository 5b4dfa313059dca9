//! Boundary cases and per-record behaviour.

use omf_read::comment::{parse_comment, OmfCommentKind};
use omf_read::error::OmfErrorKind;
use omf_read::fixupp::OmfFixup;
use omf_read::module::{OmfCommentClass, OmfFile};
use omf_read::symbol::OmfSymbolScope;

fn rec(ty: u8, body: &[u8]) -> Vec<u8> {
    let len = (body.len() + 1) as u16;
    let mut out = vec![ty, (len & 0xFF) as u8, (len >> 8) as u8];
    out.extend_from_slice(body);
    out.push(0x00);
    out
}

fn cat(parts: &[Vec<u8>]) -> Vec<u8> {
    let mut out = Vec::new();
    for p in parts {
        out.extend_from_slice(p);
    }
    out
}

#[test]
fn empty_module_single_modend() {
    let bytes = rec(0x8A, &[0x00]);
    let m = OmfFile::parse(&bytes).expect("parse");
    assert_eq!(m.segments.len(), 0);
    assert_eq!(m.symbols.len(), 0);
    assert!(m.modend_seen);
    assert!(!m.main_module);
}

#[test]
fn theadr_with_empty_name() {
    let bytes = cat(&[rec(0x80, &[0]), rec(0x8A, &[0x00])]);
    let m = OmfFile::parse(&bytes).expect("parse");
    assert_eq!(m.module_name, Some(Vec::new()));
}

#[test]
fn segdef_with_zero_length() {
    let bytes = cat(&[
        rec(0x96, &[3, b'S', b'E', b'G']),
        rec(0x98, &[0x48, 0x00, 0x00, 1, 0, 0]),
        rec(0x8A, &[0x00]),
    ]);
    let m = OmfFile::parse(&bytes).expect("parse");
    assert_eq!(m.segments.len(), 1);
    let sections = m.sections();
    assert_eq!(sections[0].size(), 0);
    assert_eq!(sections[0].data(), Vec::<u8>::new());
}

#[test]
fn ledata_at_offset_equal_to_length() {
    let bytes = cat(&[
        rec(0x96, &[3, b'S', b'E', b'G']),
        rec(0x98, &[0x48, 0x03, 0x00, 1, 0, 0]),
        rec(0xA0, &[1, 0x03, 0x00]), // offset 3, zero bytes
        rec(0x8A, &[0x00]),
    ]);
    let m = OmfFile::parse(&bytes).expect("parse");
    assert_eq!(m.segments.len(), 1);
    assert_eq!(m.segments[0].chunks.len(), 1);
    let sections = m.sections();
    assert_eq!(sections[0].size(), 3);
    assert_eq!(sections[0].data(), vec![0, 0, 0]);
}

#[test]
fn fixupp_with_only_threads() {
    // One frame thread (slot 0, segment 1) and one target thread
    // (slot 1, external 1): no relocations, no error.
    let bytes = cat(&[
        rec(0x96, &[3, b'S', b'E', b'G']),
        rec(0x98, &[0x48, 0x03, 0x00, 1, 0, 0]),
        rec(0x9C, &[0x40, 0x01, 0x09, 0x01]),
        rec(0x8A, &[0x00]),
    ]);
    let m = OmfFile::parse(&bytes).expect("parse");
    assert_eq!(m.segments[0].fixups.len(), 0);
    assert!(m.diagnostics.is_empty());
}

#[test]
fn unknown_record_strict_and_tolerant() {
    let bytes = cat(&[rec(0x10, &[0x00]), rec(0x8A, &[0x00])]);
    let e = OmfFile::parse(&bytes).expect_err("strict must fail");
    assert_eq!(e.kind, OmfErrorKind::UnknownRecord(0x10));
    assert_eq!(e.offset, 0);
    let m = OmfFile::parse_with(&bytes, false).expect("tolerant parses");
    assert_eq!(m.diagnostics.len(), 1);
    assert_eq!(m.diagnostics[0].kind, OmfErrorKind::UnknownRecord(0x10));
}

#[test]
fn recognised_opcode_without_handler_is_skipped() {
    // LIBHDR is recognised but carries no module content.
    let bytes = cat(&[rec(0xF0, &[0x00]), rec(0x8A, &[0x00])]);
    let m = OmfFile::parse(&bytes).expect("parse");
    assert!(m.diagnostics.is_empty());
    assert_eq!(m.segments.len(), 0);
}

#[test]
fn pubdef_segment_out_of_range() {
    let pubdef = rec(0x90, &[0, 1, 4, b'm', b'a', b'i', b'n', 0x00, 0x00, 0]);
    let bytes = cat(&[pubdef.clone(), rec(0x8A, &[0x00])]);
    let e = OmfFile::parse(&bytes).expect_err("strict must fail");
    assert_eq!(e.kind, OmfErrorKind::IndexOutOfRange);
    let m = OmfFile::parse_with(&bytes, false).expect("tolerant parses");
    // The symbols bind as unbound and the condition is noted.
    assert_eq!(m.symbols.len(), 1);
    assert_eq!(m.symbols[0].segment, 0);
    assert_eq!(m.diagnostics[0].kind, OmfErrorKind::IndexOutOfRange);
}

#[test]
fn fixup_without_data_chunk_is_malformed() {
    let bytes = cat(&[
        rec(0x96, &[3, b'S', b'E', b'G']),
        rec(0x98, &[0x48, 0x03, 0x00, 1, 0, 0]),
        rec(0x9C, &[0xC4, 0x01, 0x06, 0x01, 0x01]),
        rec(0x8A, &[0x00]),
    ]);
    let e = OmfFile::parse(&bytes).expect_err("strict must fail");
    assert_eq!(e.kind, OmfErrorKind::MalformedFixup);
    let m = OmfFile::parse_with(&bytes, false).expect("tolerant parses");
    assert_eq!(m.segments[0].fixups.len(), 0);
    assert_eq!(m.diagnostics[0].kind, OmfErrorKind::MalformedFixup);
}

#[test]
fn comdat_too_short_is_malformed() {
    let bytes = cat(&[rec(0xC2, &[0x00, 0x00]), rec(0x8A, &[0x00])]);
    let e = OmfFile::parse(&bytes).expect_err("strict must fail");
    assert_eq!(e.kind, OmfErrorKind::MalformedComdat);
}

#[test]
fn comdef_near_and_far() {
    // One near common of 16 bytes, one far common of 3 elements of
    // 0x120 bytes (0x82 prefixes a 16-bit length).
    let body = [
        3, b'b', b's', b's', 0, 0x61, 16, // near, 16 bytes
        3, b'f', b'a', b'r', 0, 0x62, 3, 0x82, 0x20, 0x01, // far, 3 x 0x120
    ];
    let bytes = cat(&[rec(0xB0, &body), rec(0x8A, &[0x00])]);
    let m = OmfFile::parse(&bytes).expect("parse");
    assert_eq!(m.commons.len(), 2);
    assert_eq!(m.commons[0].name, b"bss".to_vec());
    assert_eq!(m.commons[0].elem_size, 16);
    assert_eq!(m.commons[0].elem_count, 1);
    assert!(!m.commons[0].is_far);
    assert_eq!(m.commons[1].elem_count, 3);
    assert_eq!(m.commons[1].elem_size, 0x120);
    assert!(m.commons[1].is_far);
    // Each common also appears as an unbound common symbol.
    assert_eq!(m.symbols.len(), 2);
    assert_eq!(m.symbols[0].scope, OmfSymbolScope::Common);
    assert_eq!(m.symbols[1].name, b"far".to_vec());
}

#[test]
fn comdef_unknown_data_type() {
    let body = [3, b'b', b's', b's', 0, 0x63, 16];
    let bytes = cat(&[rec(0xB0, &body), rec(0x8A, &[0x00])]);
    let e = OmfFile::parse(&bytes).expect_err("strict must fail");
    assert_eq!(e.kind, OmfErrorKind::UnsupportedVariant);
    let m = OmfFile::parse_with(&bytes, false).expect("tolerant parses");
    assert_eq!(m.commons.len(), 0);
    assert_eq!(m.diagnostics[0].kind, OmfErrorKind::UnsupportedVariant);
}

#[test]
fn lextdef_and_lpubdef() {
    let bytes = cat(&[
        rec(0x96, &[3, b'S', b'E', b'G']),
        rec(0x98, &[0x48, 0x10, 0x00, 1, 0, 0]),
        rec(0xB4, &[3, b'e', b'x', b't', 0]),
        rec(0xB7, &[0, 1, 3, b'p', b'u', b'b', 0x04, 0x00, 0x00, 0x00, 0]),
        rec(0x8A, &[0x00]),
    ]);
    let m = OmfFile::parse(&bytes).expect("parse");
    assert_eq!(m.symbols.len(), 2);
    assert_eq!(m.symbols[0].scope, OmfSymbolScope::External);
    assert_eq!(m.symbols[1].scope, OmfSymbolScope::Public);
    assert_eq!(m.symbols[1].offset, 4);
    assert_eq!(m.symbols[1].segment, 1);
}

#[test]
fn modend_with_start_address() {
    // Type byte 0xC1: main module with a start address; frame method
    // 0, datum 1, offset 0x1234.
    let bytes = cat(&[
        rec(0x96, &[3, b'S', b'E', b'G']),
        rec(0x98, &[0x48, 0x10, 0x00, 1, 0, 0]),
        rec(0x8A, &[0xC1, 0x00, 0x01, 0x34, 0x12]),
    ]);
    let m = OmfFile::parse(&bytes).expect("parse");
    assert!(m.main_module);
    let e = m.entry().expect("entry point");
    assert_eq!(e.frame_method, 0);
    assert_eq!(e.datum, 1);
    assert_eq!(e.offset, 0x1234);
}

#[test]
fn coment_classification() {
    // Type 0x80 ("no purge"), class 0x9A (Watcom, subtyped), subtype
    // 0x02, payload "X".
    let bytes = cat(&[
        rec(0x88, &[0x80, 0x9A, 0x02, b'X']),
        rec(0x88, &[0x00, 0xE9, b'v', b'1']),
        rec(0x8A, &[0x00]),
    ]);
    let m = OmfFile::parse(&bytes).expect("parse");
    assert_eq!(m.comments.len(), 2);
    assert_eq!(m.comments[0].class, OmfCommentClass::Watcom);
    assert_eq!(m.comments[0].subtype, Some(0x02));
    assert_eq!(m.comments[0].data, vec![b'X']);
    assert_eq!(m.comments[0].raw, vec![0x80, 0x9A, 0x02, b'X']);
    assert_eq!(m.comments[1].class, OmfCommentClass::Version);
    assert_eq!(m.comments[1].subtype, None);
    assert_eq!(m.comments[1].data, vec![b'v', b'1']);
}

#[test]
fn parse_comment_classifier() {
    assert!(parse_comment(&[0x80]).is_none());
    let c = parse_comment(&[0x80, 0x00, 1, 2, 3]).expect("classified");
    assert_eq!(c.kind, OmfCommentKind::CompilerInfo);
    assert_eq!(c.data, vec![1, 2, 3]);
    let c2 = parse_comment(&[0x00, 0x01]).expect("classified");
    assert_eq!(c2.kind, OmfCommentKind::Copyright);
    let c3 = parse_comment(&[0x00, 0x9A, 0x02]).expect("classified");
    assert_eq!(c3.kind, OmfCommentKind::LinkerInfo);
    let c4 = parse_comment(&[0x00, 0x9A, 0x55]).expect("classified");
    assert_eq!(c4.kind, OmfCommentKind::Other(0x9A));
    let c5 = parse_comment(&[0x00, 0x42, 9]).expect("classified");
    assert_eq!(c5.kind, OmfCommentKind::Other(0x42));
}

#[test]
fn peek_accepts_omf_openings() {
    assert!(OmfFile::peek(&[0x80, 0, 0]).is_ok());
    assert!(OmfFile::peek(&[0x9F]).is_ok());
    assert!(OmfFile::peek(&[0x7F]).is_err());
    assert!(OmfFile::peek(&[0xA0]).is_err());
    assert!(OmfFile::peek(&[]).is_err());
}

#[test]
fn parse_all_decodes_threads_and_fixups() {
    let body = [0x40, 0x01, 0xC4, 0x01, 0x06, 0x01, 0x01];
    let (subs, malformed) = OmfFixup::parse_all(&body);
    assert!(!malformed);
    assert_eq!(subs.len(), 2);
    assert!(matches!(subs[0], OmfFixup::FrameThread { slot: 0, .. }));
    assert!(matches!(
        subs[1],
        OmfFixup::Fixup { segment_relative: true, location: 1, data_offset: 1, .. }
    ));
    // A lone header byte cannot open a subrecord: malformed tail.
    let (subs2, malformed2) = OmfFixup::parse_all(&[0xC4]);
    assert!(subs2.is_empty());
    assert!(malformed2);
}

#[test]
fn threaded_fixup_resolves_through_slots() {
    // Store frame segment 1 in frame slot 2 and target external 1 in
    // target slot 3; the fixup then references both slots.
    // Fix-data 0xAB: threaded frame slot 2, threaded target slot 3,
    // no displacement.
    let bytes = cat(&[
        rec(0x96, &[3, b'S', b'E', b'G']),
        rec(0x98, &[0x48, 0x03, 0x00, 1, 0, 0]),
        rec(0xA0, &[1, 0x00, 0x00, 0x90, 0x90, 0xC3]),
        rec(0x9C, &[0x42, 0x01, 0x0B, 0x01, 0xC4, 0x01, 0xAF]),
        rec(0x8A, &[0x00]),
    ]);
    let m = OmfFile::parse(&bytes).expect("parse");
    assert_eq!(m.segments[0].fixups.len(), 1);
    let r = &m.segments[0].fixups[0];
    assert_eq!(r.target, omf_read::section::OmfFixupTarget::External(1));
    assert_eq!(
        r.frame,
        Some(omf_read::section::OmfFixupFrame::Segment(1))
    );
}

#[test]
fn two_byte_variable_index() {
    // LNAMES then a GRPDEF whose name index uses the 2-byte encoding
    // (0x80 0x01 = index 1).
    let bytes = cat(&[
        rec(0x96, &[3, b'G', b'R', b'P']),
        rec(0x9A, &[0x80, 0x01]),
        rec(0x8A, &[0x00]),
    ]);
    let m = OmfFile::parse(&bytes).expect("parse");
    assert_eq!(m.groups.len(), 1);
    assert_eq!(m.groups[0].name, b"GRP".to_vec());
    assert_eq!(m.groups[0].name_index, 1);
}

#[test]
fn stray_trailing_bytes_without_modend() {
    // Two stray bytes cannot open a record: truncated at that offset.
    let mut bytes = rec(0x96, &[3, b'S', b'E', b'G']);
    let off = bytes.len();
    bytes.extend_from_slice(&[0x98, 0x07]);
    let e = OmfFile::parse(&bytes).expect_err("must fail");
    assert_eq!(e.kind, OmfErrorKind::Truncated);
    assert_eq!(e.offset, off);
}

#[test]
fn zero_length_record_is_truncated() {
    let bytes = vec![0x96, 0x00, 0x00, 0x00];
    let e = OmfFile::parse(&bytes).expect_err("must fail");
    assert_eq!(e.kind, OmfErrorKind::Truncated);
    assert_eq!(e.offset, 0);
}

#[test]
fn segdef32_and_big_bit() {
    // SEGDEF32 with a 32-bit length, and a 16-bit SEGDEF with the big
    // bit set (a full 64K segment).
    let bytes = cat(&[
        rec(0x96, &[1, b'A', 1, b'B']),
        rec(0x99, &[0x48, 0x00, 0x00, 0x01, 0x00, 1, 0, 0]), // 0x10000 bytes
        rec(0x98, &[0x4A, 0x00, 0x00, 2, 0, 0]), // big bit set
        rec(0x8A, &[0x00]),
    ]);
    let m = OmfFile::parse(&bytes).expect("parse");
    assert_eq!(m.segments.len(), 2);
    assert_eq!(m.segments[0].declared_len, 0x10000);
    assert!(!m.segments[0].big);
    assert!(m.segments[1].big);
    assert_eq!(m.segments[1].declared_len, 0x10000);
}

#[test]
fn segdef_name_index_out_of_range() {
    // The SEGDEF names entry 7 of a one-entry table.
    let bytes = cat(&[
        rec(0x96, &[3, b'S', b'E', b'G']),
        rec(0x98, &[0x48, 0x00, 0x00, 7, 0, 0]),
        rec(0x8A, &[0x00]),
    ]);
    let e = OmfFile::parse(&bytes).expect_err("strict must fail");
    assert_eq!(e.kind, OmfErrorKind::IndexOutOfRange);
    let m = OmfFile::parse_with(&bytes, false).expect("tolerant parses");
    // Tolerant mode resolves the name as empty and notes the index.
    assert_eq!(m.segments.len(), 1);
    assert_eq!(m.segments[0].name, Vec::<u8>::new());
    assert_eq!(m.diagnostics[0].kind, OmfErrorKind::IndexOutOfRange);
}

#[test]
fn ledata_segment_out_of_range() {
    let bytes = cat(&[
        rec(0xA0, &[1, 0x00, 0x00, 0x90]),
        rec(0x8A, &[0x00]),
    ]);
    let e = OmfFile::parse(&bytes).expect_err("strict must fail");
    assert_eq!(e.kind, OmfErrorKind::IndexOutOfRange);
    let m = OmfFile::parse_with(&bytes, false).expect("tolerant parses");
    assert_eq!(m.segments.len(), 0);
    assert_eq!(m.diagnostics[0].kind, OmfErrorKind::IndexOutOfRange);
}

#[test]
fn comdat_continuation_extends_fragment() {
    let head = [
        0x00, 0x00, 0x00, 0x00, 0x00, 0x00, 0x00, 0x01, 0x01, // explicit, segment 1, name 1
        0x11, 0x22,
    ];
    let cont = [
        0x01, 0x00, 0x00, 0x02, 0x00, 0x00, 0x00, 0x01, 0x01, // continuation bit set
        0x33, 0x44,
    ];
    let bytes = cat(&[
        rec(0x96, &[4, b'?', b'f', b'o', b'o']),
        rec(0x98, &[0x48, 0x04, 0x00, 1, 0, 0]),
        rec(0xC2, &head),
        rec(0xC2, &cont),
        rec(0x8A, &[0x00]),
    ]);
    let m = OmfFile::parse(&bytes).expect("parse");
    assert_eq!(m.comdats.len(), 1);
    assert_eq!(
        m.comdats[0].data.as_ref().unwrap(),
        &vec![0x11, 0x22, 0x33, 0x44]
    );
}

#[test]
fn comdat_implicit_synthesises_segment() {
    // Allocation flavour 1 with no public base: the bytes get a
    // dedicated segment named after the fragment.
    let body = [
        0x00, 0x01, 0x00, 0x00, 0x00, 0x00, // flags, attrs (implicit), align, offset, type
        0x01, // name index 1
        0xAA, 0xBB, 0xCC,
    ];
    let bytes = cat(&[
        rec(0x96, &[4, b'?', b'b', b'a', b'r']),
        rec(0xC2, &body),
        rec(0x8A, &[0x00]),
    ]);
    let m = OmfFile::parse(&bytes).expect("parse");
    assert_eq!(m.segments.len(), 1);
    assert_eq!(m.segments[0].name, b"?bar".to_vec());
    assert!(m.segments[0].comdat);
    assert_eq!(m.segments[0].declared_len, 3);
    assert_eq!(m.comdats.len(), 1);
    assert_eq!(m.comdats[0].segment_index, 1);
    assert_eq!(m.comdats[0].alloc, 1);
    let sections = m.sections();
    assert_eq!(sections[0].data(), vec![0xAA, 0xBB, 0xCC]);
}

#[test]
fn lookup_by_index() {
    let bytes = cat(&[
        rec(0x96, &[3, b'S', b'E', b'G']),
        rec(0x98, &[0x48, 0x01, 0x00, 1, 0, 0]),
        rec(0x8C, &[1, b'x', 0]),
        rec(0x8A, &[0x00]),
    ]);
    let m = OmfFile::parse(&bytes).expect("parse");
    let s = m.symbol_by_index(0).expect("first symbol");
    assert_eq!(s.name, b"x".to_vec());
    assert!(m.symbol_by_index(1).is_none());
    let sec = m.section_by_index(0).expect("first section");
    assert_eq!(sec.name, b"SEG".to_vec());
    assert!(m.section_by_index(1).is_none());
    assert_eq!(m.symbol_table().len(), 1);
}
