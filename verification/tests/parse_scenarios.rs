//! End-to-end scenarios: whole modules through `OmfFile::parse`.

use omf_read::error::OmfErrorKind;
use omf_read::module::OmfFile;
use omf_read::section::{OmfFixupFrame, OmfFixupTarget, OmfRelocKind};
use omf_read::symbol::OmfSymbolScope;

/// Frames one record: type, 16-bit length counting the checksum, body,
/// and a zero checksum byte.
fn rec(ty: u8, body: &[u8]) -> Vec<u8> {
    let len = (body.len() + 1) as u16;
    let mut out = vec![ty, (len & 0xFF) as u8, (len >> 8) as u8];
    out.extend_from_slice(body);
    out.push(0x00);
    out
}

fn cat(parts: &[Vec<u8>]) -> Vec<u8> {
    let mut out = Vec::new();
    for p in parts {
        out.extend_from_slice(p);
    }
    out
}

#[test]
fn minimal_module() {
    let bytes = vec![
        0x80, 0x06, 0x00, 0x04, b'H', b'I', b'.', b'C', 0x00, // THEADR "HI.C"
        0x8A, 0x02, 0x00, 0x00, 0x00, // MODEND, no start address
    ];
    let m = OmfFile::parse(&bytes).expect("parse");
    assert_eq!(m.module_name, Some(b"HI.C".to_vec()));
    assert_eq!(m.segments.len(), 0);
    assert_eq!(m.symbols.len(), 0);
    assert!(m.modend_seen);
    assert_eq!(m.bytes_consumed, bytes.len());
}

#[test]
fn one_code_segment_with_data() {
    let bytes = cat(&[
        rec(0x96, &[5, b'_', b'T', b'E', b'X', b'T', 4, b'C', b'O', b'D', b'E']),
        rec(0x98, &[0x48, 0x03, 0x00, 1, 2, 0]),
        rec(0xA0, &[1, 0x00, 0x00, 0x90, 0x90, 0xC3]),
        rec(0x8A, &[0x00]),
    ]);
    let m = OmfFile::parse(&bytes).expect("parse");
    assert_eq!(m.segments.len(), 1);
    let seg = &m.segments[0];
    assert_eq!(seg.name, b"_TEXT".to_vec());
    assert_eq!(seg.class_name, b"CODE".to_vec());
    assert!(seg.executable);
    assert_eq!(seg.declared_len, 3);
    let sections = m.sections();
    assert_eq!(sections.len(), 1);
    assert_eq!(sections[0].size(), 3);
    assert_eq!(sections[0].data(), vec![0x90, 0x90, 0xC3]);
    assert!(sections[0].flags().executable);
}

#[test]
fn public_symbol_resolution() {
    let bytes = cat(&[
        rec(0x96, &[5, b'_', b'T', b'E', b'X', b'T', 4, b'C', b'O', b'D', b'E']),
        rec(0x98, &[0x48, 0x03, 0x00, 1, 2, 0]),
        rec(0x90, &[0, 1, 4, b'm', b'a', b'i', b'n', 0x00, 0x00, 0]),
        rec(0xA0, &[1, 0x00, 0x00, 0x90, 0x90, 0xC3]),
        rec(0x8A, &[0x00]),
    ]);
    let m = OmfFile::parse(&bytes).expect("parse");
    assert_eq!(m.symbols.len(), 1);
    let sym = &m.symbols[0];
    assert_eq!(sym.name, b"main".to_vec());
    assert_eq!(sym.scope, OmfSymbolScope::Public);
    // The 1-based segment index 1 names the first declared segment.
    assert_eq!(sym.segment, 1);
    assert_eq!(sym.offset, 0);
    assert_eq!(sym.address(), 0);
}

#[test]
fn external_reference_with_fixup() {
    // Segment-relative 16-bit offset fixup at location 1 against
    // external index 1: the data chunk starts at offset 0, the fixup
    // patches one byte in.
    let fixup = [0xC4, 0x01, 0x06, 0x01, 0x01];
    let bytes = cat(&[
        rec(0x96, &[5, b'_', b'T', b'E', b'X', b'T', 4, b'C', b'O', b'D', b'E']),
        rec(0x98, &[0x48, 0x03, 0x00, 1, 2, 0]),
        rec(0x8C, &[4, b'p', b'u', b't', b's', 0]),
        rec(0xA0, &[1, 0x00, 0x00, 0x90, 0x90, 0xC3]),
        rec(0x9C, &fixup),
        rec(0x8A, &[0x00]),
    ]);
    let m = OmfFile::parse(&bytes).expect("parse");
    assert_eq!(m.symbols.len(), 1);
    assert_eq!(m.symbols[0].name, b"puts".to_vec());
    assert_eq!(m.symbols[0].scope, OmfSymbolScope::External);
    assert_eq!(m.symbols[0].segment, 0);
    assert_eq!(m.segments[0].fixups.len(), 1);
    let r = &m.segments[0].fixups[0];
    assert_eq!(r.offset, 1);
    assert_eq!(r.size, 16);
    assert_eq!(r.kind, OmfRelocKind::Absolute);
    assert_eq!(r.target, OmfFixupTarget::External(1));
    assert_eq!(r.frame, Some(OmfFixupFrame::Segment(1)));
}

#[test]
fn comdat_pick_any() {
    let bytes = cat(&[
        rec(0x96, &[4, b'?', b'f', b'o', b'o']),
        rec(0x98, &[0x48, 0x05, 0x00, 1, 0, 0]),
        rec(
            0xC2,
            &[
                0x00, // flags: no continuation, pick-any selection
                0x00, // attributes: explicit allocation
                0x00, // alignment
                0x00, 0x00, // offset 0
                0x00, // type index
                0x00, // public base: group 0
                0x01, // public base: segment 1
                0x01, // name index 1 = "?foo"
                0x55, 0x8B, 0xEC, 0x5D, 0xC3,
            ],
        ),
        rec(0x8A, &[0x00]),
    ]);
    let m = OmfFile::parse(&bytes).expect("parse");
    assert_eq!(m.comdats.len(), 1);
    let c = &m.comdats[0];
    assert_eq!(c.name, b"?foo".to_vec());
    // Low nibble 0 of the flags byte = pick-any.
    assert_eq!(c.selection & 0x0F, 0x00);
    assert_eq!(c.data.as_ref().unwrap().len(), 5);
    assert_eq!(c.segment_index, 1);
    // The sections list holds the host segment and the fragment.
    let sections = m.sections();
    assert_eq!(sections.len(), 2);
    assert!(sections[1].flags().comdat);
    assert_eq!(sections[1].data(), vec![0x55, 0x8B, 0xEC, 0x5D, 0xC3]);
    // The host segment carries the COMDAT bytes at offset 0.
    assert_eq!(&sections[0].data()[..5], &[0x55, 0x8B, 0xEC, 0x5D, 0xC3]);
}

#[test]
fn malformed_length_is_truncated() {
    let mut bytes = vec![0x80, 0xFF, 0xFF];
    bytes.extend_from_slice(&[0; 7]);
    let e = OmfFile::parse(&bytes).expect_err("must fail");
    assert_eq!(e.kind, OmfErrorKind::Truncated);
    assert_eq!(e.offset, 0);
}

#[test]
fn test_parse_simple_omf() {
    // A small module with one public symbol and one code segment.
    let raw = cat(&[
        rec(0x80, &[8, b's', b'i', b'm', b'p', b'l', b'e', b'.', b'c']),
        rec(0x96, &[5, b'_', b'T', b'E', b'X', b'T', 4, b'C', b'O', b'D', b'E']),
        rec(0x98, &[0x48, 0x03, 0x00, 1, 2, 0]),
        rec(0x90, &[0, 1, 5, b's', b't', b'a', b'r', b't', 0x00, 0x00, 0]),
        rec(0xA0, &[1, 0x00, 0x00, 0x90, 0x90, 0xC3]),
        rec(0x8A, &[0x00]),
    ]);
    let obj = OmfFile::parse(raw.as_slice()).expect("parse");

    let symbols = obj.symbols().clone();
    assert!(!symbols.is_empty(), "Should parse at least one symbol");

    let sections = obj.sections();
    assert!(!sections.is_empty(), "Should parse at least one section");

    for sec in &sections {
        println!(
            "Section: {} size={}",
            String::from_utf8_lossy(sec.name()),
            sec.size()
        );
    }
}

#[test]
fn reparse_is_identical() {
    let bytes = cat(&[
        rec(0x96, &[5, b'_', b'T', b'E', b'X', b'T', 4, b'C', b'O', b'D', b'E']),
        rec(0x98, &[0x48, 0x03, 0x00, 1, 2, 0]),
        rec(0x8C, &[4, b'p', b'u', b't', b's', 0]),
        rec(0xA0, &[1, 0x00, 0x00, 0x90, 0x90, 0xC3]),
        rec(0x9C, &[0xC4, 0x01, 0x06, 0x01, 0x01]),
        rec(0x8A, &[0x00]),
    ]);
    let m1 = OmfFile::parse(&bytes).expect("parse once");
    let m2 = OmfFile::parse(&bytes).expect("parse twice");
    assert_eq!(m1, m2);
}

#[test]
fn framer_consumes_whole_input() {
    let no_trailing = cat(&[
        rec(0x96, &[3, b'S', b'E', b'G']),
        rec(0x98, &[0x48, 0x00, 0x00, 1, 0, 0]),
        rec(0x8A, &[0x00]),
    ]);
    let m = OmfFile::parse(&no_trailing).expect("parse");
    assert_eq!(m.bytes_consumed, no_trailing.len());

    // Bytes after MODEND are not an error and are not consumed.
    let mut trailing = no_trailing.clone();
    trailing.extend_from_slice(&[0xDE, 0xAD]);
    let m2 = OmfFile::parse(&trailing).expect("parse");
    assert_eq!(m2.bytes_consumed, no_trailing.len());
}

#[test]
fn references_resolve_in_parsed_module() {
    // The parsed module's segment references all resolve: relocation
    // targets and frames, symbol bindings, group members and COMDAT
    // hosts name a declared segment or 0.
    let bytes = cat(&[
        rec(0x96, &[5, b'_', b'T', b'E', b'X', b'T', 4, b'C', b'O', b'D', b'E']),
        rec(0x98, &[0x48, 0x03, 0x00, 1, 2, 0]),
        rec(0x9A, &[1, 0xFF, 0x01]),
        rec(0x90, &[0, 1, 4, b'm', b'a', b'i', b'n', 0x00, 0x00, 0]),
        rec(0xA0, &[1, 0x00, 0x00, 0x90, 0x90, 0xC3]),
        rec(0x9C, &[0xC4, 0x01, 0x06, 0x01, 0x01]),
        rec(0x8A, &[0x00]),
    ]);
    let m = OmfFile::parse(&bytes).expect("parse");
    let nsegs = m.segments.len() as u16;
    for seg in &m.segments {
        for r in &seg.fixups {
            if let OmfFixupTarget::Segment(k) = r.target {
                assert!(k == 0 || k <= nsegs);
            }
            if let Some(OmfFixupFrame::Segment(k)) = r.frame {
                assert!(k == 0 || k <= nsegs);
            }
        }
    }
    for sym in &m.symbols {
        assert!(sym.segment == 0 || sym.segment <= nsegs);
    }
    for g in &m.groups {
        for k in &g.segment_indices {
            assert!(*k <= nsegs);
        }
    }
    for c in &m.comdats {
        assert!(c.segment_index <= nsegs);
    }
}

#[test]
fn name_indices_bounded_in_parsed_module() {
    let bytes = cat(&[
        rec(0x96, &[5, b'_', b'T', b'E', b'X', b'T', 4, b'C', b'O', b'D', b'E', 6, b'D', b'G', b'R', b'O', b'U', b'P']),
        rec(0x98, &[0x48, 0x03, 0x00, 1, 2, 0]),
        rec(0x9A, &[3, 0xFF, 0x01]),
        rec(0x8A, &[0x00]),
    ]);
    let m = OmfFile::parse(&bytes).expect("parse");
    let n = m.lnames.len() as u16;
    for seg in &m.segments {
        assert!(seg.name_index == 0 || seg.name_index <= n);
        assert!(seg.class_index == 0 || seg.class_index <= n);
        assert!(seg.overlay_index == 0 || seg.overlay_index <= n);
    }
    for g in &m.groups {
        assert!(g.name_index == 0 || g.name_index <= n);
    }
    assert_eq!(m.groups[0].name, b"DGROUP".to_vec());
    assert_eq!(m.groups[0].segment_indices, vec![1]);
}
