//! LIDATA storage and expansion.

use omf_read::error::OmfErrorKind;
use omf_read::lidata::expand_lidata;
use omf_read::module::OmfFile;
use omf_read::section::OmfSectionData;

fn rec(ty: u8, body: &[u8]) -> Vec<u8> {
    let len = (body.len() + 1) as u16;
    let mut out = vec![ty, (len & 0xFF) as u8, (len >> 8) as u8];
    out.extend_from_slice(body);
    out.push(0x00);
    out
}

fn cat(parts: &[Vec<u8>]) -> Vec<u8> {
    let mut out = Vec::new();
    for p in parts {
        out.extend_from_slice(p);
    }
    out
}

#[test]
fn literal_block_expands_to_its_bytes() {
    // repeat 1, block count 0, 3 literal bytes.
    let raw = [0x01, 0x00, 0x00, 0x00, 3, 0xAA, 0xBB, 0xCC];
    let out = expand_lidata(&raw, false).expect("expand");
    assert_eq!(out, vec![0xAA, 0xBB, 0xCC]);
}

#[test]
fn repeated_block_expands() {
    // repeat 4, block count 0, 2 literal bytes.
    let raw = [0x04, 0x00, 0x00, 0x00, 2, 0x12, 0x34];
    let out = expand_lidata(&raw, false).expect("expand");
    assert_eq!(out, vec![0x12, 0x34, 0x12, 0x34, 0x12, 0x34, 0x12, 0x34]);
}

#[test]
fn nested_blocks_expand() {
    // repeat 2 of (repeat 3 of "AB") = ABABAB ABABAB.
    let raw = [
        0x02, 0x00, 0x01, 0x00, // outer: repeat 2, one nested block
        0x03, 0x00, 0x00, 0x00, 2, b'A', b'B', // inner: repeat 3, literal "AB"
    ];
    let out = expand_lidata(&raw, false).expect("expand");
    assert_eq!(out, b"ABABABABABAB".to_vec());
}

#[test]
fn lidata32_uses_wide_repeat_count() {
    // repeat 5 as a 32-bit count, block count 0, 1 literal byte.
    let raw = [0x05, 0x00, 0x00, 0x00, 0x00, 0x00, 1, 0x7E];
    let out = expand_lidata(&raw, true).expect("expand");
    assert_eq!(out, vec![0x7E; 5]);
}

#[test]
fn expansion_is_idempotent() {
    let raw = [0x04, 0x00, 0x00, 0x00, 2, 0x12, 0x34];
    let once = expand_lidata(&raw, false).expect("expand");
    // Re-encode the expansion as a plain literal block and expand
    // again: the bytes are unchanged.
    let mut reencoded = vec![0x01, 0x00, 0x00, 0x00, once.len() as u8];
    reencoded.extend_from_slice(&once);
    let twice = expand_lidata(&reencoded, false).expect("expand again");
    assert_eq!(once, twice);
}

#[test]
fn truncated_block_is_rejected() {
    let raw = [0x01, 0x00, 0x00, 0x00, 9, 0xAA];
    assert_eq!(expand_lidata(&raw, false), Err(OmfErrorKind::Truncated));
    let raw2 = [0x01, 0x00];
    assert_eq!(expand_lidata(&raw2, false), Err(OmfErrorKind::Truncated));
}

#[test]
fn expansion_bomb_is_rejected() {
    // 0xFFFF repeats of 200 bytes would expand far past 64 times the
    // encoded size.
    let mut raw = vec![0xFF, 0xFF, 0x00, 0x00, 200];
    raw.extend_from_slice(&[0x5A; 200]);
    assert_eq!(expand_lidata(&raw, false), Err(OmfErrorKind::LidataBomb));
}

#[test]
fn nesting_bomb_is_rejected() {
    // Seventeen levels of nesting pass the depth bound.
    let mut raw = Vec::new();
    for _ in 0..17 {
        raw.extend_from_slice(&[0x01, 0x00, 0x01, 0x00]);
    }
    raw.extend_from_slice(&[0x01, 0x00, 0x00, 0x00, 1, 0x00]);
    assert_eq!(expand_lidata(&raw, false), Err(OmfErrorKind::LidataBomb));
}

#[test]
fn lidata_record_is_stored_unexpanded() {
    let block = [0x02, 0x00, 0x00, 0x00, 2, 0xCD, 0xEF];
    let mut body = vec![1, 0x00, 0x00]; // segment 1, offset 0
    body.extend_from_slice(&block);
    let bytes = cat(&[
        rec(0x96, &[3, b'S', b'E', b'G']),
        rec(0x98, &[0x48, 0x04, 0x00, 1, 0, 0]),
        rec(0xA2, &body),
        rec(0x8A, &[0x00]),
    ]);
    let m = OmfFile::parse(&bytes).expect("parse");
    assert_eq!(m.segments[0].chunks.len(), 1);
    match &m.segments[0].chunks[0] {
        OmfSectionData::Lidata { offset, raw } => {
            assert_eq!(*offset, 0);
            assert_eq!(raw, &block.to_vec());
            // Deferred expansion yields the iterated bytes.
            let out = expand_lidata(raw, false).expect("expand");
            assert_eq!(out, vec![0xCD, 0xEF, 0xCD, 0xEF]);
        },
        other => panic!("expected an unexpanded LIDATA chunk, got {:?}", other),
    }
    // Unexpanded LIDATA does not enter the assembled image.
    let sections = m.sections();
    assert_eq!(sections[0].size(), 4);
    assert_eq!(sections[0].data(), vec![0, 0, 0, 0]);
}

#[test]
fn iterators_walk_sections_and_symbols() {
    let bytes = cat(&[
        rec(0x96, &[3, b'S', b'E', b'G']),
        rec(0x98, &[0x48, 0x02, 0x00, 1, 0, 0]),
        rec(0x8C, &[1, b'x', 0]),
        rec(0x8A, &[0x00]),
    ]);
    let m = OmfFile::parse(&bytes).expect("parse");
    let mut secs = omf_read::object::sections(&m);
    assert_eq!(secs.len(), 1);
    let first = secs.next().expect("one section");
    assert_eq!(first.name, b"SEG".to_vec());
    assert!(secs.next().is_none());
    let mut syms = omf_read::object::symbols(&m);
    let s = syms.next().expect("one symbol");
    assert_eq!(s.name, b"x".to_vec());
    assert_eq!(s.index(), 0);
    assert!(syms.next().is_none());
}
