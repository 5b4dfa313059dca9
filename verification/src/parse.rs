//! The record-stream parser.
//!
//! [`spec_parse`] is the mathematical decoder: a recursive function
//! from the input bytes to the parsed module (or the first fatal
//! error).  The executable [`OmfFile::parse`] is proved to return
//! exactly what `spec_parse` denotes, so parsing is a pure function of
//! the input and every structural property of the module can be read
//! off the specification.
//!
//! The framer walks `[type][length:u16][body][checksum]` records,
//! refuses a record that runs past the buffer, hands each body (with
//! the checksum byte stripped, unvalidated) to its handler, and stops
//! cleanly after MODEND; trailing bytes after MODEND are left alone.
//! In strict mode (the default) every tolerable oddity is fatal; in
//! tolerant mode the record is skipped or defaulted and a diagnostic is
//! attached to the module.

use vstd::prelude::*;

use crate::consts;
use crate::error::{OmfDiagnostic, OmfErrorKind, OmfParseError};
use crate::fixupp::{
    spec_apply_thread, spec_fixups, spec_resolve_fixup, OmfFixup, ThreadState,
};
use crate::module::{
    spec_class_has_subtype, spec_comment_class, views_of, OmfComment, OmfEntryPoint, OmfFile,
    OmfSegment, SpecCommon, SpecGroup, SpecModule, SpecSegment, SpecTaggedComment,
};
use crate::prims::{
    spec_index, spec_le16, spec_le32, spec_name, spec_varnum, spec_varnum_prefix_ok,
};
use crate::section::{spec_reloc_in_bounds, OmfSectionData, SpecSectionData};
use crate::symbol::{OmfSymbolScope, SpecSymbol};

verus! {

/// The parser's whole state between records: the module built so far,
/// the FIXUPP thread slots, the segment and offset of the most recently
/// bound data chunk, and whether MODEND has ended the module.
#[verifier::ext_equal]
pub ghost struct SpecState {
    pub m: SpecModule,
    pub threads: ThreadState,
    pub cur_data: Option<(int, u32)>,
    pub done: bool,
}

/// The empty module every parse starts from.
pub open spec fn spec_init_module() -> SpecModule {
    SpecModule {
        module_name: None,
        lnames: Seq::<Seq<u8>>::empty(),
        segments: Seq::<SpecSegment>::empty(),
        symbols: Seq::<SpecSymbol>::empty(),
        groups: Seq::<SpecGroup>::empty(),
        comdats: Seq::<crate::module::SpecComdat>::empty(),
        commons: Seq::<SpecCommon>::empty(),
        comments: Seq::<SpecTaggedComment>::empty(),
        entry_point: None,
        main_module: false,
        modend_seen: false,
        bytes_consumed: 0,
        diagnostics: Seq::<OmfDiagnostic>::empty(),
    }
}

/// The initial parser state: empty module, empty thread slots, no data
/// chunk bound yet.
pub open spec fn spec_init_state() -> SpecState {
    SpecState {
        m: spec_init_module(),
        threads: (ThreadState {
            frame0: None,
            frame1: None,
            frame2: None,
            frame3: None,
            target0: None,
            target1: None,
            target2: None,
            target3: None,
        }),
        cur_data: None,
        done: false,
    }
}

/// `st` with a diagnostic noted.
pub open spec fn spec_diag(st: SpecState, kind: OmfErrorKind, off: usize) -> SpecState {
    SpecState {
        m: SpecModule {
            diagnostics: st.m.diagnostics.push(OmfDiagnostic { kind, offset: off }),
            ..st.m
        },
        ..st
    }
}

/// In strict mode the condition is fatal; in tolerant mode the record
/// is skipped and the condition noted.
pub open spec fn spec_tolerate(st: SpecState, kind: OmfErrorKind, strict: bool, off: usize) -> Result<
    SpecState,
    OmfErrorKind,
> {
    if strict {
        Err(kind)
    } else {
        Ok(spec_diag(st, kind, off))
    }
}

/// Resolves a 1-based name table index: 0 denotes "none" (the empty
/// name); an index past the table is `None`.
pub open spec fn spec_name_lookup(lnames: Seq<Seq<u8>>, idx: int) -> Option<Seq<u8>> {
    if idx == 0 {
        Some(Seq::<u8>::empty())
    } else if idx <= lnames.len() {
        Some(lnames[idx - 1])
    } else {
        None
    }
}

/// Resolves a name index against the module's table; an out-of-range
/// index is fatal in strict mode and resolves to the empty name with a
/// diagnostic in tolerant mode.
pub open spec fn spec_lookup_step(st: SpecState, idx: int, strict: bool, off: usize) -> Result<
    (Seq<u8>, SpecState),
    OmfErrorKind,
> {
    match spec_name_lookup(st.m.lnames, idx) {
        Some(n) => Ok((n, st)),
        None => {
            if strict {
                Err(OmfErrorKind::IndexOutOfRange)
            } else {
                Ok((Seq::<u8>::empty(), spec_diag(st, OmfErrorKind::IndexOutOfRange, off)))
            }
        },
    }
}

/// A class name marks a segment as code when it ends in `CODE`.
pub open spec fn spec_is_code_class(name: Seq<u8>) -> bool {
    name.len() >= 4 && name.subrange(name.len() - 4, name.len() as int) == seq![
        0x43u8,
        0x4Fu8,
        0x44u8,
        0x45u8,
    ]
}

/// THEADR: record the module's source name.
pub open spec fn spec_theadr(st: SpecState, body: Seq<u8>) -> Result<SpecState, OmfErrorKind> {
    match spec_name(body, 0) {
        None => Err(OmfErrorKind::Truncated),
        Some(m) => Ok(
            SpecState { m: SpecModule { module_name: Some(m.0), ..st.m }, ..st },
        ),
    }
}

/// LNAMES: append every length-prefixed name in the body, in order.
pub open spec fn spec_lnames(st: SpecState, body: Seq<u8>, p: int) -> Result<
    SpecState,
    OmfErrorKind,
>
    decreases body.len() - p,
    via spec_lnames_dec
{
    if p < 0 || p >= body.len() {
        Ok(st)
    } else {
        match spec_name(body, p) {
            None => Err(OmfErrorKind::Truncated),
            Some(m) => spec_lnames(
                SpecState { m: SpecModule { lnames: st.m.lnames.push(m.0), ..st.m }, ..st },
                body,
                m.1,
            ),
        }
    }
}

#[via_fn]
proof fn spec_lnames_dec(st: SpecState, body: Seq<u8>, p: int) {
    if 0 <= p < body.len() {
        crate::prims::lemma_name_advances(body, p);
    }
}

/// SEGDEF: declare a segment from the attribute byte, the declared
/// length, and the segment-, class- and overlay-name indices.
pub open spec fn spec_segdef(
    st: SpecState,
    body: Seq<u8>,
    is32: bool,
    strict: bool,
    off: usize,
) -> Result<SpecState, OmfErrorKind> {
    let width: int = if is32 {
        4
    } else {
        2
    };
    if 1 + width > body.len() {
        Err(OmfErrorKind::Truncated)
    } else {
        let attr = body[0];
        let raw_len: int = if is32 {
            spec_le32(body, 1)
        } else {
            spec_le16(body, 1)
        };
        match spec_index(body, 1 + width) {
            None => Err(OmfErrorKind::Truncated),
            Some(ni) => match spec_index(body, ni.1) {
                None => Err(OmfErrorKind::Truncated),
                Some(ci) => match spec_index(body, ci.1) {
                    None => Err(OmfErrorKind::Truncated),
                    Some(oi) => match spec_lookup_step(st, ni.0, strict, off) {
                        Err(e) => Err(e),
                        Ok(r1) => match spec_lookup_step(r1.1, ci.0, strict, off) {
                            Err(e) => Err(e),
                            Ok(r2) => match spec_lookup_step(r2.1, oi.0, strict, off) {
                                Err(e) => Err(e),
                                Ok(r3) => {
                                    let big = (attr / 2) % 2 == 1;
                                    let seg = SpecSegment {
                                        name: r1.0,
                                        name_index: ni.0 as u16,
                                        class_name: r2.0,
                                        class_index: ci.0 as u16,
                                        overlay_index: oi.0 as u16,
                                        alignment: (attr / 32) as u8,
                                        combine: ((attr / 4) % 8) as u8,
                                        big,
                                        use32: attr % 2 == 1,
                                        declared_len: if big {
                                            if is32 {
                                                0x1_0000_0000u64
                                            } else {
                                                0x1_0000u64
                                            }
                                        } else {
                                            raw_len as u64
                                        },
                                        executable: spec_is_code_class(r2.0),
                                        comdat: false,
                                        chunks: Seq::<SpecSectionData>::empty(),
                                        fixups: Seq::<crate::section::OmfRelocation>::empty(),
                                    };
                                    let st3 = r3.1;
                                    Ok(
                                        SpecState {
                                            m: SpecModule {
                                                segments: st3.m.segments.push(seg),
                                                ..st3.m
                                            },
                                            ..st3
                                        },
                                    )
                                },
                            },
                        },
                    },
                },
            },
        }
    }
}

/// GRPDEF entries: `0xFF`-tagged entries contribute segment indices
/// (checked against the declared segments); other tags are reserved and
/// their index is skipped.
pub open spec fn spec_grpdef_entries(
    st: SpecState,
    body: Seq<u8>,
    p: int,
    acc: Seq<u16>,
    strict: bool,
    off: usize,
) -> Result<(Seq<u16>, SpecState), OmfErrorKind>
    decreases body.len() - p,
    via spec_grpdef_entries_dec
{
    if p < 0 || p >= body.len() {
        Ok((acc, st))
    } else {
        let kind = body[p];
        match spec_index(body, p + 1) {
            None => Err(OmfErrorKind::Truncated),
            Some(e) => {
                if kind == 0xFF {
                    if e.0 > st.m.segments.len() {
                        if strict {
                            Err(OmfErrorKind::IndexOutOfRange)
                        } else {
                            spec_grpdef_entries(
                                spec_diag(st, OmfErrorKind::IndexOutOfRange, off),
                                body,
                                e.1,
                                acc,
                                strict,
                                off,
                            )
                        }
                    } else {
                        spec_grpdef_entries(st, body, e.1, acc.push(e.0 as u16), strict, off)
                    }
                } else {
                    spec_grpdef_entries(st, body, e.1, acc, strict, off)
                }
            },
        }
    }
}

#[via_fn]
proof fn spec_grpdef_entries_dec(
    st: SpecState,
    body: Seq<u8>,
    p: int,
    acc: Seq<u16>,
    strict: bool,
    off: usize,
) {
    if 0 <= p < body.len() {
        crate::prims::lemma_index_advances(body, p + 1);
    }
}

/// GRPDEF: the group name index, then tagged entries.
pub open spec fn spec_grpdef(st: SpecState, body: Seq<u8>, strict: bool, off: usize) -> Result<
    SpecState,
    OmfErrorKind,
> {
    match spec_index(body, 0) {
        None => Err(OmfErrorKind::Truncated),
        Some(gi) => match spec_lookup_step(st, gi.0, strict, off) {
            Err(e) => Err(e),
            Ok(r1) => match spec_grpdef_entries(r1.1, body, gi.1, Seq::<u16>::empty(), strict, off) {
                Err(e) => Err(e),
                Ok(r2) => {
                    let g = SpecGroup {
                        name: r1.0,
                        name_index: gi.0 as u16,
                        segment_indices: r2.0,
                    };
                    let st2 = r2.1;
                    Ok(
                        SpecState {
                            m: SpecModule { groups: st2.m.groups.push(g), ..st2.m },
                            ..st2
                        },
                    )
                },
            },
        },
    }
}

/// EXTDEF and LEXTDEF entries: a name and a type index each; every
/// entry appends one undefined external symbol.
pub open spec fn spec_extdef(st: SpecState, body: Seq<u8>, p: int) -> Result<
    SpecState,
    OmfErrorKind,
>
    decreases body.len() - p,
    via spec_extdef_dec
{
    if p < 0 || p >= body.len() {
        Ok(st)
    } else {
        match spec_name(body, p) {
            None => Err(OmfErrorKind::Truncated),
            Some(nm) => match spec_index(body, nm.1) {
                None => Err(OmfErrorKind::Truncated),
                Some(ti) => {
                    let sym = SpecSymbol {
                        index: st.m.symbols.len() as int,
                        name: nm.0,
                        scope: OmfSymbolScope::External,
                        segment: 0u16,
                        offset: 0u32,
                    };
                    spec_extdef(
                        SpecState {
                            m: SpecModule { symbols: st.m.symbols.push(sym), ..st.m },
                            ..st
                        },
                        body,
                        ti.1,
                    )
                },
            },
        }
    }
}

#[via_fn]
proof fn spec_extdef_dec(st: SpecState, body: Seq<u8>, p: int) {
    if 0 <= p < body.len() {
        crate::prims::lemma_name_advances(body, p);
        match spec_name(body, p) {
            Some(nm) => crate::prims::lemma_index_advances(body, nm.1),
            None => {},
        }
    }
}

/// PUBDEF entries: a name, an offset and a type index each; every
/// entry appends one public symbol bound to the record's segment.
pub open spec fn spec_pubdef_entries(
    st: SpecState,
    body: Seq<u8>,
    p: int,
    seg: u16,
    is32: bool,
) -> Result<SpecState, OmfErrorKind>
    decreases body.len() - p,
    via spec_pubdef_entries_dec
{
    if p < 0 || p >= body.len() {
        Ok(st)
    } else {
        let width: int = if is32 {
            4
        } else {
            2
        };
        match spec_name(body, p) {
            None => Err(OmfErrorKind::Truncated),
            Some(nm) => {
                if nm.1 + width > body.len() {
                    Err(OmfErrorKind::Truncated)
                } else {
                    let offset: int = if is32 {
                        spec_le32(body, nm.1)
                    } else {
                        spec_le16(body, nm.1)
                    };
                    match spec_index(body, nm.1 + width) {
                        None => Err(OmfErrorKind::Truncated),
                        Some(ti) => {
                            let sym = SpecSymbol {
                                index: st.m.symbols.len() as int,
                                name: nm.0,
                                scope: OmfSymbolScope::Public,
                                segment: seg,
                                offset: offset as u32,
                            };
                            spec_pubdef_entries(
                                SpecState {
                                    m: SpecModule { symbols: st.m.symbols.push(sym), ..st.m },
                                    ..st
                                },
                                body,
                                ti.1,
                                seg,
                                is32,
                            )
                        },
                    }
                }
            },
        }
    }
}

#[via_fn]
proof fn spec_pubdef_entries_dec(st: SpecState, body: Seq<u8>, p: int, seg: u16, is32: bool) {
    if 0 <= p < body.len() {
        crate::prims::lemma_name_advances(body, p);
        match spec_name(body, p) {
            Some(nm) => {
                let width: int = if is32 {
                    4
                } else {
                    2
                };
                crate::prims::lemma_index_advances(body, nm.1 + width);
            },
            None => {},
        }
    }
}

/// PUBDEF and LPUBDEF: a group index, a segment index (with a base
/// frame word when the segment is 0), then the entries.  A segment
/// index past the declared segments is fatal in strict mode and binds
/// the symbols as unbound (0) with a diagnostic in tolerant mode.
pub open spec fn spec_pubdef(
    st: SpecState,
    body: Seq<u8>,
    is32: bool,
    strict: bool,
    off: usize,
) -> Result<SpecState, OmfErrorKind> {
    match spec_index(body, 0) {
        None => Err(OmfErrorKind::Truncated),
        Some(gi) => match spec_index(body, gi.1) {
            None => Err(OmfErrorKind::Truncated),
            Some(si) => {
                let p3: int = if si.0 == 0 {
                    si.1 + 2
                } else {
                    si.1
                };
                if p3 > body.len() {
                    Err(OmfErrorKind::Truncated)
                } else {
                    if si.0 > st.m.segments.len() {
                        if strict {
                            Err(OmfErrorKind::IndexOutOfRange)
                        } else {
                            spec_pubdef_entries(
                                spec_diag(st, OmfErrorKind::IndexOutOfRange, off),
                                body,
                                p3,
                                0u16,
                                is32,
                            )
                        }
                    } else {
                        spec_pubdef_entries(st, body, p3, si.0 as u16, is32)
                    }
                }
            },
        },
    }
}

/// The error a failed variable-length number denotes: an unsupported
/// prefix, or truncation.
pub open spec fn spec_varnum_err(b: Seq<u8>, p: int) -> OmfErrorKind {
    if p < b.len() && !spec_varnum_prefix_ok(b[p]) {
        OmfErrorKind::UnsupportedVariant
    } else {
        OmfErrorKind::Truncated
    }
}

/// COMDEF entries: a name, a type index, a data type byte, then one
/// variable-length length (near, 0x61) or two (far, 0x62).  Every entry
/// appends one common block and one common symbol.  Another data type
/// is fatal in strict mode; tolerant mode notes it and skips the rest
/// of the record.
pub open spec fn spec_comdef(
    st: SpecState,
    body: Seq<u8>,
    p: int,
    is32: bool,
    strict: bool,
    off: usize,
) -> Result<SpecState, OmfErrorKind>
    decreases body.len() - p,
    via spec_comdef_dec
{
    if p < 0 || p >= body.len() {
        Ok(st)
    } else {
        match spec_name(body, p) {
            None => Err(OmfErrorKind::Truncated),
            Some(nm) => match spec_index(body, nm.1) {
                None => Err(OmfErrorKind::Truncated),
                Some(ti) => {
                    if ti.1 >= body.len() {
                        Err(OmfErrorKind::Truncated)
                    } else {
                        let dt = body[ti.1];
                        if dt == 0x61 {
                            match spec_varnum(body, ti.1 + 1) {
                                None => Err(spec_varnum_err(body, ti.1 + 1)),
                                Some(n) => spec_comdef(
                                    spec_push_common(st, nm.0, n.0 as u32, 1u32, false, is32),
                                    body,
                                    n.1,
                                    is32,
                                    strict,
                                    off,
                                ),
                            }
                        } else if dt == 0x62 {
                            match spec_varnum(body, ti.1 + 1) {
                                None => Err(spec_varnum_err(body, ti.1 + 1)),
                                Some(cnt) => match spec_varnum(body, cnt.1) {
                                    None => Err(spec_varnum_err(body, cnt.1)),
                                    Some(sz) => spec_comdef(
                                        spec_push_common(
                                            st,
                                            nm.0,
                                            sz.0 as u32,
                                            cnt.0 as u32,
                                            true,
                                            is32,
                                        ),
                                        body,
                                        sz.1,
                                        is32,
                                        strict,
                                        off,
                                    ),
                                },
                            }
                        } else {
                            spec_tolerate(st, OmfErrorKind::UnsupportedVariant, strict, off)
                        }
                    }
                },
            },
        }
    }
}

/// One common block and its symbol appended to the module.
pub open spec fn spec_push_common(
    st: SpecState,
    name: Seq<u8>,
    elem_size: u32,
    elem_count: u32,
    is_far: bool,
    is_32bit: bool,
) -> SpecState {
    let c = SpecCommon { name, elem_size, elem_count, is_far, is_32bit };
    let sym = SpecSymbol {
        index: st.m.symbols.len() as int,
        name,
        scope: OmfSymbolScope::Common,
        segment: 0u16,
        offset: 0u32,
    };
    SpecState {
        m: SpecModule {
            commons: st.m.commons.push(c),
            symbols: st.m.symbols.push(sym),
            ..st.m
        },
        ..st
    }
}

#[via_fn]
proof fn spec_comdef_dec(
    st: SpecState,
    body: Seq<u8>,
    p: int,
    is32: bool,
    strict: bool,
    off: usize,
) {
    if 0 <= p < body.len() {
        crate::prims::lemma_name_advances(body, p);
        match spec_name(body, p) {
            Some(nm) => {
                crate::prims::lemma_index_advances(body, nm.1);
                match spec_index(body, nm.1) {
                    Some(ti) => {
                        crate::prims::lemma_varnum_advances(body, ti.1 + 1);
                        match spec_varnum(body, ti.1 + 1) {
                            Some(cnt) => {
                                crate::prims::lemma_varnum_advances(body, cnt.1);
                            },
                            None => {},
                        }
                    },
                    None => {},
                }
            },
            None => {},
        }
    }
}

/// LEDATA and LIDATA: a segment index, a data offset, then the bytes.
/// The chunk attaches to the named segment and becomes the current data
/// for following FIXUPP records.  A segment index of 0 or past the
/// declared segments is fatal in strict mode and skips the record with
/// a diagnostic in tolerant mode.
pub open spec fn spec_data_record(
    st: SpecState,
    body: Seq<u8>,
    is32: bool,
    iterated: bool,
    strict: bool,
    off: usize,
) -> Result<SpecState, OmfErrorKind> {
    match spec_index(body, 0) {
        None => Err(OmfErrorKind::Truncated),
        Some(si) => {
            let width: int = if is32 {
                4
            } else {
                2
            };
            if si.1 + width > body.len() {
                Err(OmfErrorKind::Truncated)
            } else {
                let doff: int = if is32 {
                    spec_le32(body, si.1)
                } else {
                    spec_le16(body, si.1)
                };
                let data = body.subrange(si.1 + width, body.len() as int);
                if si.0 == 0 || si.0 > st.m.segments.len() {
                    spec_tolerate(st, OmfErrorKind::IndexOutOfRange, strict, off)
                } else {
                    let sidx = si.0 - 1;
                    let chunk = if iterated {
                        SpecSectionData::Lidata { offset: doff as u32, raw: data }
                    } else {
                        SpecSectionData::Ledata { offset: doff as u32, data }
                    };
                    let seg = st.m.segments[sidx];
                    let seg2 = SpecSegment { chunks: seg.chunks.push(chunk), ..seg };
                    Ok(
                        SpecState {
                            m: SpecModule {
                                segments: st.m.segments.update(sidx, seg2),
                                ..st.m
                            },
                            cur_data: Some((sidx, doff as u32)),
                            ..st
                        },
                    )
                }
            }
        },
    }
}

/// One FIXUPP subrecord applied to the parser state: thread subrecords
/// update the thread slots; fixup subrecords resolve against them and
/// attach one relocation to the segment of the current data chunk.
/// `Err` carries the fatal error of strict mode; in tolerant mode the
/// subrecord is skipped with a diagnostic.
pub open spec fn spec_fixupp_step(
    st: SpecState,
    f: OmfFixup,
    strict: bool,
    off: usize,
) -> Result<SpecState, OmfErrorKind> {
    match f {
        OmfFixup::FrameThread { .. } => Ok(
            SpecState { threads: spec_apply_thread(st.threads, f), ..st },
        ),
        OmfFixup::TargetThread { .. } => Ok(
            SpecState { threads: spec_apply_thread(st.threads, f), ..st },
        ),
        OmfFixup::Fixup { .. } => match st.cur_data {
            None => spec_tolerate(st, OmfErrorKind::MalformedFixup, strict, off),
            Some(cd) => {
                if !(0 <= cd.0 < st.m.segments.len()) {
                    spec_tolerate(st, OmfErrorKind::MalformedFixup, strict, off)
                } else {
                    match spec_resolve_fixup(f, st.threads, cd.1) {
                        None => spec_tolerate(st, OmfErrorKind::MalformedFixup, strict, off),
                        Some(r) => {
                            if !spec_reloc_in_bounds(r, st.m.segments.len() as int) {
                                spec_tolerate(st, OmfErrorKind::IndexOutOfRange, strict, off)
                            } else {
                                let seg = st.m.segments[cd.0];
                                let seg2 = SpecSegment { fixups: seg.fixups.push(r), ..seg };
                                Ok(
                                    SpecState {
                                        m: SpecModule {
                                            segments: st.m.segments.update(cd.0, seg2),
                                            ..st.m
                                        },
                                        ..st
                                    },
                                )
                            }
                        },
                    }
                }
            },
        },
    }
}

/// The decoded subrecords of a FIXUPP body applied in order.
pub open spec fn spec_fixupp_fold(
    st: SpecState,
    subs: Seq<OmfFixup>,
    i: int,
    strict: bool,
    off: usize,
) -> Result<SpecState, OmfErrorKind>
    decreases subs.len() - i,
{
    if i < 0 || i >= subs.len() {
        Ok(st)
    } else {
        match spec_fixupp_step(st, subs[i], strict, off) {
            Err(e) => Err(e),
            Ok(st2) => spec_fixupp_fold(st2, subs, i + 1, strict, off),
        }
    }
}

/// FIXUPP: decode the subrecords, apply them in order; a malformed
/// tail is fatal in strict mode and noted in tolerant mode.
pub open spec fn spec_fixupp(st: SpecState, body: Seq<u8>, strict: bool, off: usize) -> Result<
    SpecState,
    OmfErrorKind,
> {
    let decoded = spec_fixups(body, 0);
    if decoded.1 && strict {
        Err(OmfErrorKind::MalformedFixup)
    } else {
        match spec_fixupp_fold(st, decoded.0, 0, strict, off) {
            Err(e) => Err(e),
            Ok(st2) => Ok(
                if decoded.1 {
                    spec_diag(st2, OmfErrorKind::MalformedFixup, off)
                } else {
                    st2
                },
            ),
        }
    }
}

/// COMENT: tag the comment with its class and optional subtype and
/// keep the payload verbatim; a body too short for the two leading
/// bytes is skipped.
pub open spec fn spec_coment(st: SpecState, body: Seq<u8>) -> SpecState {
    if body.len() < 2 {
        st
    } else {
        let class = body[1];
        let with_sub = spec_class_has_subtype(class) && body.len() >= 3;
        let cm = SpecTaggedComment {
            class: spec_comment_class(class),
            subtype: if with_sub {
                Some(body[2])
            } else {
                None
            },
            data: if with_sub {
                body.subrange(3, body.len() as int)
            } else {
                body.subrange(2, body.len() as int)
            },
            raw: body,
        };
        SpecState { m: SpecModule { comments: st.m.comments.push(cm), ..st.m }, ..st }
    }
}

/// MODEND: note the main-module bit, decode the optional start-address
/// locator, and end the parse.
pub open spec fn spec_modend(st: SpecState, body: Seq<u8>, is32: bool) -> Result<
    SpecState,
    OmfErrorKind,
> {
    if body.len() < 1 {
        Err(OmfErrorKind::Truncated)
    } else {
        let t = body[0];
        let main = t / 128 == 1;
        let has_start = (t / 64) % 2 == 1;
        if !has_start {
            Ok(
                SpecState {
                    m: SpecModule { main_module: main, modend_seen: true, ..st.m },
                    done: true,
                    ..st
                },
            )
        } else if body.len() < 2 {
            Err(OmfErrorKind::Truncated)
        } else {
            let fm = body[1];
            match spec_index(body, 2) {
                None => Err(OmfErrorKind::Truncated),
                Some(d) => {
                    let width: int = if is32 {
                        4
                    } else {
                        2
                    };
                    if d.1 + width > body.len() {
                        Err(OmfErrorKind::Truncated)
                    } else {
                        let o: int = if is32 {
                            spec_le32(body, d.1)
                        } else {
                            spec_le16(body, d.1)
                        };
                        let e = OmfEntryPoint {
                            frame_method: fm,
                            datum: d.0 as u16,
                            offset: o as u32,
                        };
                        Ok(
                            SpecState {
                                m: SpecModule {
                                    main_module: main,
                                    modend_seen: true,
                                    entry_point: Some(e),
                                    ..st.m
                                },
                                done: true,
                                ..st
                            },
                        )
                    }
                },
            }
        }
    }
}

/// COMDAT: decode the header, then either extend the previous fragment
/// (continuation bit), attach bytes to a declared segment (explicit
/// allocation), or synthesise a segment for the inline bytes (implicit
/// allocation).
pub open spec fn spec_comdat(
    st: SpecState,
    body: Seq<u8>,
    is32: bool,
    strict: bool,
    off: usize,
) -> Result<SpecState, OmfErrorKind> {
    if body.len() < 3 {
        spec_tolerate(st, OmfErrorKind::MalformedComdat, strict, off)
    } else {
        let flags = body[0];
        let attrs = body[1];
        let continuation = flags % 2 == 1;
        let alloc = (attrs % 16) as u8;
        let width: int = if is32 {
            4
        } else {
            2
        };
        if 3 + width > body.len() {
            spec_tolerate(st, OmfErrorKind::MalformedComdat, strict, off)
        } else {
            let offv: int = if is32 {
                spec_le32(body, 3)
            } else {
                spec_le16(body, 3)
            };
            match spec_index(body, 3 + width) {
                None => spec_tolerate(st, OmfErrorKind::MalformedComdat, strict, off),
                Some(ti) => {
                    if alloc == 0 {
                        spec_comdat_explicit(
                            st,
                            body,
                            ti.1,
                            flags,
                            alloc,
                            continuation,
                            offv as u32,
                            strict,
                            off,
                        )
                    } else if alloc <= 3 {
                        spec_comdat_implicit(
                            st,
                            body,
                            ti.1,
                            flags,
                            alloc,
                            continuation,
                            offv as u32,
                            is32,
                            strict,
                            off,
                        )
                    } else {
                        spec_tolerate(st, OmfErrorKind::UnsupportedVariant, strict, off)
                    }
                },
            }
        }
    }
}

/// The explicit-allocation arm of COMDAT: a public base (group index,
/// segment index, and a base frame word when the segment is 0) and a
/// name index precede the bytes.
pub open spec fn spec_comdat_explicit(
    st: SpecState,
    body: Seq<u8>,
    p: int,
    flags: u8,
    alloc: u8,
    continuation: bool,
    offv: u32,
    strict: bool,
    off: usize,
) -> Result<SpecState, OmfErrorKind> {
    match spec_index(body, p) {
        None => spec_tolerate(st, OmfErrorKind::MalformedComdat, strict, off),
        Some(gi) => match spec_index(body, gi.1) {
            None => spec_tolerate(st, OmfErrorKind::MalformedComdat, strict, off),
            Some(si) => {
                let p5: int = if si.0 == 0 {
                    si.1 + 2
                } else {
                    si.1
                };
                if p5 > body.len() {
                    spec_tolerate(st, OmfErrorKind::MalformedComdat, strict, off)
                } else {
                    match spec_index(body, p5) {
                        None => spec_tolerate(st, OmfErrorKind::MalformedComdat, strict, off),
                        Some(ni) => {
                            let data = body.subrange(ni.1, body.len() as int);
                            match spec_lookup_step(st, ni.0, strict, off) {
                                Err(e) => Err(e),
                                Ok(r1) => {
                                    let st1 = r1.1;
                                    if continuation {
                                        spec_comdat_continue(st1, data, strict, off)
                                    } else if si.0 > st1.m.segments.len() {
                                        spec_tolerate(
                                            st1,
                                            OmfErrorKind::IndexOutOfRange,
                                            strict,
                                            off,
                                        )
                                    } else if si.0 == 0 {
                                        Ok(
                                            spec_push_comdat(
                                                st1,
                                                r1.0,
                                                ni.0 as u16,
                                                flags,
                                                alloc,
                                                0u16,
                                                offv,
                                                None,
                                                data,
                                            ),
                                        )
                                    } else {
                                        let sidx = si.0 - 1;
                                        let seg = st1.m.segments[sidx];
                                        let seg2 = SpecSegment {
                                            chunks: seg.chunks.push(
                                                SpecSectionData::Comdat { offset: offv, data },
                                            ),
                                            ..seg
                                        };
                                        let st2 = SpecState {
                                            m: SpecModule {
                                                segments: st1.m.segments.update(sidx, seg2),
                                                ..st1.m
                                            },
                                            ..st1
                                        };
                                        Ok(
                                            spec_push_comdat(
                                                st2,
                                                r1.0,
                                                ni.0 as u16,
                                                flags,
                                                alloc,
                                                si.0 as u16,
                                                offv,
                                                Some(seg.name),
                                                data,
                                            ),
                                        )
                                    }
                                },
                            }
                        },
                    }
                }
            },
        },
    }
}

/// The implicit-allocation arm of COMDAT (vendor flavours 1..3): only a
/// name index precedes the bytes; a dedicated segment named after the
/// fragment is synthesised to hold them.
pub open spec fn spec_comdat_implicit(
    st: SpecState,
    body: Seq<u8>,
    p: int,
    flags: u8,
    alloc: u8,
    continuation: bool,
    offv: u32,
    is32: bool,
    strict: bool,
    off: usize,
) -> Result<SpecState, OmfErrorKind> {
    match spec_index(body, p) {
        None => spec_tolerate(st, OmfErrorKind::MalformedComdat, strict, off),
        Some(ni) => {
            let data = body.subrange(ni.1, body.len() as int);
            match spec_lookup_step(st, ni.0, strict, off) {
                Err(e) => Err(e),
                Ok(r1) => {
                    let st1 = r1.1;
                    if continuation {
                        spec_comdat_continue(st1, data, strict, off)
                    } else if st1.m.segments.len() >= 0xFFFF {
                        spec_tolerate(st1, OmfErrorKind::UnsupportedVariant, strict, off)
                    } else {
                        let seg = SpecSegment {
                            name: r1.0,
                            name_index: ni.0 as u16,
                            class_name: Seq::<u8>::empty(),
                            class_index: 0u16,
                            overlay_index: 0u16,
                            alignment: 0u8,
                            combine: 0u8,
                            big: false,
                            use32: is32,
                            declared_len: (offv + data.len()) as u64,
                            executable: false,
                            comdat: true,
                            chunks: seq![SpecSectionData::Comdat { offset: offv, data }],
                            fixups: Seq::<crate::section::OmfRelocation>::empty(),
                        };
                        let st2 = SpecState {
                            m: SpecModule { segments: st1.m.segments.push(seg), ..st1.m },
                            ..st1
                        };
                        Ok(
                            spec_push_comdat(
                                st2,
                                r1.0,
                                ni.0 as u16,
                                flags,
                                alloc,
                                st2.m.segments.len() as u16,
                                offv,
                                Some(r1.0),
                                data,
                            ),
                        )
                    }
                },
            }
        },
    }
}

/// A continuation COMDAT concatenates its bytes onto the most recent
/// fragment; with no fragment to extend it is malformed.
pub open spec fn spec_comdat_continue(
    st: SpecState,
    data: Seq<u8>,
    strict: bool,
    off: usize,
) -> Result<SpecState, OmfErrorKind> {
    if st.m.comdats.len() == 0 {
        spec_tolerate(st, OmfErrorKind::MalformedComdat, strict, off)
    } else {
        let last = st.m.comdats.last();
        let last2 = crate::module::SpecComdat {
            data: match last.data {
                Some(d) => Some(d + data),
                None => Some(data),
            },
            ..last
        };
        Ok(
            SpecState {
                m: SpecModule {
                    comdats: st.m.comdats.update(st.m.comdats.len() - 1, last2),
                    ..st.m
                },
                ..st
            },
        )
    }
}

/// One COMDAT fragment appended to the module.
pub open spec fn spec_push_comdat(
    st: SpecState,
    name: Seq<u8>,
    name_index: u16,
    flags: u8,
    alloc: u8,
    segment_index: u16,
    offset: u32,
    segment_name: Option<Seq<u8>>,
    data: Seq<u8>,
) -> SpecState {
    let c = crate::module::SpecComdat {
        name,
        name_index,
        selection: flags,
        alloc,
        segment_index,
        offset,
        segment_name,
        data: Some(data),
    };
    SpecState { m: SpecModule { comdats: st.m.comdats.push(c), ..st.m }, ..st }
}

/// One record dispatched to its handler.  Opcodes inside the OMF range
/// with no handler are skipped silently; an opcode below the range is
/// unknown: fatal in strict mode, noted in tolerant mode.
pub open spec fn spec_step(
    st: SpecState,
    rec: u8,
    body: Seq<u8>,
    strict: bool,
    off: usize,
) -> Result<SpecState, OmfErrorKind> {
    if rec == consts::THEADR {
        spec_theadr(st, body)
    } else if rec == consts::COMENT {
        Ok(spec_coment(st, body))
    } else if rec == consts::MODEND || rec == consts::MODEND32 {
        spec_modend(st, body, rec == consts::MODEND32)
    } else if rec == consts::EXTDEF || rec == consts::LEXTDEF {
        spec_extdef(st, body, 0)
    } else if rec == consts::PUBDEF || rec == consts::PUBDEF32 || rec == consts::LPUBDEF || rec
        == consts::LPUBDEF32 {
        spec_pubdef(st, body, rec == consts::PUBDEF32 || rec == consts::LPUBDEF32, strict, off)
    } else if rec == consts::LNAMES {
        spec_lnames(st, body, 0)
    } else if rec == consts::SEGDEF || rec == consts::SEGDEF32 {
        spec_segdef(st, body, rec == consts::SEGDEF32, strict, off)
    } else if rec == consts::GRPDEF {
        spec_grpdef(st, body, strict, off)
    } else if rec == consts::FIXUPP {
        spec_fixupp(st, body, strict, off)
    } else if rec == consts::LEDATA || rec == consts::LEDATA32 {
        spec_data_record(st, body, rec == consts::LEDATA32, false, strict, off)
    } else if rec == consts::LIDATA || rec == consts::LIDATA32 {
        spec_data_record(st, body, rec == consts::LIDATA32, true, strict, off)
    } else if rec == consts::COMDEF || rec == consts::COMDEF32 {
        spec_comdef(st, body, 0, rec == consts::COMDEF32, strict, off)
    } else if rec == consts::COMDAT || rec == consts::COMDAT32 {
        spec_comdat(st, body, rec == consts::COMDAT32, strict, off)
    } else if rec >= consts::OMF_RANGE_LO {
        Ok(st)
    } else {
        if strict {
            Err(OmfErrorKind::UnknownRecord(rec))
        } else {
            Ok(spec_diag(st, OmfErrorKind::UnknownRecord(rec), off))
        }
    }
}

/// The module a finished parse returns: the state's module with the
/// framer's final position recorded.
pub open spec fn spec_finish(st: SpecState, p: int) -> SpecModule {
    SpecModule { bytes_consumed: p, ..st.m }
}

/// Runs the framer from `p`: records are `[type][len:u16][body][1-byte
/// checksum]` with `len` counting the checksum; a record past the
/// buffer end, a zero length, or a 1- or 2-byte stub is `Truncated`.
/// Parsing ends at MODEND or at the end of the buffer.
pub open spec fn spec_run(b: Seq<u8>, p: int, st: SpecState, strict: bool) -> Result<
    SpecModule,
    OmfParseError,
>
    decreases b.len() - p,
{
    if st.done || p < 0 || p >= b.len() {
        Ok(spec_finish(st, p))
    } else if p + 3 > b.len() {
        Err(OmfParseError { kind: OmfErrorKind::Truncated, offset: p as usize })
    } else {
        let rec = b[p];
        let len = spec_le16(b, p + 1);
        if len == 0 || p + 3 + len > b.len() {
            Err(OmfParseError { kind: OmfErrorKind::Truncated, offset: p as usize })
        } else {
            let body = b.subrange(p + 3, p + 3 + len - 1);
            match spec_step(st, rec, body, strict, p as usize) {
                Err(kind) => Err(OmfParseError { kind, offset: p as usize }),
                Ok(st2) => spec_run(b, p + 3 + len, st2, strict),
            }
        }
    }
}

/// The parse of a whole buffer: the framer run from the start on the
/// empty module.
pub open spec fn spec_parse(b: Seq<u8>, strict: bool) -> Result<SpecModule, OmfParseError> {
    spec_run(b, 0, spec_init_state(), strict)
}

} // verus!

// What follows is the executable parser, proved equal to the
// specification above.



verus! {

/// The executable parser state: the module under construction plus the
/// cross-record cursors.
struct Builder {
    file: OmfFile,
    threads: ThreadState,
    cur_data: Option<(usize, u32)>,
    done: bool,
}

/// The parser state a builder denotes.
spec fn bview(b: Builder) -> SpecState {
    SpecState {
        m: b.file@,
        threads: b.threads,
        cur_data: match b.cur_data {
            Some(cd) => Some((cd.0 as int, cd.1)),
            None => None,
        },
        done: b.done,
    }
}

impl Builder {
    /// A fresh builder denoting the initial parser state.
    fn new() -> (r: Builder)
        ensures
            bview(r) == spec_init_state(),
    {
        let b = Builder {
            file: OmfFile {
                module_name: None,
                lnames: Vec::new(),
                segments: Vec::new(),
                symbols: Vec::new(),
                groups: Vec::new(),
                comdats: Vec::new(),
                commons: Vec::new(),
                comments: Vec::new(),
                entry_point: None,
                main_module: false,
                modend_seen: false,
                bytes_consumed: 0,
                diagnostics: Vec::new(),
            },
            threads: ThreadState::new(),
            cur_data: None,
            done: false,
        };
        proof {
            assert(bview(b).m =~= spec_init_module());
            assert(bview(b) =~= spec_init_state());
        }
        b
    }

    /// Notes a tolerated condition on the module.
    fn push_diag(&mut self, kind: OmfErrorKind, off: usize)
        ensures
            bview(*final(self)) == spec_diag(bview(*old(self)), kind, off),
    {
        self.file.diagnostics.push(OmfDiagnostic { kind, offset: off });
        proof {
            assert(bview(*self).m =~= spec_diag(bview(*old(self)), kind, off).m);
            assert(bview(*self) =~= spec_diag(bview(*old(self)), kind, off));
        }
    }

    /// Records the THEADR module name.
    fn set_module_name(&mut self, n: Vec<u8>)
        ensures
            bview(*final(self)) == (SpecState {
                m: SpecModule { module_name: Some(n@), ..bview(*old(self)).m },
                ..bview(*old(self))
            }),
    {
        let ghost target = SpecState {
            m: SpecModule { module_name: Some(n@), ..bview(*old(self)).m },
            ..bview(*old(self))
        };
        self.file.module_name = Some(n);
        proof {
            assert(bview(*self).m =~= target.m);
            assert(bview(*self) =~= target);
        }
    }

    /// Appends one name to the name table.
    fn push_lname(&mut self, n: Vec<u8>)
        ensures
            bview(*final(self)) == (SpecState {
                m: SpecModule { lnames: bview(*old(self)).m.lnames.push(n@), ..bview(*old(self)).m },
                ..bview(*old(self))
            }),
    {
        let ghost target = SpecState {
            m: SpecModule { lnames: bview(*old(self)).m.lnames.push(n@), ..bview(*old(self)).m },
            ..bview(*old(self))
        };
        proof {
            crate::module::lemma_views_of_push(self.file.lnames@, n);
        }
        self.file.lnames.push(n);
        proof {
            assert(bview(*self).m =~= target.m);
            assert(bview(*self) =~= target);
        }
    }

    /// Appends one declared segment.
    fn push_segment(&mut self, s: OmfSegment)
        ensures
            bview(*final(self)) == (SpecState {
                m: SpecModule { segments: bview(*old(self)).m.segments.push(s@), ..bview(*old(self)).m },
                ..bview(*old(self))
            }),
    {
        let ghost target = SpecState {
            m: SpecModule { segments: bview(*old(self)).m.segments.push(s@), ..bview(*old(self)).m },
            ..bview(*old(self))
        };
        proof {
            crate::module::lemma_views_of_push(self.file.segments@, s);
        }
        self.file.segments.push(s);
        proof {
            assert(bview(*self).m =~= target.m);
            assert(bview(*self) =~= target);
        }
    }

    /// Appends one symbol.
    fn push_symbol(&mut self, s: crate::symbol::OmfSymbol)
        ensures
            bview(*final(self)) == (SpecState {
                m: SpecModule { symbols: bview(*old(self)).m.symbols.push(s@), ..bview(*old(self)).m },
                ..bview(*old(self))
            }),
    {
        let ghost target = SpecState {
            m: SpecModule { symbols: bview(*old(self)).m.symbols.push(s@), ..bview(*old(self)).m },
            ..bview(*old(self))
        };
        proof {
            crate::module::lemma_views_of_push(self.file.symbols@, s);
        }
        self.file.symbols.push(s);
        proof {
            assert(bview(*self).m =~= target.m);
            assert(bview(*self) =~= target);
        }
    }

    /// Appends one group.
    fn push_group(&mut self, g: crate::module::OmfGroup)
        ensures
            bview(*final(self)) == (SpecState {
                m: SpecModule { groups: bview(*old(self)).m.groups.push(g@), ..bview(*old(self)).m },
                ..bview(*old(self))
            }),
    {
        let ghost target = SpecState {
            m: SpecModule { groups: bview(*old(self)).m.groups.push(g@), ..bview(*old(self)).m },
            ..bview(*old(self))
        };
        proof {
            crate::module::lemma_views_of_push(self.file.groups@, g);
        }
        self.file.groups.push(g);
        proof {
            assert(bview(*self).m =~= target.m);
            assert(bview(*self) =~= target);
        }
    }

    /// Appends one COMDAT fragment.
    fn push_comdat(&mut self, c: crate::module::OmfComdat)
        ensures
            bview(*final(self)) == (SpecState {
                m: SpecModule { comdats: bview(*old(self)).m.comdats.push(c@), ..bview(*old(self)).m },
                ..bview(*old(self))
            }),
    {
        let ghost target = SpecState {
            m: SpecModule { comdats: bview(*old(self)).m.comdats.push(c@), ..bview(*old(self)).m },
            ..bview(*old(self))
        };
        proof {
            crate::module::lemma_views_of_push(self.file.comdats@, c);
        }
        self.file.comdats.push(c);
        proof {
            assert(bview(*self).m =~= target.m);
            assert(bview(*self) =~= target);
        }
    }

    /// Appends one common block.
    fn push_common(&mut self, c: crate::module::OmfCommon)
        ensures
            bview(*final(self)) == (SpecState {
                m: SpecModule { commons: bview(*old(self)).m.commons.push(c@), ..bview(*old(self)).m },
                ..bview(*old(self))
            }),
    {
        let ghost target = SpecState {
            m: SpecModule { commons: bview(*old(self)).m.commons.push(c@), ..bview(*old(self)).m },
            ..bview(*old(self))
        };
        proof {
            crate::module::lemma_views_of_push(self.file.commons@, c);
        }
        self.file.commons.push(c);
        proof {
            assert(bview(*self).m =~= target.m);
            assert(bview(*self) =~= target);
        }
    }

    /// Appends one tagged comment.
    fn push_comment(&mut self, c: OmfComment)
        ensures
            bview(*final(self)) == (SpecState {
                m: SpecModule { comments: bview(*old(self)).m.comments.push(c@), ..bview(*old(self)).m },
                ..bview(*old(self))
            }),
    {
        let ghost target = SpecState {
            m: SpecModule { comments: bview(*old(self)).m.comments.push(c@), ..bview(*old(self)).m },
            ..bview(*old(self))
        };
        proof {
            crate::module::lemma_views_of_push(self.file.comments@, c);
        }
        self.file.comments.push(c);
        proof {
            assert(bview(*self).m =~= target.m);
            assert(bview(*self) =~= target);
        }
    }

    /// Appends a data chunk to segment `si` (0-based).
    fn push_chunk(&mut self, si: usize, c: OmfSectionData)
        requires
            si < bview(*old(self)).m.segments.len(),
        ensures
            bview(*final(self)) == (SpecState {
                m: SpecModule {
                    segments: bview(*old(self)).m.segments.update(
                        si as int,
                        (SpecSegment {
                            chunks: bview(*old(self)).m.segments[si as int].chunks.push(c@),
                            ..bview(*old(self)).m.segments[si as int]
                        }),
                    ),
                    ..bview(*old(self)).m
                },
                ..bview(*old(self))
            }),
    {
        let ghost target = SpecState {
            m: SpecModule {
                segments: bview(*old(self)).m.segments.update(
                    si as int,
                    (SpecSegment {
                        chunks: bview(*old(self)).m.segments[si as int].chunks.push(c@),
                        ..bview(*old(self)).m.segments[si as int]
                    }),
                ),
                ..bview(*old(self)).m
            },
            ..bview(*old(self))
        };
        proof {
            crate::module::lemma_views_of_push(self.file.segments@[si as int].chunks@, c);
        }
        self.file.segments[si].chunks.push(c);
        proof {
            assert forall|j: int| 0 <= j < self.file.segments@.len() implies views_of(
                self.file.segments@,
            )[j] == target.m.segments[j] by {}
            assert(views_of(self.file.segments@) =~= target.m.segments);
            assert(bview(*self).m =~= target.m);
            assert(bview(*self) =~= target);
        }
    }

    /// Appends a relocation to segment `si` (0-based).
    fn push_fixup(&mut self, si: usize, r: crate::section::OmfRelocation)
        requires
            si < bview(*old(self)).m.segments.len(),
        ensures
            bview(*final(self)) == (SpecState {
                m: SpecModule {
                    segments: bview(*old(self)).m.segments.update(
                        si as int,
                        (SpecSegment {
                            fixups: bview(*old(self)).m.segments[si as int].fixups.push(r),
                            ..bview(*old(self)).m.segments[si as int]
                        }),
                    ),
                    ..bview(*old(self)).m
                },
                ..bview(*old(self))
            }),
    {
        let ghost target = SpecState {
            m: SpecModule {
                segments: bview(*old(self)).m.segments.update(
                    si as int,
                    (SpecSegment {
                        fixups: bview(*old(self)).m.segments[si as int].fixups.push(r),
                        ..bview(*old(self)).m.segments[si as int]
                    }),
                ),
                ..bview(*old(self)).m
            },
            ..bview(*old(self))
        };
        self.file.segments[si].fixups.push(r);
        proof {
            assert forall|j: int| 0 <= j < self.file.segments@.len() implies views_of(
                self.file.segments@,
            )[j] == target.m.segments[j] by {}
            assert(views_of(self.file.segments@) =~= target.m.segments);
            assert(bview(*self).m =~= target.m);
            assert(bview(*self) =~= target);
        }
    }

    /// Binds the current data chunk for following FIXUPP records.
    fn set_cur_data(&mut self, si: usize, o: u32)
        ensures
            bview(*final(self)) == (SpecState { cur_data: Some((si as int, o)), ..bview(*old(self)) }),
    {
        self.cur_data = Some((si, o));
        proof {
            assert(bview(*self) =~= (SpecState { cur_data: Some((si as int, o)), ..bview(*old(self)) }));
        }
    }

    /// Concatenates continuation bytes onto the most recent fragment.
    fn append_comdat_data(&mut self, extra: Vec<u8>)
        requires
            bview(*old(self)).m.comdats.len() > 0,
        ensures
            bview(*final(self)) == (SpecState {
                m: SpecModule {
                    comdats: bview(*old(self)).m.comdats.update(
                        bview(*old(self)).m.comdats.len() - 1,
                        (crate::module::SpecComdat {
                            data: match bview(*old(self)).m.comdats.last().data {
                                Some(d) => Some(d + extra@),
                                None => Some(extra@),
                            },
                            ..bview(*old(self)).m.comdats.last()
                        }),
                    ),
                    ..bview(*old(self)).m
                },
                ..bview(*old(self))
            }),
    {
        let ghost target = SpecState {
            m: SpecModule {
                comdats: bview(*old(self)).m.comdats.update(
                    bview(*old(self)).m.comdats.len() - 1,
                    (crate::module::SpecComdat {
                        data: match bview(*old(self)).m.comdats.last().data {
                            Some(d) => Some(d + extra@),
                            None => Some(extra@),
                        },
                        ..bview(*old(self)).m.comdats.last()
                    }),
                ),
                ..bview(*old(self)).m
            },
            ..bview(*old(self))
        };
        let li: usize = self.file.comdats.len() - 1;
        let cur: &mut crate::module::OmfComdat = &mut self.file.comdats[li];
        match &mut cur.data {
            Some(d) => {
                crate::prims::append_bytes(d, &extra);
            },
            None => {
                cur.data = Some(extra);
            },
        }
        proof {
            assert forall|j: int| 0 <= j < self.file.comdats@.len() implies views_of(
                self.file.comdats@,
            )[j] == target.m.comdats[j] by {}
            assert(views_of(self.file.comdats@) =~= target.m.comdats);
            assert(bview(*self).m =~= target.m);
            assert(bview(*self) =~= target);
        }
    }

    /// Ends the module at MODEND without a start address.
    fn finish_modend_plain(&mut self, main: bool)
        ensures
            bview(*final(self)) == (SpecState {
                m: SpecModule { main_module: main, modend_seen: true, ..bview(*old(self)).m },
                done: true,
                ..bview(*old(self))
            }),
    {
        self.file.main_module = main;
        self.file.modend_seen = true;
        self.done = true;
        proof {
            assert(bview(*self).m =~= (SpecModule {
                main_module: main,
                modend_seen: true,
                ..bview(*old(self)).m
            }));
            assert(bview(*self) =~= (SpecState {
                m: SpecModule { main_module: main, modend_seen: true, ..bview(*old(self)).m },
                done: true,
                ..bview(*old(self))
            }));
        }
    }

    /// Ends the module at MODEND with a start address.
    fn finish_modend_entry(&mut self, main: bool, e: OmfEntryPoint)
        ensures
            bview(*final(self)) == (SpecState {
                m: SpecModule {
                    main_module: main,
                    modend_seen: true,
                    entry_point: Some(e),
                    ..bview(*old(self)).m
                },
                done: true,
                ..bview(*old(self))
            }),
    {
        self.file.main_module = main;
        self.file.modend_seen = true;
        self.file.entry_point = Some(e);
        self.done = true;
        proof {
            assert(bview(*self).m =~= (SpecModule {
                main_module: main,
                modend_seen: true,
                entry_point: Some(e),
                ..bview(*old(self)).m
            }));
            assert(bview(*self) =~= (SpecState {
                m: SpecModule {
                    main_module: main,
                    modend_seen: true,
                    entry_point: Some(e),
                    ..bview(*old(self)).m
                },
                done: true,
                ..bview(*old(self))
            }));
        }
    }
}

} // verus!

verus! {

/// In strict mode the condition is returned as fatal; in tolerant mode
/// it is noted on the module and the record is skipped.
fn tolerate(b: &mut Builder, kind: OmfErrorKind, strict: bool, off: usize) -> (r: Result<
    (),
    OmfErrorKind,
>)
    ensures
        match spec_tolerate(bview(*old(b)), kind, strict, off) {
            Ok(st) => r is Ok && bview(*final(b)) == st,
            Err(e) => (r matches Err(k) && k == e) && bview(*final(b)) == bview(*old(b)),
        },
{
    if strict {
        Err(kind)
    } else {
        b.push_diag(kind, off);
        Ok(())
    }
}

/// Resolves a name index against the builder's table; see
/// [`spec_lookup_step`].
fn lookup_name(b: &mut Builder, idx: u16, strict: bool, off: usize) -> (r: Result<
    Vec<u8>,
    OmfErrorKind,
>)
    ensures
        match spec_lookup_step(bview(*old(b)), idx as int, strict, off) {
            Ok(m) => (r matches Ok(n) && n@ == m.0) && bview(*final(b)) == m.1,
            Err(e) => (r matches Err(k) && k == e) && bview(*final(b)) == bview(*old(b)),
        },
{
    if idx == 0 {
        Ok(Vec::new())
    } else if idx as usize <= b.file.lnames.len() {
        let n: Vec<u8> = crate::module::clone_bytes(&b.file.lnames[idx as usize - 1]);
        Ok(n)
    } else if strict {
        Err(OmfErrorKind::IndexOutOfRange)
    } else {
        b.push_diag(OmfErrorKind::IndexOutOfRange, off);
        Ok(Vec::new())
    }
}

/// Returns whether a class name marks a segment as code.
fn is_code_class(name: &Vec<u8>) -> (r: bool)
    ensures
        r == spec_is_code_class(name@),
{
    let n: usize = name.len();
    if n >= 4 {
        let r: bool = name[n - 4] == 0x43 && name[n - 3] == 0x4F && name[n - 2] == 0x44 && name[n
            - 1] == 0x45;
        proof {
            if r {
                assert(name@.subrange(n - 4, n as int) =~= seq![0x43u8, 0x4Fu8, 0x44u8, 0x45u8]);
            } else {
                if name@.subrange(n - 4, n as int) == seq![0x43u8, 0x4Fu8, 0x44u8, 0x45u8] {
                    assert(name@[n - 4] == name@.subrange(n - 4, n as int)[0]);
                    assert(name@[n - 3] == name@.subrange(n - 4, n as int)[1]);
                    assert(name@[n - 2] == name@.subrange(n - 4, n as int)[2]);
                    assert(name@[n - 1] == name@.subrange(n - 4, n as int)[3]);
                }
            }
        }
        r
    } else {
        false
    }
}

/// THEADR: record the module's source name.
fn h_theadr(b: &mut Builder, body: &[u8]) -> (r: Result<(), OmfErrorKind>)
    ensures
        match spec_theadr(bview(*old(b)), body@) {
            Ok(st) => r is Ok && bview(*final(b)) == st,
            Err(e) => r matches Err(k) && k == e,
        },
{
    match crate::prims::read_name(body, 0) {
        None => Err(OmfErrorKind::Truncated),
        Some(v) => {
            b.set_module_name(v.0);
            Ok(())
        },
    }
}

/// LNAMES: append every name in the body.
#[verifier::loop_isolation(false)]
fn h_lnames(b: &mut Builder, body: &[u8]) -> (r: Result<(), OmfErrorKind>)
    ensures
        match spec_lnames(bview(*old(b)), body@, 0) {
            Ok(st) => r is Ok && bview(*final(b)) == st,
            Err(e) => r matches Err(k) && k == e,
        },
{
    let ghost st0 = bview(*b);
    let mut p: usize = 0;
    while p < body.len()
        invariant
            0 <= p <= body@.len(),
            spec_lnames(st0, body@, 0) == spec_lnames(bview(*b), body@, p as int),
        decreases body@.len() - p,
    {
        match crate::prims::read_name(body, p) {
            None => {
                return Err(OmfErrorKind::Truncated);
            },
            Some(v) => {
                b.push_lname(v.0);
                p = v.1;
            },
        }
    }
    Ok(())
}

/// COMENT: tag and store the comment.
fn h_coment(b: &mut Builder, body: &[u8])
    ensures
        bview(*final(b)) == spec_coment(bview(*old(b)), body@),
{
    if body.len() < 2 {
        return ;
    }
    let class: u8 = body[1];
    let with_sub: bool = crate::module::is_known_subtyped_class(class) && body.len() >= 3;
    let data_from: usize = if with_sub {
        3
    } else {
        2
    };
    let cm: OmfComment = OmfComment {
        class: crate::module::comment_class_of(class),
        subtype: if with_sub {
            Some(body[2])
        } else {
            None
        },
        data: crate::prims::copy_range(body, data_from, body.len()),
        raw: crate::prims::copy_range(body, 0, body.len()),
    };
    proof {
        assert(body@.subrange(0, body@.len() as int) =~= body@);
    }
    b.push_comment(cm);
}

/// MODEND: record the end of the module and any start address.
fn h_modend(b: &mut Builder, body: &[u8], is32: bool) -> (r: Result<(), OmfErrorKind>)
    ensures
        match spec_modend(bview(*old(b)), body@, is32) {
            Ok(st) => r is Ok && bview(*final(b)) == st,
            Err(e) => r matches Err(k) && k == e,
        },
{
    if body.len() < 1 {
        return Err(OmfErrorKind::Truncated);
    }
    let t: u8 = body[0];
    let main: bool = t / 128 == 1;
    let has_start: bool = (t / 64) % 2 == 1;
    if !has_start {
        b.finish_modend_plain(main);
        return Ok(());
    }
    if body.len() < 2 {
        return Err(OmfErrorKind::Truncated);
    }
    let fm: u8 = body[1];
    match crate::prims::read_index(body, 2) {
        None => Err(OmfErrorKind::Truncated),
        Some(d) => {
            let width: usize = if is32 {
                4
            } else {
                2
            };
            if body.len() < width || d.1 > body.len() - width {
                return Err(OmfErrorKind::Truncated);
            }
            let o: u32 = if is32 {
                crate::prims::read_le32(body, d.1)
            } else {
                crate::prims::read_le16(body, d.1) as u32
            };
            b.finish_modend_entry(
                main,
                OmfEntryPoint { frame_method: fm, datum: d.0, offset: o },
            );
            Ok(())
        },
    }
}

/// EXTDEF and LEXTDEF: append one external symbol per entry.
#[verifier::loop_isolation(false)]
fn h_extdef(b: &mut Builder, body: &[u8]) -> (r: Result<(), OmfErrorKind>)
    ensures
        match spec_extdef(bview(*old(b)), body@, 0) {
            Ok(st) => r is Ok && bview(*final(b)) == st,
            Err(e) => r matches Err(k) && k == e,
        },
{
    let ghost st0 = bview(*b);
    let mut p: usize = 0;
    while p < body.len()
        invariant
            0 <= p <= body@.len(),
            spec_extdef(st0, body@, 0) == spec_extdef(bview(*b), body@, p as int),
        decreases body@.len() - p,
    {
        match crate::prims::read_name(body, p) {
            None => {
                return Err(OmfErrorKind::Truncated);
            },
            Some(nm) => {
                match crate::prims::read_index(body, nm.1) {
                    None => {
                        return Err(OmfErrorKind::Truncated);
                    },
                    Some(ti) => {
                        let sym: crate::symbol::OmfSymbol = crate::symbol::OmfSymbol {
                            index: b.file.symbols.len(),
                            name: nm.0,
                            scope: OmfSymbolScope::External,
                            segment: 0u16,
                            offset: 0u32,
                        };
                        b.push_symbol(sym);
                        p = ti.1;
                    },
                }
            },
        }
    }
    Ok(())
}

} // verus!

verus! {

/// SEGDEF: declare a segment.
fn h_segdef(b: &mut Builder, body: &[u8], is32: bool, strict: bool, off: usize) -> (r: Result<
    (),
    OmfErrorKind,
>)
    ensures
        match spec_segdef(bview(*old(b)), body@, is32, strict, off) {
            Ok(st) => r is Ok && bview(*final(b)) == st,
            Err(e) => r matches Err(k) && k == e,
        },
{
    let width: usize = if is32 {
        4
    } else {
        2
    };
    if body.len() < 1 + width {
        return Err(OmfErrorKind::Truncated);
    }
    let attr: u8 = body[0];
    let raw_len: u32 = if is32 {
        crate::prims::read_le32(body, 1)
    } else {
        crate::prims::read_le16(body, 1) as u32
    };
    let ni: (u16, usize) = match crate::prims::read_index(body, 1 + width) {
        None => {
            return Err(OmfErrorKind::Truncated);
        },
        Some(v) => v,
    };
    let ci: (u16, usize) = match crate::prims::read_index(body, ni.1) {
        None => {
            return Err(OmfErrorKind::Truncated);
        },
        Some(v) => v,
    };
    let oi: (u16, usize) = match crate::prims::read_index(body, ci.1) {
        None => {
            return Err(OmfErrorKind::Truncated);
        },
        Some(v) => v,
    };
    let name: Vec<u8> = match lookup_name(b, ni.0, strict, off) {
        Err(e) => {
            return Err(e);
        },
        Ok(n) => n,
    };
    let class_name: Vec<u8> = match lookup_name(b, ci.0, strict, off) {
        Err(e) => {
            return Err(e);
        },
        Ok(n) => n,
    };
    match lookup_name(b, oi.0, strict, off) {
        Err(e) => {
            return Err(e);
        },
        Ok(_) => {},
    }
    let big: bool = (attr / 2) % 2 == 1;
    let executable: bool = is_code_class(&class_name);
    let seg: OmfSegment = OmfSegment {
        name,
        name_index: ni.0,
        class_name,
        class_index: ci.0,
        overlay_index: oi.0,
        alignment: attr / 32,
        combine: (attr / 4) % 8,
        big,
        use32: attr % 2 == 1,
        declared_len: if big {
            if is32 {
                0x1_0000_0000u64
            } else {
                0x1_0000u64
            }
        } else {
            raw_len as u64
        },
        executable,
        comdat: false,
        chunks: Vec::new(),
        fixups: Vec::new(),
    };
    proof {
        assert(views_of(seg.chunks@) =~= Seq::<SpecSectionData>::empty());
    }
    b.push_segment(seg);
    proof {
        match spec_segdef(bview(*old(b)), body@, is32, strict, off) {
            Ok(st) => {
                assert(bview(*b) =~= st);
            },
            Err(_) => {},
        }
    }
    Ok(())
}

/// GRPDEF: declare a group.
#[verifier::loop_isolation(false)]
fn h_grpdef(b: &mut Builder, body: &[u8], strict: bool, off: usize) -> (r: Result<
    (),
    OmfErrorKind,
>)
    ensures
        match spec_grpdef(bview(*old(b)), body@, strict, off) {
            Ok(st) => r is Ok && bview(*final(b)) == st,
            Err(e) => r matches Err(k) && k == e,
        },
{
    let gi: (u16, usize) = match crate::prims::read_index(body, 0) {
        None => {
            return Err(OmfErrorKind::Truncated);
        },
        Some(v) => v,
    };
    let name: Vec<u8> = match lookup_name(b, gi.0, strict, off) {
        Err(e) => {
            return Err(e);
        },
        Ok(n) => n,
    };
    let ghost st1 = bview(*b);
    let mut idxs: Vec<u16> = Vec::new();
    let mut p: usize = gi.1;
    while p < body.len()
        invariant
            0 <= p <= body@.len(),
            spec_grpdef_entries(st1, body@, gi.1 as int, Seq::<u16>::empty(), strict, off)
                == spec_grpdef_entries(bview(*b), body@, p as int, idxs@, strict, off),
        decreases body@.len() - p,
    {
        let kind: u8 = body[p];
        let e: (u16, usize) = match crate::prims::read_index(body, p + 1) {
            None => {
                return Err(OmfErrorKind::Truncated);
            },
            Some(v) => v,
        };
        if kind == 0xFF {
            if e.0 as usize > b.file.segments.len() {
                if strict {
                    return Err(OmfErrorKind::IndexOutOfRange);
                }
                b.push_diag(OmfErrorKind::IndexOutOfRange, off);
                p = e.1;
            } else {
                idxs.push(e.0);
                p = e.1;
            }
        } else {
            p = e.1;
        }
    }
    let g: crate::module::OmfGroup = crate::module::OmfGroup {
        name,
        name_index: gi.0,
        segment_indices: idxs,
    };
    b.push_group(g);
    proof {
        match spec_grpdef(bview(*old(b)), body@, strict, off) {
            Ok(st) => {
                assert(bview(*b) =~= st);
            },
            Err(_) => {},
        }
    }
    Ok(())
}

/// PUBDEF and LPUBDEF: append one public symbol per entry.
#[verifier::loop_isolation(false)]
fn h_pubdef(b: &mut Builder, body: &[u8], is32: bool, strict: bool, off: usize) -> (r: Result<
    (),
    OmfErrorKind,
>)
    ensures
        match spec_pubdef(bview(*old(b)), body@, is32, strict, off) {
            Ok(st) => r is Ok && bview(*final(b)) == st,
            Err(e) => r matches Err(k) && k == e,
        },
{
    let gi: (u16, usize) = match crate::prims::read_index(body, 0) {
        None => {
            return Err(OmfErrorKind::Truncated);
        },
        Some(v) => v,
    };
    let si: (u16, usize) = match crate::prims::read_index(body, gi.1) {
        None => {
            return Err(OmfErrorKind::Truncated);
        },
        Some(v) => v,
    };
    let p3: usize = if si.0 == 0 {
        if body.len() < 2 || si.1 > body.len() - 2 {
            return Err(OmfErrorKind::Truncated);
        }
        si.1 + 2
    } else {
        if si.1 > body.len() {
            return Err(OmfErrorKind::Truncated);
        }
        si.1
    };
    let seg: u16 = if si.0 as usize > b.file.segments.len() {
        if strict {
            return Err(OmfErrorKind::IndexOutOfRange);
        }
        b.push_diag(OmfErrorKind::IndexOutOfRange, off);
        0u16
    } else {
        si.0
    };
    let width: usize = if is32 {
        4
    } else {
        2
    };
    let ghost st1 = bview(*b);
    let mut p: usize = p3;
    while p < body.len()
        invariant
            0 <= p <= body@.len(),
            spec_pubdef_entries(st1, body@, p3 as int, seg, is32) == spec_pubdef_entries(
                bview(*b),
                body@,
                p as int,
                seg,
                is32,
            ),
        decreases body@.len() - p,
    {
        let nm: (Vec<u8>, usize) = match crate::prims::read_name(body, p) {
            None => {
                return Err(OmfErrorKind::Truncated);
            },
            Some(v) => v,
        };
        if body.len() < width || nm.1 > body.len() - width {
            return Err(OmfErrorKind::Truncated);
        }
        let offset: u32 = if is32 {
            crate::prims::read_le32(body, nm.1)
        } else {
            crate::prims::read_le16(body, nm.1) as u32
        };
        let ti: (u16, usize) = match crate::prims::read_index(body, nm.1 + width) {
            None => {
                return Err(OmfErrorKind::Truncated);
            },
            Some(v) => v,
        };
        let sym: crate::symbol::OmfSymbol = crate::symbol::OmfSymbol {
            index: b.file.symbols.len(),
            name: nm.0,
            scope: OmfSymbolScope::Public,
            segment: seg,
            offset,
        };
        b.push_symbol(sym);
        p = ti.1;
    }
    Ok(())
}

/// The error a failed variable-length number denotes.
fn varnum_err(body: &[u8], p: usize) -> (r: OmfErrorKind)
    ensures
        r == spec_varnum_err(body@, p as int),
{
    if p < body.len() {
        let c: u8 = body[p];
        if !(c <= 0x80 || c == 0x81 || c == 0x82 || c == 0x84) {
            OmfErrorKind::UnsupportedVariant
        } else {
            OmfErrorKind::Truncated
        }
    } else {
        OmfErrorKind::Truncated
    }
}

/// COMDEF: append one common block and one common symbol per entry.
#[verifier::loop_isolation(false)]
fn h_comdef(b: &mut Builder, body: &[u8], is32: bool, strict: bool, off: usize) -> (r: Result<
    (),
    OmfErrorKind,
>)
    ensures
        match spec_comdef(bview(*old(b)), body@, 0, is32, strict, off) {
            Ok(st) => r is Ok && bview(*final(b)) == st,
            Err(e) => r matches Err(k) && k == e,
        },
{
    let ghost st0 = bview(*b);
    let mut p: usize = 0;
    while p < body.len()
        invariant
            0 <= p <= body@.len(),
            spec_comdef(st0, body@, 0, is32, strict, off) == spec_comdef(
                bview(*b),
                body@,
                p as int,
                is32,
                strict,
                off,
            ),
        decreases body@.len() - p,
    {
        let nm: (Vec<u8>, usize) = match crate::prims::read_name(body, p) {
            None => {
                return Err(OmfErrorKind::Truncated);
            },
            Some(v) => v,
        };
        let ti: (u16, usize) = match crate::prims::read_index(body, nm.1) {
            None => {
                return Err(OmfErrorKind::Truncated);
            },
            Some(v) => v,
        };
        if ti.1 >= body.len() {
            return Err(OmfErrorKind::Truncated);
        }
        let dt: u8 = body[ti.1];
        if dt == 0x61 {
            let n: (u32, usize) = match crate::prims::read_varnum(body, ti.1 + 1) {
                None => {
                    return Err(varnum_err(body, ti.1 + 1));
                },
                Some(v) => v,
            };
            push_common_pair(b, nm.0, n.0, 1u32, false, is32);
            p = n.1;
        } else if dt == 0x62 {
            let cnt: (u32, usize) = match crate::prims::read_varnum(body, ti.1 + 1) {
                None => {
                    return Err(varnum_err(body, ti.1 + 1));
                },
                Some(v) => v,
            };
            let sz: (u32, usize) = match crate::prims::read_varnum(body, cnt.1) {
                None => {
                    return Err(varnum_err(body, cnt.1));
                },
                Some(v) => v,
            };
            push_common_pair(b, nm.0, sz.0, cnt.0, true, is32);
            p = sz.1;
        } else {
            return tolerate(b, OmfErrorKind::UnsupportedVariant, strict, off);
        }
    }
    Ok(())
}

/// Appends one common block and its symbol; see [`spec_push_common`].
fn push_common_pair(
    b: &mut Builder,
    name: Vec<u8>,
    elem_size: u32,
    elem_count: u32,
    is_far: bool,
    is_32bit: bool,
)
    ensures
        bview(*final(b)) == spec_push_common(
            bview(*old(b)),
            name@,
            elem_size,
            elem_count,
            is_far,
            is_32bit,
        ),
{
    let name2: Vec<u8> = crate::module::clone_bytes(&name);
    let c: crate::module::OmfCommon = crate::module::OmfCommon {
        name,
        elem_size,
        elem_count,
        is_far,
        is_32bit,
    };
    let sym: crate::symbol::OmfSymbol = crate::symbol::OmfSymbol {
        index: b.file.symbols.len(),
        name: name2,
        scope: OmfSymbolScope::Common,
        segment: 0u16,
        offset: 0u32,
    };
    b.push_common(c);
    b.push_symbol(sym);
    proof {
        assert(bview(*b) =~= spec_push_common(
            bview(*old(b)),
            c@.name,
            elem_size,
            elem_count,
            is_far,
            is_32bit,
        ));
    }
}

} // verus!

verus! {

/// LEDATA and LIDATA: bind a data chunk to its segment.
fn h_data(
    b: &mut Builder,
    body: &[u8],
    is32: bool,
    iterated: bool,
    strict: bool,
    off: usize,
) -> (r: Result<(), OmfErrorKind>)
    ensures
        match spec_data_record(bview(*old(b)), body@, is32, iterated, strict, off) {
            Ok(st) => r is Ok && bview(*final(b)) == st,
            Err(e) => r matches Err(k) && k == e,
        },
{
    let si: (u16, usize) = match crate::prims::read_index(body, 0) {
        None => {
            return Err(OmfErrorKind::Truncated);
        },
        Some(v) => v,
    };
    let width: usize = if is32 {
        4
    } else {
        2
    };
    if body.len() < width || si.1 > body.len() - width {
        return Err(OmfErrorKind::Truncated);
    }
    let doff: u32 = if is32 {
        crate::prims::read_le32(body, si.1)
    } else {
        crate::prims::read_le16(body, si.1) as u32
    };
    let data: Vec<u8> = crate::prims::copy_range(body, si.1 + width, body.len());
    if si.0 == 0 || si.0 as usize > b.file.segments.len() {
        tolerate(b, OmfErrorKind::IndexOutOfRange, strict, off)
    } else {
        let sidx: usize = si.0 as usize - 1;
        let chunk: OmfSectionData = if iterated {
            OmfSectionData::Lidata { offset: doff, raw: data }
        } else {
            OmfSectionData::Ledata { offset: doff, data }
        };
        b.push_chunk(sidx, chunk);
        b.set_cur_data(sidx, doff);
        proof {
            match spec_data_record(bview(*old(b)), body@, is32, iterated, strict, off) {
                Ok(st) => {
                    assert(bview(*b) =~= st);
                },
                Err(_) => {},
            }
        }
        Ok(())
    }
}

/// Returns whether every segment index the relocation mentions is
/// declared or 0.
fn reloc_in_bounds(r: &crate::section::OmfRelocation, nsegs: usize) -> (ok: bool)
    ensures
        ok == spec_reloc_in_bounds(*r, nsegs as int),
{
    let t_ok: bool = match r.target {
        crate::section::OmfFixupTarget::Segment(k) => k == 0 || (k as usize) <= nsegs,
        _ => true,
    };
    let f_ok: bool = match r.frame {
        Some(crate::section::OmfFixupFrame::Segment(k)) => k == 0 || (k as usize) <= nsegs,
        _ => true,
    };
    t_ok && f_ok
}

/// FIXUPP: apply thread subrecords to the slots and attach one
/// relocation per fixup subrecord to the current data chunk's segment.
#[verifier::loop_isolation(false)]
fn h_fixupp(b: &mut Builder, body: &[u8], strict: bool, off: usize) -> (r: Result<
    (),
    OmfErrorKind,
>)
    ensures
        match spec_fixupp(bview(*old(b)), body@, strict, off) {
            Ok(st) => r is Ok && bview(*final(b)) == st,
            Err(e) => r matches Err(k) && k == e,
        },
{
    let parsed: (Vec<OmfFixup>, bool) = OmfFixup::parse_all(body);
    if parsed.1 && strict {
        return Err(OmfErrorKind::MalformedFixup);
    }
    let subs: Vec<OmfFixup> = parsed.0;
    let ghost st0 = bview(*b);
    let mut i: usize = 0;
    while i < subs.len()
        invariant
            0 <= i <= subs@.len(),
            spec_fixupp_fold(st0, subs@, 0, strict, off) == spec_fixupp_fold(
                bview(*b),
                subs@,
                i as int,
                strict,
                off,
            ),
        decreases subs@.len() - i,
    {
        let f: OmfFixup = subs[i];
        match f {
            OmfFixup::FrameThread { .. } => {
                b.threads.apply(&f);
            },
            OmfFixup::TargetThread { .. } => {
                b.threads.apply(&f);
            },
            OmfFixup::Fixup { .. } => {
                match b.cur_data {
                    None => {
                        match tolerate(b, OmfErrorKind::MalformedFixup, strict, off) {
                            Err(e) => {
                                return Err(e);
                            },
                            Ok(()) => {},
                        }
                    },
                    Some(cd) => {
                        if cd.0 >= b.file.segments.len() {
                            match tolerate(b, OmfErrorKind::MalformedFixup, strict, off) {
                                Err(e) => {
                                    return Err(e);
                                },
                                Ok(()) => {},
                            }
                        } else {
                            match b.threads.resolve(&f, cd.1) {
                                None => {
                                    match tolerate(b, OmfErrorKind::MalformedFixup, strict, off) {
                                        Err(e) => {
                                            return Err(e);
                                        },
                                        Ok(()) => {},
                                    }
                                },
                                Some(rel) => {
                                    if !reloc_in_bounds(&rel, b.file.segments.len()) {
                                        match tolerate(
                                            b,
                                            OmfErrorKind::IndexOutOfRange,
                                            strict,
                                            off,
                                        ) {
                                            Err(e) => {
                                                return Err(e);
                                            },
                                            Ok(()) => {},
                                        }
                                    } else {
                                        b.push_fixup(cd.0, rel);
                                    }
                                },
                            }
                        }
                    },
                }
            },
        }
        i = i + 1;
    }
    if parsed.1 {
        b.push_diag(OmfErrorKind::MalformedFixup, off);
    }
    Ok(())
}

/// Continuation COMDAT: extend the most recent fragment.
fn comdat_continue(b: &mut Builder, data: Vec<u8>, strict: bool, off: usize) -> (r: Result<
    (),
    OmfErrorKind,
>)
    ensures
        match spec_comdat_continue(bview(*old(b)), data@, strict, off) {
            Ok(st) => r is Ok && bview(*final(b)) == st,
            Err(e) => r matches Err(k) && k == e,
        },
{
    if b.file.comdats.len() == 0 {
        tolerate(b, OmfErrorKind::MalformedComdat, strict, off)
    } else {
        b.append_comdat_data(data);
        Ok(())
    }
}

/// COMDAT: decode and store one link-once fragment.
fn h_comdat(b: &mut Builder, body: &[u8], is32: bool, strict: bool, off: usize) -> (r: Result<
    (),
    OmfErrorKind,
>)
    requires
        body@.len() < 0x10000,
    ensures
        match spec_comdat(bview(*old(b)), body@, is32, strict, off) {
            Ok(st) => r is Ok && bview(*final(b)) == st,
            Err(e) => r matches Err(k) && k == e,
        },
{
    if body.len() < 3 {
        return tolerate(b, OmfErrorKind::MalformedComdat, strict, off);
    }
    let flags: u8 = body[0];
    let attrs: u8 = body[1];
    let continuation: bool = flags % 2 == 1;
    let alloc: u8 = attrs % 16;
    let width: usize = if is32 {
        4
    } else {
        2
    };
    if body.len() < 3 + width {
        return tolerate(b, OmfErrorKind::MalformedComdat, strict, off);
    }
    let offv: u32 = if is32 {
        crate::prims::read_le32(body, 3)
    } else {
        crate::prims::read_le16(body, 3) as u32
    };
    let ti: (u16, usize) = match crate::prims::read_index(body, 3 + width) {
        None => {
            return tolerate(b, OmfErrorKind::MalformedComdat, strict, off);
        },
        Some(v) => v,
    };
    if alloc == 0 {
        h_comdat_explicit(b, body, ti.1, flags, alloc, continuation, offv, strict, off)
    } else if alloc <= 3 {
        h_comdat_implicit(b, body, ti.1, flags, alloc, continuation, offv, is32, strict, off)
    } else {
        tolerate(b, OmfErrorKind::UnsupportedVariant, strict, off)
    }
}

/// The explicit-allocation arm of COMDAT.
fn h_comdat_explicit(
    b: &mut Builder,
    body: &[u8],
    p: usize,
    flags: u8,
    alloc: u8,
    continuation: bool,
    offv: u32,
    strict: bool,
    off: usize,
) -> (r: Result<(), OmfErrorKind>)
    ensures
        match spec_comdat_explicit(
            bview(*old(b)),
            body@,
            p as int,
            flags,
            alloc,
            continuation,
            offv,
            strict,
            off,
        ) {
            Ok(st) => r is Ok && bview(*final(b)) == st,
            Err(e) => r matches Err(k) && k == e,
        },
{
    let gi: (u16, usize) = match crate::prims::read_index(body, p) {
        None => {
            return tolerate(b, OmfErrorKind::MalformedComdat, strict, off);
        },
        Some(v) => v,
    };
    let si: (u16, usize) = match crate::prims::read_index(body, gi.1) {
        None => {
            return tolerate(b, OmfErrorKind::MalformedComdat, strict, off);
        },
        Some(v) => v,
    };
    let p5: usize = if si.0 == 0 {
        if body.len() < 2 || si.1 > body.len() - 2 {
            return tolerate(b, OmfErrorKind::MalformedComdat, strict, off);
        }
        si.1 + 2
    } else {
        si.1
    };
    let ni: (u16, usize) = match crate::prims::read_index(body, p5) {
        None => {
            return tolerate(b, OmfErrorKind::MalformedComdat, strict, off);
        },
        Some(v) => v,
    };
    let data: Vec<u8> = crate::prims::copy_range(body, ni.1, body.len());
    let nm: Vec<u8> = match lookup_name(b, ni.0, strict, off) {
        Err(e) => {
            return Err(e);
        },
        Ok(n) => n,
    };
    if continuation {
        comdat_continue(b, data, strict, off)
    } else if si.0 as usize > b.file.segments.len() {
        tolerate(b, OmfErrorKind::IndexOutOfRange, strict, off)
    } else if si.0 == 0 {
        let frag: crate::module::OmfComdat = crate::module::OmfComdat {
            name: nm,
            name_index: ni.0,
            selection: flags,
            alloc,
            segment_index: 0u16,
            offset: offv,
            segment_name: None,
            data: Some(data),
        };
        b.push_comdat(frag);
        proof {
            match spec_comdat_explicit(
                bview(*old(b)),
                body@,
                p as int,
                flags,
                alloc,
                continuation,
                offv,
                strict,
                off,
            ) {
                Ok(st) => {
                    assert(bview(*b) =~= st);
                },
                Err(_) => {},
            }
        }
        Ok(())
    } else {
        let sidx: usize = si.0 as usize - 1;
        let segname: Vec<u8> = crate::module::clone_bytes(&b.file.segments[sidx].name);
        let data2: Vec<u8> = crate::module::clone_bytes(&data);
        b.push_chunk(sidx, OmfSectionData::Comdat { offset: offv, data });
        let frag: crate::module::OmfComdat = crate::module::OmfComdat {
            name: nm,
            name_index: ni.0,
            selection: flags,
            alloc,
            segment_index: si.0,
            offset: offv,
            segment_name: Some(segname),
            data: Some(data2),
        };
        b.push_comdat(frag);
        proof {
            match spec_comdat_explicit(
                bview(*old(b)),
                body@,
                p as int,
                flags,
                alloc,
                continuation,
                offv,
                strict,
                off,
            ) {
                Ok(st) => {
                    assert(bview(*b) =~= st);
                },
                Err(_) => {},
            }
        }
        Ok(())
    }
}

/// The implicit-allocation arm of COMDAT.
fn h_comdat_implicit(
    b: &mut Builder,
    body: &[u8],
    p: usize,
    flags: u8,
    alloc: u8,
    continuation: bool,
    offv: u32,
    is32: bool,
    strict: bool,
    off: usize,
) -> (r: Result<(), OmfErrorKind>)
    requires
        body@.len() < 0x10000,
    ensures
        match spec_comdat_implicit(
            bview(*old(b)),
            body@,
            p as int,
            flags,
            alloc,
            continuation,
            offv,
            is32,
            strict,
            off,
        ) {
            Ok(st) => r is Ok && bview(*final(b)) == st,
            Err(e) => r matches Err(k) && k == e,
        },
{
    let ni: (u16, usize) = match crate::prims::read_index(body, p) {
        None => {
            return tolerate(b, OmfErrorKind::MalformedComdat, strict, off);
        },
        Some(v) => v,
    };
    let data: Vec<u8> = crate::prims::copy_range(body, ni.1, body.len());
    let nm: Vec<u8> = match lookup_name(b, ni.0, strict, off) {
        Err(e) => {
            return Err(e);
        },
        Ok(n) => n,
    };
    if continuation {
        comdat_continue(b, data, strict, off)
    } else if b.file.segments.len() >= 0xFFFF {
        tolerate(b, OmfErrorKind::UnsupportedVariant, strict, off)
    } else {
        let nm2: Vec<u8> = crate::module::clone_bytes(&nm);
        let nm3: Vec<u8> = crate::module::clone_bytes(&nm);
        let data2: Vec<u8> = crate::module::clone_bytes(&data);
        let dlen: usize = data.len();
        let mut chunks: Vec<OmfSectionData> = Vec::new();
        chunks.push(OmfSectionData::Comdat { offset: offv, data });
        let seg: OmfSegment = OmfSegment {
            name: nm,
            name_index: ni.0,
            class_name: Vec::new(),
            class_index: 0u16,
            overlay_index: 0u16,
            alignment: 0u8,
            combine: 0u8,
            big: false,
            use32: is32,
            declared_len: offv as u64 + dlen as u64,
            executable: false,
            comdat: true,
            chunks,
            fixups: Vec::new(),
        };
        proof {
            assert(views_of(seg.chunks@) =~= seq![
                SpecSectionData::Comdat {
                    offset: offv,
                    data: body@.subrange(ni.1 as int, body@.len() as int),
                },
            ]);
        }
        b.push_segment(seg);
        let frag: crate::module::OmfComdat = crate::module::OmfComdat {
            name: nm2,
            name_index: ni.0,
            selection: flags,
            alloc,
            segment_index: b.file.segments.len() as u16,
            offset: offv,
            segment_name: Some(nm3),
            data: Some(data2),
        };
        b.push_comdat(frag);
        proof {
            match spec_comdat_implicit(
                bview(*old(b)),
                body@,
                p as int,
                flags,
                alloc,
                continuation,
                offv,
                is32,
                strict,
                off,
            ) {
                Ok(st) => {
                    assert(bview(*b) =~= st);
                },
                Err(_) => {},
            }
        }
        Ok(())
    }
}

} // verus!

verus! {

/// Dispatches one framed record to its handler; see [`spec_step`].
fn step_record(b: &mut Builder, rec: u8, body: &[u8], strict: bool, off: usize) -> (r: Result<
    (),
    OmfErrorKind,
>)
    requires
        body@.len() < 0x10000,
    ensures
        match spec_step(bview(*old(b)), rec, body@, strict, off) {
            Ok(st) => r is Ok && bview(*final(b)) == st,
            Err(e) => r matches Err(k) && k == e,
        },
{
    if rec == consts::THEADR {
        h_theadr(b, body)
    } else if rec == consts::COMENT {
        h_coment(b, body);
        Ok(())
    } else if rec == consts::MODEND || rec == consts::MODEND32 {
        h_modend(b, body, rec == consts::MODEND32)
    } else if rec == consts::EXTDEF || rec == consts::LEXTDEF {
        h_extdef(b, body)
    } else if rec == consts::PUBDEF || rec == consts::PUBDEF32 || rec == consts::LPUBDEF || rec
        == consts::LPUBDEF32 {
        h_pubdef(b, body, rec == consts::PUBDEF32 || rec == consts::LPUBDEF32, strict, off)
    } else if rec == consts::LNAMES {
        h_lnames(b, body)
    } else if rec == consts::SEGDEF || rec == consts::SEGDEF32 {
        h_segdef(b, body, rec == consts::SEGDEF32, strict, off)
    } else if rec == consts::GRPDEF {
        h_grpdef(b, body, strict, off)
    } else if rec == consts::FIXUPP {
        h_fixupp(b, body, strict, off)
    } else if rec == consts::LEDATA || rec == consts::LEDATA32 {
        h_data(b, body, rec == consts::LEDATA32, false, strict, off)
    } else if rec == consts::LIDATA || rec == consts::LIDATA32 {
        h_data(b, body, rec == consts::LIDATA32, true, strict, off)
    } else if rec == consts::COMDEF || rec == consts::COMDEF32 {
        h_comdef(b, body, rec == consts::COMDEF32, strict, off)
    } else if rec == consts::COMDAT || rec == consts::COMDAT32 {
        h_comdat(b, body, rec == consts::COMDAT32, strict, off)
    } else if rec >= consts::OMF_RANGE_LO {
        Ok(())
    } else if strict {
        Err(OmfErrorKind::UnknownRecord(rec))
    } else {
        b.push_diag(OmfErrorKind::UnknownRecord(rec), off);
        Ok(())
    }
}

impl OmfFile {
    /// Parses one OMF module from `data` under the chosen policy:
    /// strict fails fast on every oddity; tolerant skips or defaults
    /// what it can and notes each condition in `diagnostics`.
    ///
    /// The result is exactly what [`spec_parse`] denotes on the input
    /// bytes, so parsing the same bytes twice gives structurally
    /// identical modules.
    #[verifier::loop_isolation(false)]
    pub fn parse_with(data: &[u8], strict: bool) -> (r: Result<OmfFile, OmfParseError>)
        ensures
            match spec_parse(data@, strict) {
                Ok(m) => r matches Ok(f) && f@ == m,
                Err(e) => r matches Err(pe) && pe == e,
            },
    {
        let mut b: Builder = Builder::new();
        let mut pos: usize = 0;
        while !b.done && pos < data.len()
            invariant
                0 <= pos <= data@.len(),
                spec_run(data@, pos as int, bview(b), strict) == spec_parse(data@, strict),
            decreases data@.len() - pos,
        {
            if data.len() - pos < 3 {
                return Err(OmfParseError { kind: OmfErrorKind::Truncated, offset: pos });
            }
            let rec: u8 = data[pos];
            let len: usize = crate::prims::read_le16(data, pos + 1) as usize;
            if len == 0 || data.len() - pos - 3 < len {
                return Err(OmfParseError { kind: OmfErrorKind::Truncated, offset: pos });
            }
            let body: &[u8] = vstd::slice::slice_subrange(data, pos + 3, pos + 3 + len - 1);
            match step_record(&mut b, rec, body, strict, pos) {
                Err(kind) => {
                    return Err(OmfParseError { kind, offset: pos });
                },
                Ok(()) => {
                    pos = pos + 3 + len;
                },
            }
        }
        let ghost stf = bview(b);
        let mut file: OmfFile = b.file;
        file.bytes_consumed = pos;
        proof {
            assert(file@ =~= spec_finish(stf, pos as int));
        }
        Ok(file)
    }

    /// Parses one OMF module in strict mode, the default policy.
    pub fn parse(data: &[u8]) -> (r: Result<OmfFile, OmfParseError>)
        ensures
            match spec_parse(data@, true) {
                Ok(m) => r matches Ok(f) && f@ == m,
                Err(e) => r matches Err(pe) && pe == e,
            },
    {
        OmfFile::parse_with(data, true)
    }
}

} // verus!
