//! Structural laws of every parsed module.
//!
//! Because [`crate::parse::spec_parse`] is the exact meaning of
//! [`crate::module::OmfFile::parse`], each law proved here of
//! `spec_parse` holds of every value the executable parser returns.

use vstd::prelude::*;

use crate::error::{OmfErrorKind, OmfParseError};
use crate::fixupp::OmfFixup;
use crate::module::SpecModule;
use crate::parse::{
    spec_comdat, spec_comdat_explicit, spec_comdat_implicit, spec_comdef, spec_data_record,
    spec_extdef, spec_fixupp, spec_fixupp_fold, spec_grpdef, spec_grpdef_entries, spec_init_state,
    spec_lnames, spec_parse, spec_pubdef, spec_pubdef_entries, spec_run, spec_segdef,
    spec_step, spec_theadr, SpecState,
};
use crate::section::spec_reloc_in_bounds;

verus! {

/// Every segment reference recorded on the module resolves: relocation
/// targets and frames, symbol bindings, group members and COMDAT hosts
/// all name a declared segment or 0 (unbound).
pub open spec fn spec_module_refs_ok(m: SpecModule) -> bool {
    &&& forall|i: int, j: int|
        0 <= i < m.segments.len() && 0 <= j < m.segments[i].fixups.len()
            ==> spec_reloc_in_bounds(
            #[trigger] m.segments[i].fixups[j],
            m.segments.len() as int,
        )
    &&& forall|i: int|
        0 <= i < m.symbols.len() ==> ((#[trigger] m.symbols[i]).segment == 0 || m.symbols[
            i
        ].segment <= m.segments.len())
    &&& forall|i: int, j: int|
        0 <= i < m.groups.len() && 0 <= j < m.groups[i].segment_indices.len() ==> (
        #[trigger] m.groups[i].segment_indices[j]) <= m.segments.len()
    &&& forall|i: int|
        0 <= i < m.comdats.len() ==> (#[trigger] m.comdats[i]).segment_index
            <= m.segments.len()
}

/// The name-table indices a segment records are 0 or within the table.
pub open spec fn spec_segment_names_ok(s: crate::module::SpecSegment, n: int) -> bool {
    &&& s.name_index == 0 || s.name_index <= n
    &&& s.class_index == 0 || s.class_index <= n
    &&& s.overlay_index == 0 || s.overlay_index <= n
}

/// Every name index recorded on the module (SEGDEF, GRPDEF, COMDAT) is
/// 0 or within the name table.  Strict parses guarantee this; tolerant
/// parses may record an out-of-range index beside its diagnostic.
pub open spec fn spec_module_names_ok(m: SpecModule) -> bool {
    &&& forall|i: int|
        0 <= i < m.segments.len() ==> spec_segment_names_ok(
            #[trigger] m.segments[i],
            m.lnames.len() as int,
        )
    &&& forall|i: int|
        0 <= i < m.groups.len() ==> ((#[trigger] m.groups[i]).name_index == 0 || m.groups[
            i
        ].name_index <= m.lnames.len())
    &&& forall|i: int|
        0 <= i < m.comdats.len() ==> ((#[trigger] m.comdats[i]).name_index == 0 || m.comdats[
            i
        ].name_index <= m.lnames.len())
}

/// Symbol indices are the append order: the symbol at table position
/// `i` carries index `i`.
pub open spec fn spec_symbol_indices_ok(m: SpecModule) -> bool {
    forall|i: int| 0 <= i < m.symbols.len() ==> (#[trigger] m.symbols[i]).index == i
}

/// The invariant the parser state keeps between records.
pub open spec fn spec_state_wf(st: SpecState, strict: bool) -> bool {
    &&& spec_module_refs_ok(st.m)
    &&& (strict ==> spec_module_names_ok(st.m))
    &&& spec_symbol_indices_ok(st.m)
    &&& (st.cur_data matches Some(cd) ==> 0 <= cd.0 < st.m.segments.len())
    &&& (st.done ==> st.m.modend_seen)
}

/// THEADR preserves the invariant.
proof fn lemma_theadr_wf(st: SpecState, body: Seq<u8>, strict: bool)
    requires
        spec_state_wf(st, strict),
    ensures
        spec_theadr(st, body) matches Ok(st2) ==> spec_state_wf(st2, strict),
{
}

/// LNAMES preserves the invariant: the table only grows, and every
/// recorded index bound is monotone in the table's length.
proof fn lemma_lnames_wf(st: SpecState, body: Seq<u8>, p: int, strict: bool)
    requires
        spec_state_wf(st, strict),
    ensures
        spec_lnames(st, body, p) matches Ok(st2) ==> spec_state_wf(st2, strict),
    decreases body.len() - p,
{
    if 0 <= p < body.len() {
        match crate::prims::spec_name(body, p) {
            Some(m) => {
                let st1 = SpecState {
                    m: SpecModule { lnames: st.m.lnames.push(m.0), ..st.m },
                    ..st
                };
                crate::prims::lemma_name_advances(body, p);
                assert(spec_state_wf(st1, strict));
                lemma_lnames_wf(st1, body, m.1, strict);
            },
            None => {},
        }
    }
}

/// SEGDEF preserves the invariant: the new segment's name indices come
/// from successful lookups, it carries no relocations, and every old
/// bound is monotone in the number of segments.
proof fn lemma_segdef_wf(st: SpecState, body: Seq<u8>, is32: bool, strict: bool, off: usize)
    requires
        spec_state_wf(st, strict),
    ensures
        spec_segdef(st, body, is32, strict, off) matches Ok(st2) ==> spec_state_wf(st2, strict),
{
}

/// GRPDEF entries preserve the invariant and collect only resolvable
/// segment indices.
proof fn lemma_grpdef_entries_wf(
    st: SpecState,
    body: Seq<u8>,
    p: int,
    acc: Seq<u16>,
    strict: bool,
    off: usize,
)
    requires
        spec_state_wf(st, strict),
        forall|j: int| 0 <= j < acc.len() ==> (#[trigger] acc[j]) <= st.m.segments.len(),
    ensures
        spec_grpdef_entries(st, body, p, acc, strict, off) matches Ok(r) ==> spec_state_wf(
            r.1,
            strict,
        ) && r.1.m.segments == st.m.segments && r.1.m.lnames == st.m.lnames && (forall|j: int|
            0 <= j < r.0.len() ==> (#[trigger] r.0[j]) <= r.1.m.segments.len()),
    decreases body.len() - p,
{
    if 0 <= p < body.len() {
        match crate::prims::spec_index(body, p + 1) {
            Some(e) => {
                let kind = body[p];
                if kind == 0xFF {
                    if e.0 > st.m.segments.len() {
                        if !strict {
                            lemma_grpdef_entries_wf(
                                crate::parse::spec_diag(st, OmfErrorKind::IndexOutOfRange, off),
                                body,
                                e.1,
                                acc,
                                strict,
                                off,
                            );
                        }
                    } else {
                        lemma_grpdef_entries_wf(st, body, e.1, acc.push(e.0 as u16), strict, off);
                    }
                } else {
                    lemma_grpdef_entries_wf(st, body, e.1, acc, strict, off);
                }
            },
            None => {},
        }
    }
}

/// GRPDEF preserves the invariant.
proof fn lemma_grpdef_wf(st: SpecState, body: Seq<u8>, strict: bool, off: usize)
    requires
        spec_state_wf(st, strict),
    ensures
        spec_grpdef(st, body, strict, off) matches Ok(st2) ==> spec_state_wf(st2, strict),
{
    match crate::prims::spec_index(body, 0) {
        Some(gi) => {
            match crate::parse::spec_lookup_step(st, gi.0, strict, off) {
                Ok(r1) => {
                    lemma_grpdef_entries_wf(r1.1, body, gi.1, Seq::<u16>::empty(), strict, off);
                },
                Err(_) => {},
            }
        },
        None => {},
    }
}

/// EXTDEF preserves the invariant: every appended symbol is unbound.
proof fn lemma_extdef_wf(st: SpecState, body: Seq<u8>, p: int, strict: bool)
    requires
        spec_state_wf(st, strict),
    ensures
        spec_extdef(st, body, p) matches Ok(st2) ==> spec_state_wf(st2, strict),
    decreases body.len() - p,
{
    if 0 <= p < body.len() {
        match crate::prims::spec_name(body, p) {
            Some(nm) => match crate::prims::spec_index(body, nm.1) {
                Some(ti) => {
                    let sym = crate::symbol::SpecSymbol {
                        index: st.m.symbols.len() as int,
                        name: nm.0,
                        scope: crate::symbol::OmfSymbolScope::External,
                        segment: 0u16,
                        offset: 0u32,
                    };
                    let st1 = SpecState {
                        m: SpecModule { symbols: st.m.symbols.push(sym), ..st.m },
                        ..st
                    };
                    crate::prims::lemma_name_advances(body, p);
                    crate::prims::lemma_index_advances(body, nm.1);
                    assert(spec_state_wf(st1, strict));
                    lemma_extdef_wf(st1, body, ti.1, strict);
                },
                None => {},
            },
            None => {},
        }
    }
}

/// PUBDEF entries preserve the invariant when the record's segment
/// resolves.
proof fn lemma_pubdef_entries_wf(
    st: SpecState,
    body: Seq<u8>,
    p: int,
    seg: u16,
    is32: bool,
    strict: bool,
)
    requires
        spec_state_wf(st, strict),
        seg == 0 || seg <= st.m.segments.len(),
    ensures
        spec_pubdef_entries(st, body, p, seg, is32) matches Ok(st2) ==> spec_state_wf(
            st2,
            strict,
        ),
    decreases body.len() - p,
{
    if 0 <= p < body.len() {
        let width: int = if is32 {
            4
        } else {
            2
        };
        match crate::prims::spec_name(body, p) {
            Some(nm) => {
                if nm.1 + width <= body.len() {
                    match crate::prims::spec_index(body, nm.1 + width) {
                        Some(ti) => {
                            let offset: int = if is32 {
                                crate::prims::spec_le32(body, nm.1)
                            } else {
                                crate::prims::spec_le16(body, nm.1)
                            };
                            let sym = crate::symbol::SpecSymbol {
                                index: st.m.symbols.len() as int,
                                name: nm.0,
                                scope: crate::symbol::OmfSymbolScope::Public,
                                segment: seg,
                                offset: offset as u32,
                            };
                            let st1 = SpecState {
                                m: SpecModule { symbols: st.m.symbols.push(sym), ..st.m },
                                ..st
                            };
                            assert(spec_state_wf(st1, strict));
                            lemma_pubdef_entries_wf(st1, body, ti.1, seg, is32, strict);
                        },
                        None => {},
                    }
                }
            },
            None => {},
        }
    }
}

/// PUBDEF preserves the invariant.
proof fn lemma_pubdef_wf(st: SpecState, body: Seq<u8>, is32: bool, strict: bool, off: usize)
    requires
        spec_state_wf(st, strict),
    ensures
        spec_pubdef(st, body, is32, strict, off) matches Ok(st2) ==> spec_state_wf(st2, strict),
{
    match crate::prims::spec_index(body, 0) {
        Some(gi) => match crate::prims::spec_index(body, gi.1) {
            Some(si) => {
                let p3: int = if si.0 == 0 {
                    si.1 + 2
                } else {
                    si.1
                };
                if p3 <= body.len() {
                    if si.0 > st.m.segments.len() {
                        if !strict {
                            lemma_pubdef_entries_wf(
                                crate::parse::spec_diag(st, OmfErrorKind::IndexOutOfRange, off),
                                body,
                                p3,
                                0u16,
                                is32,
                                strict,
                            );
                        }
                    } else {
                        lemma_pubdef_entries_wf(st, body, p3, si.0 as u16, is32, strict);
                    }
                }
            },
            None => {},
        },
        None => {},
    }
}

/// COMDEF preserves the invariant: commons and their symbols are
/// unbound.
proof fn lemma_comdef_wf(
    st: SpecState,
    body: Seq<u8>,
    p: int,
    is32: bool,
    strict: bool,
    off: usize,
)
    requires
        spec_state_wf(st, strict),
    ensures
        spec_comdef(st, body, p, is32, strict, off) matches Ok(st2) ==> spec_state_wf(
            st2,
            strict,
        ),
    decreases body.len() - p,
{
    if 0 <= p < body.len() {
        match crate::prims::spec_name(body, p) {
            Some(nm) => match crate::prims::spec_index(body, nm.1) {
                Some(ti) => {
                    if ti.1 < body.len() {
                        let dt = body[ti.1];
                        if dt == 0x61 {
                            match crate::prims::spec_varnum(body, ti.1 + 1) {
                                Some(n) => {
                                    let st1 = crate::parse::spec_push_common(
                                        st,
                                        nm.0,
                                        n.0 as u32,
                                        1u32,
                                        false,
                                        is32,
                                    );
                                    assert(spec_state_wf(st1, strict));
                                    lemma_comdef_wf(st1, body, n.1, is32, strict, off);
                                },
                                None => {},
                            }
                        } else if dt == 0x62 {
                            match crate::prims::spec_varnum(body, ti.1 + 1) {
                                Some(cnt) => match crate::prims::spec_varnum(body, cnt.1) {
                                    Some(sz) => {
                                        let st1 = crate::parse::spec_push_common(
                                            st,
                                            nm.0,
                                            sz.0 as u32,
                                            cnt.0 as u32,
                                            true,
                                            is32,
                                        );
                                        assert(spec_state_wf(st1, strict));
                                        lemma_comdef_wf(st1, body, sz.1, is32, strict, off);
                                    },
                                    None => {},
                                },
                                None => {},
                            }
                        }
                    }
                },
                None => {},
            },
            None => {},
        }
    }
}

/// LEDATA and LIDATA preserve the invariant: the chunk joins a
/// declared segment, which also becomes the current data binding.
proof fn lemma_data_wf(
    st: SpecState,
    body: Seq<u8>,
    is32: bool,
    iterated: bool,
    strict: bool,
    off: usize,
)
    requires
        spec_state_wf(st, strict),
    ensures
        spec_data_record(st, body, is32, iterated, strict, off) matches Ok(st2)
            ==> spec_state_wf(st2, strict),
{
}

/// One FIXUPP subrecord preserves the invariant: a relocation is only
/// attached after its segment references were checked.
proof fn lemma_fixupp_step_wf(st: SpecState, f: OmfFixup, strict: bool, off: usize)
    requires
        spec_state_wf(st, strict),
    ensures
        crate::parse::spec_fixupp_step(st, f, strict, off) matches Ok(st2) ==> spec_state_wf(
            st2,
            strict,
        ),
{
}

/// A FIXUPP subrecord run preserves the invariant.
proof fn lemma_fixupp_fold_wf(
    st: SpecState,
    subs: Seq<OmfFixup>,
    i: int,
    strict: bool,
    off: usize,
)
    requires
        spec_state_wf(st, strict),
    ensures
        spec_fixupp_fold(st, subs, i, strict, off) matches Ok(st2) ==> spec_state_wf(
            st2,
            strict,
        ),
    decreases subs.len() - i,
{
    if 0 <= i < subs.len() {
        lemma_fixupp_step_wf(st, subs[i], strict, off);
        match crate::parse::spec_fixupp_step(st, subs[i], strict, off) {
            Ok(st2) => {
                lemma_fixupp_fold_wf(st2, subs, i + 1, strict, off);
            },
            Err(_) => {},
        }
    }
}

/// FIXUPP preserves the invariant.
proof fn lemma_fixupp_wf(st: SpecState, body: Seq<u8>, strict: bool, off: usize)
    requires
        spec_state_wf(st, strict),
    ensures
        spec_fixupp(st, body, strict, off) matches Ok(st2) ==> spec_state_wf(st2, strict),
{
    let decoded = crate::fixupp::spec_fixups(body, 0);
    lemma_fixupp_fold_wf(st, decoded.0, 0, strict, off);
}

/// COMDAT preserves the invariant in each of its arms.
proof fn lemma_comdat_wf(st: SpecState, body: Seq<u8>, is32: bool, strict: bool, off: usize)
    requires
        spec_state_wf(st, strict),
    ensures
        spec_comdat(st, body, is32, strict, off) matches Ok(st2) ==> spec_state_wf(st2, strict),
{
    if body.len() >= 3 {
        let flags = body[0];
        let attrs = body[1];
        let continuation = flags % 2 == 1;
        let alloc = (attrs % 16) as u8;
        let width: int = if is32 {
            4
        } else {
            2
        };
        if 3 + width <= body.len() {
            let offv: int = if is32 {
                crate::prims::spec_le32(body, 3)
            } else {
                crate::prims::spec_le16(body, 3)
            };
            match crate::prims::spec_index(body, 3 + width) {
                Some(ti) => {
                    if alloc == 0 {
                        lemma_comdat_explicit_wf(
                            st,
                            body,
                            ti.1,
                            flags,
                            alloc,
                            continuation,
                            offv as u32,
                            strict,
                            off,
                        );
                    } else if alloc <= 3 {
                        lemma_comdat_implicit_wf(
                            st,
                            body,
                            ti.1,
                            flags,
                            alloc,
                            continuation,
                            offv as u32,
                            is32,
                            strict,
                            off,
                        );
                    }
                },
                None => {},
            }
        }
    }
}

/// The explicit COMDAT arm preserves the invariant.
proof fn lemma_comdat_explicit_wf(
    st: SpecState,
    body: Seq<u8>,
    p: int,
    flags: u8,
    alloc: u8,
    continuation: bool,
    offv: u32,
    strict: bool,
    off: usize,
)
    requires
        spec_state_wf(st, strict),
    ensures
        spec_comdat_explicit(st, body, p, flags, alloc, continuation, offv, strict, off) matches
            Ok(st2) ==> spec_state_wf(st2, strict),
{
}

/// The implicit COMDAT arm preserves the invariant.
proof fn lemma_comdat_implicit_wf(
    st: SpecState,
    body: Seq<u8>,
    p: int,
    flags: u8,
    alloc: u8,
    continuation: bool,
    offv: u32,
    is32: bool,
    strict: bool,
    off: usize,
)
    requires
        spec_state_wf(st, strict),
    ensures
        spec_comdat_implicit(st, body, p, flags, alloc, continuation, offv, is32, strict, off)
            matches Ok(st2) ==> spec_state_wf(st2, strict),
{
}

/// Every record handler preserves the invariant.
proof fn lemma_step_wf(st: SpecState, rec: u8, body: Seq<u8>, strict: bool, off: usize)
    requires
        spec_state_wf(st, strict),
    ensures
        spec_step(st, rec, body, strict, off) matches Ok(st2) ==> spec_state_wf(st2, strict),
{
    lemma_theadr_wf(st, body, strict);
    lemma_lnames_wf(st, body, 0, strict);
    lemma_segdef_wf(st, body, rec == crate::consts::SEGDEF32, strict, off);
    lemma_grpdef_wf(st, body, strict, off);
    lemma_extdef_wf(st, body, 0, strict);
    lemma_pubdef_wf(
        st,
        body,
        rec == crate::consts::PUBDEF32 || rec == crate::consts::LPUBDEF32,
        strict,
        off,
    );
    lemma_comdef_wf(st, body, 0, rec == crate::consts::COMDEF32, strict, off);
    lemma_data_wf(st, body, rec == crate::consts::LEDATA32, false, strict, off);
    lemma_data_wf(st, body, rec == crate::consts::LIDATA32, true, strict, off);
    lemma_fixupp_wf(st, body, strict, off);
    lemma_comdat_wf(st, body, rec == crate::consts::COMDAT32, strict, off);
}

/// Running the framer from a well-formed state yields a module whose
/// references resolve, whose name indices are bounded under the strict
/// policy, and whose consumed-byte count covers the whole input unless
/// MODEND stopped the parse early.
proof fn lemma_run_props(b: Seq<u8>, p: int, st: SpecState, strict: bool)
    requires
        0 <= p <= b.len(),
        spec_state_wf(st, strict),
    ensures
        spec_run(b, p, st, strict) matches Ok(m) ==> {
            &&& spec_module_refs_ok(m)
            &&& (strict ==> spec_module_names_ok(m))
            &&& spec_symbol_indices_ok(m)
            &&& p <= m.bytes_consumed <= b.len()
            &&& (!m.modend_seen ==> m.bytes_consumed == b.len())
        },
    decreases b.len() - p,
{
    if st.done || p >= b.len() {
    } else if p + 3 > b.len() {
    } else {
        let rec = b[p];
        let len = crate::prims::spec_le16(b, p + 1);
        if len == 0 || p + 3 + len > b.len() {
        } else {
            let body = b.subrange(p + 3, p + 3 + len - 1);
            lemma_step_wf(st, rec, body, strict, p as usize);
            match spec_step(st, rec, body, strict, p as usize) {
                Ok(st2) => {
                    lemma_run_props(b, p + 3 + len, st2, strict);
                },
                Err(_) => {},
            }
        }
    }
}

/// The initial parser state is well-formed.
proof fn lemma_init_wf(strict: bool)
    ensures
        spec_state_wf(spec_init_state(), strict),
{
}

/// Every segment referenced by a relocation of a parsed module
/// resolves to a declared segment or is 0 (unbound); so does every
/// segment a symbol, group or COMDAT fragment names.
pub proof fn lemma_parse_references_resolve(b: Seq<u8>, strict: bool, m: SpecModule)
    requires
        spec_parse(b, strict) == Ok::<SpecModule, OmfParseError>(m),
    ensures
        spec_module_refs_ok(m),
{
    lemma_init_wf(strict);
    lemma_run_props(b, 0, spec_init_state(), strict);
}

/// Under the strict policy, every name index a parsed module records
/// (SEGDEF names, classes and overlays, GRPDEF names, COMDAT names) is
/// 0 or at most the length of the name table.
pub proof fn lemma_parse_name_indices_bounded(b: Seq<u8>, m: SpecModule)
    requires
        spec_parse(b, true) == Ok::<SpecModule, OmfParseError>(m),
    ensures
        spec_module_names_ok(m),
{
    lemma_init_wf(true);
    lemma_run_props(b, 0, spec_init_state(), true);
}

/// Every public symbol's segment was declared before the symbol was
/// recorded: its index never exceeds the number of declared segments.
pub proof fn lemma_public_symbols_bound(b: Seq<u8>, strict: bool, m: SpecModule)
    requires
        spec_parse(b, strict) == Ok::<SpecModule, OmfParseError>(m),
    ensures
        forall|i: int|
            0 <= i < m.symbols.len() ==> ((#[trigger] m.symbols[i]).segment == 0 || m.symbols[
                i
            ].segment <= m.segments.len()),
{
    lemma_parse_references_resolve(b, strict, m);
}

/// The framer accounts for the input: it consumes the whole buffer
/// unless a MODEND record ended the module first, and never consumes
/// past the end.
pub proof fn lemma_framer_consumes_input(b: Seq<u8>, strict: bool, m: SpecModule)
    requires
        spec_parse(b, strict) == Ok::<SpecModule, OmfParseError>(m),
    ensures
        0 <= m.bytes_consumed <= b.len(),
        !m.modend_seen ==> m.bytes_consumed == b.len(),
{
    lemma_init_wf(strict);
    lemma_run_props(b, 0, spec_init_state(), strict);
}

/// Symbols keep their append order: the symbol at table position `i`
/// of a parsed module carries index `i`.
pub proof fn lemma_symbol_indices_are_append_order(b: Seq<u8>, strict: bool, m: SpecModule)
    requires
        spec_parse(b, strict) == Ok::<SpecModule, OmfParseError>(m),
    ensures
        spec_symbol_indices_ok(m),
{
    lemma_init_wf(strict);
    lemma_run_props(b, 0, spec_init_state(), strict);
}

/// Parsing is a pure function of the input bytes: two parses of the
/// same buffer under the same policy yield structurally identical
/// results.
pub proof fn lemma_reparse_identical(b: Seq<u8>, strict: bool, m1: SpecModule, m2: SpecModule)
    requires
        spec_parse(b, strict) == Ok::<SpecModule, OmfParseError>(m1),
        spec_parse(b, strict) == Ok::<SpecModule, OmfParseError>(m2),
    ensures
        m1 == m2,
{
}

} // verus!
