//! The parsed module: groups, common blocks, COMDAT fragments, tagged
//! comments, and the [`OmfFile`] that owns every table the record
//! stream declared.

use vstd::prelude::*;

use crate::comment::SpecComment;
use crate::error::OmfDiagnostic;
use crate::section::{
    OmfSection, OmfSectionData, OmfSectionFlags, OmfRelocation, SpecSection, SpecSectionData,
};
use crate::symbol::{OmfSymbol, SpecSymbol};

verus! {

/// The views of a sequence's elements, element by element.
pub open spec fn views_of<T: View>(s: Seq<T>) -> Seq<T::V> {
    Seq::new(s.len(), |i: int| s[i]@)
}

/// Pushing commutes with taking views.
pub proof fn lemma_views_of_push<T: View>(s: Seq<T>, x: T)
    ensures
        views_of(s.push(x)) =~= views_of(s).push(x@),
{
}

/// The reader reads every OMF module as x86 code.
#[derive(Clone, Copy, Debug, PartialEq, Eq, Structural)]
pub enum OmfArchitecture {
    /// 16- and 32-bit Intel objects are indistinguishable at record level.
    I386,
}

/// The file format this reader handles.
#[derive(Clone, Copy, Debug, PartialEq, Eq, Structural)]
pub enum OmfBinaryFormat {
    /// The Intel Object Module Format.
    Omf,
}

/// The entry point carried by a MODEND record with a start address: a
/// fixup-style locator of frame method, datum and offset.
#[derive(Clone, Copy, Debug, PartialEq, Eq, Structural)]
pub struct OmfEntryPoint {
    /// The locator's frame method byte.
    pub frame_method: u8,
    /// The locator's datum (a variable index).
    pub datum: u16,
    /// The start offset.
    pub offset: u32,
}

/// Vendor classification of a COMENT record by its class byte.
#[derive(Clone, Copy, Debug, PartialEq, Eq, Structural)]
pub enum OmfCommentClass {
    /// Microsoft-specific comment (class 0x00).
    Microsoft,
    /// Borland-specific comment (class 0x01).
    Borland,
    /// Watcom-specific comment (class 0x9A).
    Watcom,
    /// Embedded debug information (class 0x88).
    Dwarf,
    /// Compiler version or copyright banner (class 0xE9).
    Version,
    /// Any other class, kept raw.
    Unknown(u8),
}

/// The class a COMENT class byte denotes.
pub open spec fn spec_comment_class(c: u8) -> OmfCommentClass {
    if c == 0x00 {
        OmfCommentClass::Microsoft
    } else if c == 0x01 {
        OmfCommentClass::Borland
    } else if c == 0x9A {
        OmfCommentClass::Watcom
    } else if c == 0x88 {
        OmfCommentClass::Dwarf
    } else if c == 0xE9 {
        OmfCommentClass::Version
    } else {
        OmfCommentClass::Unknown(c)
    }
}

/// Whether comments of class `c` carry a subtype byte before their
/// payload (the Microsoft, Borland and Watcom classes do).
pub open spec fn spec_class_has_subtype(c: u8) -> bool {
    c == 0x00 || c == 0x01 || c == 0x9A
}

/// Classifies a COMENT class byte.
pub fn comment_class_of(c: u8) -> (r: OmfCommentClass)
    ensures
        r == spec_comment_class(c),
{
    if c == 0x00 {
        OmfCommentClass::Microsoft
    } else if c == 0x01 {
        OmfCommentClass::Borland
    } else if c == 0x9A {
        OmfCommentClass::Watcom
    } else if c == 0x88 {
        OmfCommentClass::Dwarf
    } else if c == 0xE9 {
        OmfCommentClass::Version
    } else {
        OmfCommentClass::Unknown(c)
    }
}

/// Returns whether comments of class `class` carry a subtype byte.
pub fn is_known_subtyped_class(class: u8) -> (r: bool)
    ensures
        r == spec_class_has_subtype(class),
{
    class == 0x00 || class == 0x01 || class == 0x9A
}

/// A COMENT record as stored on the module: tagged with its class and,
/// for subtyped classes, its subtype byte.
#[derive(Clone, Debug, PartialEq, Eq)]
pub struct OmfComment {
    /// Vendor classification of the class byte.
    pub class: OmfCommentClass,
    /// The subtype byte, for classes that carry one.
    pub subtype: Option<u8>,
    /// The payload after the type, class and subtype bytes.
    pub data: Vec<u8>,
    /// The whole record body, verbatim.
    pub raw: Vec<u8>,
}

/// Mathematical image of a stored comment.
#[verifier::ext_equal]
pub ghost struct SpecTaggedComment {
    pub class: OmfCommentClass,
    pub subtype: Option<u8>,
    pub data: Seq<u8>,
    pub raw: Seq<u8>,
}

impl View for OmfComment {
    type V = SpecTaggedComment;

    open spec fn view(&self) -> SpecTaggedComment {
        SpecTaggedComment {
            class: self.class,
            subtype: self.subtype,
            data: self.data@,
            raw: self.raw@,
        }
    }
}

/// A segment group declared by GRPDEF (for example `DGROUP`).
#[derive(Clone, Debug, PartialEq, Eq)]
pub struct OmfGroup {
    /// Group name, resolved from the name table.
    pub name: Vec<u8>,
    /// The 1-based name table index the record gave.
    pub name_index: u16,
    /// 1-based indices of the segments the group collects.
    pub segment_indices: Vec<u16>,
}

/// Mathematical image of a group.
#[verifier::ext_equal]
pub ghost struct SpecGroup {
    pub name: Seq<u8>,
    pub name_index: u16,
    pub segment_indices: Seq<u16>,
}

impl View for OmfGroup {
    type V = SpecGroup;

    open spec fn view(&self) -> SpecGroup {
        SpecGroup {
            name: self.name@,
            name_index: self.name_index,
            segment_indices: self.segment_indices@,
        }
    }
}

/// An uninitialised common block declared by COMDEF.
#[derive(Clone, Debug, PartialEq, Eq)]
pub struct OmfCommon {
    /// Symbol name.
    pub name: Vec<u8>,
    /// Size of one element in bytes.
    pub elem_size: u32,
    /// Number of elements (1 for a near common).
    pub elem_count: u32,
    /// Far (element count and size) rather than near (byte count).
    pub is_far: bool,
    /// Declared by the 32-bit record variant.
    pub is_32bit: bool,
}

/// Mathematical image of a common block.
#[verifier::ext_equal]
pub ghost struct SpecCommon {
    pub name: Seq<u8>,
    pub elem_size: u32,
    pub elem_count: u32,
    pub is_far: bool,
    pub is_32bit: bool,
}

impl View for OmfCommon {
    type V = SpecCommon;

    open spec fn view(&self) -> SpecCommon {
        SpecCommon {
            name: self.name@,
            elem_size: self.elem_size,
            elem_count: self.elem_count,
            is_far: self.is_far,
            is_32bit: self.is_32bit,
        }
    }
}

/// A link-once COMDAT fragment.  The reader keeps every fragment and
/// applies no selection; `selection` carries the record's flags byte
/// (its low nibble is the selection rule, 0 = pick-any).
#[derive(Clone, Debug, PartialEq, Eq)]
pub struct OmfComdat {
    /// Fragment name, resolved from the name table.
    pub name: Vec<u8>,
    /// The 1-based name table index the record gave.
    pub name_index: u16,
    /// The record's flags byte; low nibble = selection rule.
    pub selection: u8,
    /// Allocation flavour (attributes low nibble); 0 = explicit segment.
    pub alloc: u8,
    /// 1-based index of the segment holding the bytes; 0 = none.
    pub segment_index: u16,
    /// Offset of the bytes inside that segment.
    pub offset: u32,
    /// The segment's name, when a segment holds the bytes.
    pub segment_name: Option<Vec<u8>>,
    /// The fragment's bytes, when the record carried any.
    pub data: Option<Vec<u8>>,
}

/// Mathematical image of a COMDAT fragment.
#[verifier::ext_equal]
pub ghost struct SpecComdat {
    pub name: Seq<u8>,
    pub name_index: u16,
    pub selection: u8,
    pub alloc: u8,
    pub segment_index: u16,
    pub offset: u32,
    pub segment_name: Option<Seq<u8>>,
    pub data: Option<Seq<u8>>,
}

impl View for OmfComdat {
    type V = SpecComdat;

    open spec fn view(&self) -> SpecComdat {
        SpecComdat {
            name: self.name@,
            name_index: self.name_index,
            selection: self.selection,
            alloc: self.alloc,
            segment_index: self.segment_index,
            offset: self.offset,
            segment_name: match self.segment_name {
                Some(ref n) => Some(n@),
                None => None,
            },
            data: match self.data {
                Some(ref d) => Some(d@),
                None => None,
            },
        }
    }
}

/// A declared segment and everything later records bound to it.
#[derive(Clone, Debug, PartialEq, Eq)]
pub struct OmfSegment {
    /// Segment name, resolved from the name table.
    pub name: Vec<u8>,
    /// The 1-based segment-name index the SEGDEF gave.
    pub name_index: u16,
    /// Class name, resolved from the name table.
    pub class_name: Vec<u8>,
    /// The 1-based class-name index.
    pub class_index: u16,
    /// The 1-based overlay-name index.
    pub overlay_index: u16,
    /// Alignment code from the attribute byte (top three bits).
    pub alignment: u8,
    /// Combine type from the attribute byte.
    pub combine: u8,
    /// The big-segment bit: the segment spans the full address space.
    pub big: bool,
    /// The 32-bit bit of the attribute byte.
    pub use32: bool,
    /// Declared length in bytes (already widened when `big` is set).
    pub declared_len: u64,
    /// The class name marks the segment as code.
    pub executable: bool,
    /// The segment was synthesised for an implicit COMDAT.
    pub comdat: bool,
    /// Data chunks bound to the segment, in stream order.
    pub chunks: Vec<OmfSectionData>,
    /// Relocations attached to the segment's data.
    pub fixups: Vec<OmfRelocation>,
}

/// Mathematical image of a segment.
#[verifier::ext_equal]
pub ghost struct SpecSegment {
    pub name: Seq<u8>,
    pub name_index: u16,
    pub class_name: Seq<u8>,
    pub class_index: u16,
    pub overlay_index: u16,
    pub alignment: u8,
    pub combine: u8,
    pub big: bool,
    pub use32: bool,
    pub declared_len: u64,
    pub executable: bool,
    pub comdat: bool,
    pub chunks: Seq<SpecSectionData>,
    pub fixups: Seq<OmfRelocation>,
}

impl View for OmfSegment {
    type V = SpecSegment;

    open spec fn view(&self) -> SpecSegment {
        SpecSegment {
            name: self.name@,
            name_index: self.name_index,
            class_name: self.class_name@,
            class_index: self.class_index,
            overlay_index: self.overlay_index,
            alignment: self.alignment,
            combine: self.combine,
            big: self.big,
            use32: self.use32,
            declared_len: self.declared_len,
            executable: self.executable,
            comdat: self.comdat,
            chunks: views_of(self.chunks@),
            fixups: self.fixups@,
        }
    }
}

/// A parsed OMF object module.
#[derive(Clone, Debug, PartialEq, Eq)]
pub struct OmfFile {
    /// Source module name from THEADR, when one appeared.
    pub module_name: Option<Vec<u8>>,
    /// The LNAMES table, addressed 1-based by later records.
    pub lnames: Vec<Vec<u8>>,
    /// Declared segments, in declaration order.
    pub segments: Vec<OmfSegment>,
    /// Public, external and common symbols, in append order.
    pub symbols: Vec<OmfSymbol>,
    /// Declared groups.
    pub groups: Vec<OmfGroup>,
    /// COMDAT fragments, every one retained.
    pub comdats: Vec<OmfComdat>,
    /// Common blocks.
    pub commons: Vec<OmfCommon>,
    /// Tagged COMENT records.
    pub comments: Vec<OmfComment>,
    /// The MODEND start address, when one appeared.
    pub entry_point: Option<OmfEntryPoint>,
    /// MODEND marked this as a main module.
    pub main_module: bool,
    /// A MODEND record ended the module.
    pub modend_seen: bool,
    /// Bytes of the input the framer consumed; bytes after a MODEND are
    /// left untouched, so this also locates the end of the module.
    pub bytes_consumed: usize,
    /// Conditions tolerated while parsing in tolerant mode.
    pub diagnostics: Vec<OmfDiagnostic>,
}

/// Mathematical image of a parsed module.
#[verifier::ext_equal]
pub ghost struct SpecModule {
    pub module_name: Option<Seq<u8>>,
    pub lnames: Seq<Seq<u8>>,
    pub segments: Seq<SpecSegment>,
    pub symbols: Seq<SpecSymbol>,
    pub groups: Seq<SpecGroup>,
    pub comdats: Seq<SpecComdat>,
    pub commons: Seq<SpecCommon>,
    pub comments: Seq<SpecTaggedComment>,
    pub entry_point: Option<OmfEntryPoint>,
    pub main_module: bool,
    pub modend_seen: bool,
    pub bytes_consumed: int,
    pub diagnostics: Seq<OmfDiagnostic>,
}

impl View for OmfFile {
    type V = SpecModule;

    open spec fn view(&self) -> SpecModule {
        SpecModule {
            module_name: match self.module_name {
                Some(ref n) => Some(n@),
                None => None,
            },
            lnames: views_of(self.lnames@),
            segments: views_of(self.segments@),
            symbols: views_of(self.symbols@),
            groups: views_of(self.groups@),
            comdats: views_of(self.comdats@),
            commons: views_of(self.commons@),
            comments: views_of(self.comments@),
            entry_point: self.entry_point,
            main_module: self.main_module,
            modend_seen: self.modend_seen,
            bytes_consumed: self.bytes_consumed as int,
            diagnostics: self.diagnostics@,
        }
    }
}

/// The section list a module exposes: one section per declared segment,
/// then one per COMDAT fragment.
pub open spec fn spec_section_of_segment(i: int, s: SpecSegment) -> SpecSection {
    SpecSection {
        index: i,
        name: s.name,
        declared_len: s.declared_len as int,
        chunks: s.chunks,
        flags: (OmfSectionFlags { executable: s.executable, comdat: s.comdat }),
        relocs: s.fixups,
    }
}

/// The section a COMDAT fragment presents: its bytes as one chunk at
/// offset 0, link-once flagged, with no relocations of its own.
pub open spec fn spec_section_of_comdat(i: int, c: SpecComdat) -> SpecSection {
    SpecSection {
        index: i,
        name: c.name,
        declared_len: 0,
        chunks: match c.data {
            Some(d) => seq![SpecSectionData::Comdat { offset: 0u32, data: d }],
            None => Seq::<SpecSectionData>::empty(),
        },
        flags: (OmfSectionFlags { executable: false, comdat: true }),
        relocs: Seq::<OmfRelocation>::empty(),
    }
}

/// Every section of the module, segments first, COMDAT fragments after.
pub open spec fn spec_sections(m: SpecModule) -> Seq<SpecSection> {
    Seq::new(
        m.segments.len() + m.comdats.len(),
        |i: int|
            if i < m.segments.len() {
                spec_section_of_segment(i, m.segments[i])
            } else {
                spec_section_of_comdat(i, m.comdats[i - m.segments.len()])
            },
    )
}

/// Copies a byte vector.
pub fn clone_bytes(v: &Vec<u8>) -> (r: Vec<u8>)
    ensures
        r@ == v@,
{
    let s: &[u8] = v.as_slice();
    crate::prims::copy_range(s, 0, s.len())
}

/// Copies one data chunk.
fn clone_chunk(c: &OmfSectionData) -> (r: OmfSectionData)
    ensures
        r@ == c@,
{
    match c {
        OmfSectionData::Ledata { offset, data } => OmfSectionData::Ledata {
            offset: *offset,
            data: clone_bytes(data),
        },
        OmfSectionData::Comdat { offset, data } => OmfSectionData::Comdat {
            offset: *offset,
            data: clone_bytes(data),
        },
        OmfSectionData::Lidata { offset, raw } => OmfSectionData::Lidata {
            offset: *offset,
            raw: clone_bytes(raw),
        },
    }
}

/// Copies a chunk list.
fn clone_chunks(v: &Vec<OmfSectionData>) -> (r: Vec<OmfSectionData>)
    ensures
        views_of(r@) =~= views_of(v@),
        r@.len() == v@.len(),
{
    let mut out: Vec<OmfSectionData> = Vec::new();
    let mut i: usize = 0;
    while i < v.len()
        invariant
            0 <= i <= v@.len(),
            out@.len() == i,
            forall|j: int| 0 <= j < i ==> out@[j]@ == v@[j]@,
        decreases v@.len() - i,
    {
        out.push(clone_chunk(&v[i]));
        i = i + 1;
    }
    out
}

/// Copies a relocation list.
fn clone_relocs(v: &Vec<OmfRelocation>) -> (r: Vec<OmfRelocation>)
    ensures
        r@ =~= v@,
{
    let mut out: Vec<OmfRelocation> = Vec::new();
    let mut i: usize = 0;
    while i < v.len()
        invariant
            0 <= i <= v@.len(),
            out@ =~= v@.take(i as int),
        decreases v@.len() - i,
    {
        out.push(v[i]);
        i = i + 1;
        proof {
            assert(out@ =~= v@.take(i as int));
        }
    }
    proof {
        assert(v@.take(v@.len() as int) =~= v@);
    }
    out
}

impl OmfFile {
    /// A quick sniff: does the buffer plausibly open with an OMF record?
    /// Accepts a first byte in the narrow range common toolchains emit
    /// for a module's opening record.
    pub fn peek(data: &[u8]) -> (r: Result<(), ()>)
        ensures
            r is Ok <==> data@.len() > 0 && 0x80 <= data@[0] <= 0x9F,
    {
        if data.len() > 0 && 0x80 <= data[0] && data[0] <= 0x9F {
            Ok(())
        } else {
            Err(())
        }
    }

    /// Every OMF module targets x86.
    pub fn architecture(&self) -> (r: OmfArchitecture)
        ensures
            r == OmfArchitecture::I386,
    {
        OmfArchitecture::I386
    }

    /// The format of this reader.
    pub fn file_format(&self) -> (r: OmfBinaryFormat)
        ensures
            r == OmfBinaryFormat::Omf,
    {
        OmfBinaryFormat::Omf
    }

    /// OMF is always little-endian.
    pub fn is_little_endian(&self) -> (r: bool)
        ensures
            r == true,
    {
        true
    }

    /// The MODEND start address, when the module carried one.
    pub fn entry(&self) -> (r: Option<OmfEntryPoint>)
        ensures
            r == self.entry_point,
    {
        self.entry_point
    }

    /// The module's tagged COMENT records.
    pub fn comments(&self) -> (r: &Vec<OmfComment>)
        ensures
            views_of(r@) == self@.comments,
    {
        &self.comments
    }

    /// The module's symbol table, in append order.
    pub fn symbols(&self) -> (r: &Vec<OmfSymbol>)
        ensures
            views_of(r@) == self@.symbols,
    {
        &self.symbols
    }

    /// The module's symbol table; the same table `symbols` returns.
    pub fn symbol_table(&self) -> (r: &Vec<OmfSymbol>)
        ensures
            views_of(r@) == self@.symbols,
    {
        &self.symbols
    }

    /// The symbol at table index `index`.
    pub fn symbol_by_index(&self, index: usize) -> (r: Option<&OmfSymbol>)
        ensures
            index < self@.symbols.len() ==> (r matches Some(s) && s@ == self@.symbols[index as int]),
            index >= self@.symbols.len() ==> r is None,
    {
        if index < self.symbols.len() {
            Some(&self.symbols[index])
        } else {
            None
        }
    }

    /// The module's sections: one per declared segment, then one per
    /// COMDAT fragment, each carrying its name, chunks, flags and
    /// relocations.
    pub fn sections(&self) -> (r: Vec<OmfSection>)
        requires
            self@.segments.len() + self@.comdats.len() <= usize::MAX,
        ensures
            views_of(r@) =~= spec_sections(self@),
    {
        let mut out: Vec<OmfSection> = Vec::new();
        let mut i: usize = 0;
        while i < self.segments.len()
            invariant
                0 <= i <= self.segments@.len(),
                out@.len() == i,
                forall|j: int| 0 <= j < i ==> out@[j]@ == spec_section_of_segment(
                    j,
                    self@.segments[j],
                ),
                self@.segments.len() == self.segments@.len(),
                forall|j: int| 0 <= j < self.segments@.len() ==> self@.segments[j]
                    == self.segments@[j]@,
            decreases self.segments@.len() - i,
        {
            let seg: &OmfSegment = &self.segments[i];
            let sec: OmfSection = OmfSection {
                index: i,
                name: clone_bytes(&seg.name),
                declared_len: seg.declared_len,
                chunks: clone_chunks(&seg.chunks),
                flags: (OmfSectionFlags { executable: seg.executable, comdat: seg.comdat }),
                relocs: clone_relocs(&seg.fixups),
            };
            proof {
                assert(sec@ =~= spec_section_of_segment(i as int, self@.segments[i as int]));
            }
            out.push(sec);
            i = i + 1;
        }
        let nsegs: usize = self.segments.len();
        let mut k: usize = 0;
        while k < self.comdats.len()
            invariant
                0 <= k <= self.comdats@.len(),
                out@.len() == nsegs + k,
                nsegs == self.segments@.len(),
                nsegs + self.comdats@.len() <= usize::MAX,
                forall|j: int| 0 <= j < nsegs ==> out@[j]@ == spec_section_of_segment(
                    j,
                    self@.segments[j],
                ),
                forall|j: int| 0 <= j < k ==> out@[nsegs + j]@ == spec_section_of_comdat(
                    nsegs + j,
                    self@.comdats[j],
                ),
                self@.segments.len() == self.segments@.len(),
                self@.comdats.len() == self.comdats@.len(),
                forall|j: int| 0 <= j < self.comdats@.len() ==> self@.comdats[j]
                    == self.comdats@[j]@,
            decreases self.comdats@.len() - k,
        {
            let c: &OmfComdat = &self.comdats[k];
            let chunks: Vec<OmfSectionData> = match &c.data {
                Some(d) => {
                    let mut v: Vec<OmfSectionData> = Vec::new();
                    v.push(OmfSectionData::Comdat { offset: 0u32, data: clone_bytes(d) });
                    v
                },
                None => Vec::new(),
            };
            proof {
                match self@.comdats[k as int].data {
                    Some(d) => {
                        assert(views_of(chunks@) =~= seq![
                            SpecSectionData::Comdat { offset: 0u32, data: d },
                        ]);
                    },
                    None => {
                        assert(views_of(chunks@) =~= Seq::<SpecSectionData>::empty());
                    },
                }
            }
            let sec: OmfSection = OmfSection {
                index: nsegs + k,
                name: clone_bytes(&c.name),
                declared_len: 0,
                chunks,
                flags: (OmfSectionFlags { executable: false, comdat: true }),
                relocs: Vec::new(),
            };
            proof {
                assert(sec@ =~= spec_section_of_comdat(
                    nsegs + k as int,
                    self@.comdats[k as int],
                ));
            }
            out.push(sec);
            k = k + 1;
        }
        out
    }

    /// The section at `index` in the section list, or `None` past the
    /// end.
    pub fn section_by_index(&self, index: usize) -> (r: Option<OmfSection>)
        requires
            self@.segments.len() + self@.comdats.len() <= usize::MAX,
        ensures
            index < spec_sections(self@).len() ==> (r matches Some(s) && s@ == spec_sections(
                self@,
            )[index as int]),
            index >= spec_sections(self@).len() ==> r is None,
    {
        let all: Vec<OmfSection> = self.sections();
        if index < all.len() {
            let mut v: Vec<OmfSection> = all;
            let s: OmfSection = v.remove(index);
            Some(s)
        } else {
            None
        }
    }
}

} // verus!
