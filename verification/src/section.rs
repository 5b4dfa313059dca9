//! Sections, section data chunks, and relocations.
//!
//! A section corresponds to one declared segment (SEGDEF) or to one
//! COMDAT fragment.  A segment's contents arrive as any number of data
//! chunks (LEDATA, LIDATA, or COMDAT records), each placed at an offset
//! inside the segment's address space; the chunks are kept in stream
//! order and can be assembled into a flat byte image on demand.

use vstd::prelude::*;

verus! {

/// Flags attached to a section, derived from its SEGDEF class name and
/// from whether it was produced by a COMDAT record.
#[derive(Clone, Copy, Debug, PartialEq, Eq, Structural)]
pub struct OmfSectionFlags {
    /// The segment's class name marks it as code.
    pub executable: bool,
    /// The section is a link-once COMDAT fragment.
    pub comdat: bool,
}

/// How a relocated value relates to the patched location.
#[derive(Clone, Copy, Debug, PartialEq, Eq, Structural)]
pub enum OmfRelocKind {
    /// Segment-relative fixup: the linker stores an absolute value.
    Absolute,
    /// Self-relative fixup: the stored value is relative to the location.
    Relative,
}

/// What a fixup patches the location to point at.
#[derive(Clone, Copy, Debug, PartialEq, Eq, Structural)]
pub enum OmfFixupTarget {
    /// A declared segment, by 1-based index (0 = unbound).
    Segment(u16),
    /// A declared group, by 1-based index.
    Group(u16),
    /// An external symbol, by 1-based index.
    External(u16),
}

/// The frame (base) relative to which a fixup target is addressed.
#[derive(Clone, Copy, Debug, PartialEq, Eq, Structural)]
pub enum OmfFixupFrame {
    /// A declared segment, by 1-based index (0 = unbound).
    Segment(u16),
    /// A declared group, by 1-based index.
    Group(u16),
    /// An external symbol, by 1-based index.
    External(u16),
    /// An explicit frame number carried inline.
    Absolute(u16),
    /// The frame of the location being patched.
    Location,
    /// The frame of the target itself.
    Target,
}

/// One relocation, decoded from a FIXUPP fixup subrecord.
#[derive(Clone, Copy, Debug, PartialEq, Eq)]
pub struct OmfRelocation {
    /// Offset of the patched location within the segment.
    pub offset: u32,
    /// What the location is patched to point at.
    pub target: OmfFixupTarget,
    /// The frame the target is addressed against, when one was given.
    pub frame: Option<OmfFixupFrame>,
    /// Absolute (segment-relative) or self-relative.
    pub kind: OmfRelocKind,
    /// Width of the patched location in bits.
    pub size: u8,
    /// Displacement added to the target.
    pub addend: i64,
}

/// One data chunk bound to a segment, in stream order.
#[derive(Clone, Debug, PartialEq, Eq)]
pub enum OmfSectionData {
    /// Raw bytes from a LEDATA record, placed at `offset`.
    Ledata { offset: u32, data: Vec<u8> },
    /// Bytes attached by a COMDAT record, placed at `offset`.
    Comdat { offset: u32, data: Vec<u8> },
    /// An iterated data block from a LIDATA record, kept unexpanded.
    Lidata { offset: u32, raw: Vec<u8> },
}

/// Mathematical image of a data chunk.
pub ghost enum SpecSectionData {
    Ledata { offset: u32, data: Seq<u8> },
    Comdat { offset: u32, data: Seq<u8> },
    Lidata { offset: u32, raw: Seq<u8> },
}

impl View for OmfSectionData {
    type V = SpecSectionData;

    open spec fn view(&self) -> SpecSectionData {
        match self {
            OmfSectionData::Ledata { offset, data } => SpecSectionData::Ledata {
                offset: *offset,
                data: data@,
            },
            OmfSectionData::Comdat { offset, data } => SpecSectionData::Comdat {
                offset: *offset,
                data: data@,
            },
            OmfSectionData::Lidata { offset, raw } => SpecSectionData::Lidata {
                offset: *offset,
                raw: raw@,
            },
        }
    }
}

/// A section as handed to consumers: one segment or one COMDAT fragment.
#[derive(Clone, Debug, PartialEq, Eq)]
pub struct OmfSection {
    /// Position of this section in the module's section list.
    pub index: usize,
    /// Section name, resolved from the name table (raw bytes).
    pub name: Vec<u8>,
    /// Declared segment length in bytes (0 for a bare COMDAT fragment).
    pub declared_len: u64,
    /// Data chunks bound to this section, in stream order.
    pub chunks: Vec<OmfSectionData>,
    /// Heuristic flags.
    pub flags: OmfSectionFlags,
    /// Relocations attached to this section's data.
    pub relocs: Vec<OmfRelocation>,
}

/// Mathematical image of a section.
pub ghost struct SpecSection {
    pub index: int,
    pub name: Seq<u8>,
    pub declared_len: int,
    pub chunks: Seq<SpecSectionData>,
    pub flags: OmfSectionFlags,
    pub relocs: Seq<OmfRelocation>,
}

impl View for OmfSection {
    type V = SpecSection;

    open spec fn view(&self) -> SpecSection {
        SpecSection {
            index: self.index as int,
            name: self.name@,
            declared_len: self.declared_len as int,
            chunks: Seq::new(self.chunks@.len(), |i: int| self.chunks@[i]@),
            flags: self.flags,
            relocs: self.relocs@,
        }
    }
}

/// Every segment index mentioned by a relocation either is 0 (unbound)
/// or names one of the `nsegs` declared segments.
pub open spec fn spec_reloc_in_bounds(r: OmfRelocation, nsegs: int) -> bool {
    &&& (r.target matches OmfFixupTarget::Segment(k) ==> k == 0 || k <= nsegs)
    &&& (r.frame matches Some(OmfFixupFrame::Segment(k)) ==> k == 0 || k <= nsegs)
}

/// The number of bytes a chunk claims inside the segment's address
/// space: its offset plus its data length.  An unexpanded LIDATA chunk
/// claims nothing.
pub open spec fn spec_chunk_extent(c: SpecSectionData) -> int {
    match c {
        SpecSectionData::Ledata { offset, data } => offset + data.len(),
        SpecSectionData::Comdat { offset, data } => offset + data.len(),
        SpecSectionData::Lidata { .. } => 0,
    }
}

/// Length of the assembled image: the declared length, grown to cover
/// every enumerated chunk.
pub open spec fn spec_section_extent(declared_len: int, chunks: Seq<SpecSectionData>) -> int
    decreases chunks.len(),
{
    if chunks.len() == 0 {
        declared_len
    } else {
        let rest = spec_section_extent(declared_len, chunks.drop_last());
        let last = spec_chunk_extent(chunks.last());
        if last > rest {
            last
        } else {
            rest
        }
    }
}

/// `base` with `data` written at `off` (bytes past the end are lost).
pub open spec fn spec_write_at(base: Seq<u8>, off: int, data: Seq<u8>) -> Seq<u8> {
    Seq::new(base.len(), |i: int|
        if off <= i < off + data.len() {
            data[i - off]
        } else {
            base[i]
        })
}

/// `base` with one chunk applied; unexpanded LIDATA contributes nothing.
pub open spec fn spec_apply_chunk(base: Seq<u8>, c: SpecSectionData) -> Seq<u8> {
    match c {
        SpecSectionData::Ledata { offset, data } => spec_write_at(base, offset as int, data),
        SpecSectionData::Comdat { offset, data } => spec_write_at(base, offset as int, data),
        SpecSectionData::Lidata { .. } => base,
    }
}

/// All chunks applied in stream order to a zero-filled image.
pub open spec fn spec_apply_chunks(base: Seq<u8>, chunks: Seq<SpecSectionData>) -> Seq<u8>
    decreases chunks.len(),
{
    if chunks.len() == 0 {
        base
    } else {
        spec_apply_chunk(spec_apply_chunks(base, chunks.drop_last()), chunks.last())
    }
}

/// The flat byte image of a section: a zero-filled buffer of the
/// section's extent with every enumerated chunk written at its offset.
pub open spec fn spec_assembled(s: SpecSection) -> Seq<u8> {
    spec_apply_chunks(
        Seq::new(spec_section_extent(s.declared_len, s.chunks) as nat, |i: int| 0u8),
        s.chunks,
    )
}

impl OmfSection {
    /// This section's index in the module's section list.
    pub fn index(&self) -> (r: usize)
        ensures
            r == self.index,
    {
        self.index
    }

    /// The section's name bytes.
    pub fn name(&self) -> (r: &Vec<u8>)
        ensures
            r@ == self@.name,
    {
        &self.name
    }

    /// OMF assigns no load address; always 0.
    pub fn address(&self) -> (r: u64)
        ensures
            r == 0,
    {
        0
    }

    /// OMF encodes no alignment requirement here; always 1.
    pub fn align(&self) -> (r: u64)
        ensures
            r == 1,
    {
        1
    }

    /// The section's flags.
    pub fn flags(&self) -> (r: OmfSectionFlags)
        ensures
            r == self.flags,
    {
        self.flags
    }

    /// The relocations attached to this section.
    pub fn relocations(&self) -> (r: &Vec<OmfRelocation>)
        ensures
            r@ == self@.relocs,
    {
        &self.relocs
    }

    /// OMF sections stand alone; none belongs to an enclosing segment.
    pub fn segment(&self) -> (r: Option<u16>)
        ensures
            r is None,
    {
        None
    }

    /// Length of the assembled image in bytes.
    pub fn size(&self) -> (r: u64)
        requires
            spec_section_extent(self@.declared_len, self@.chunks) <= u64::MAX,
        ensures
            r as int == spec_section_extent(self@.declared_len, self@.chunks),
            r as int == spec_assembled(self@).len(),
    {
        let mut ext: u64 = self.declared_len;
        let mut i: usize = 0;
        while i < self.chunks.len()
            invariant
                0 <= i <= self.chunks@.len(),
                ext as int == spec_section_extent(
                    self@.declared_len,
                    self@.chunks.take(i as int),
                ),
                spec_section_extent(self@.declared_len, self@.chunks) <= u64::MAX,
                self@.chunks.len() == self.chunks@.len(),
                forall|j: int|
                    0 <= j < self.chunks@.len() ==> self@.chunks[j] == self.chunks@[j]@,
            decreases self.chunks@.len() - i,
        {
            proof {
                lemma_extent_take_step(self@.declared_len, self@.chunks, i as int);
                lemma_extent_monotone(self@.declared_len, self@.chunks, i + 1);
            }
            let ce: u64 = match &self.chunks[i] {
                OmfSectionData::Ledata { offset, data } => *offset as u64 + data.len() as u64,
                OmfSectionData::Comdat { offset, data } => *offset as u64 + data.len() as u64,
                OmfSectionData::Lidata { .. } => 0,
            };
            if ce > ext {
                ext = ce;
            }
            i = i + 1;
        }
        proof {
            assert(self@.chunks.take(self.chunks@.len() as int) =~= self@.chunks);
            lemma_apply_chunks_len(
                Seq::new(spec_section_extent(self@.declared_len, self@.chunks) as nat, |i: int| 0u8),
                self@.chunks,
            );
        }
        ext
    }

    /// The assembled byte image: a zero-filled buffer of the section's
    /// extent with every LEDATA and COMDAT chunk written at its offset,
    /// later chunks over earlier ones.  Unexpanded LIDATA chunks are not
    /// placed; they stay available raw in `chunks`.
    pub fn data(&self) -> (r: Vec<u8>)
        requires
            spec_section_extent(self@.declared_len, self@.chunks) <= usize::MAX,
        ensures
            r@ == spec_assembled(self@),
    {
        let n: u64 = self.size();
        let cap: usize = n as usize;
        let mut out: Vec<u8> = Vec::new();
        let ghost base = Seq::new(spec_section_extent(self@.declared_len, self@.chunks) as nat, |i: int| 0u8);
        while out.len() < cap
            invariant
                out@.len() <= cap,
                cap as int == base.len(),
                forall|k: int| 0 <= k < out@.len() ==> out@[k] == 0u8,
            decreases cap - out@.len(),
        {
            out.push(0u8);
        }
        proof {
            assert(out@ =~= base);
        }
        let mut i: usize = 0;
        while i < self.chunks.len()
            invariant
                0 <= i <= self.chunks@.len(),
                out@ == spec_apply_chunks(base, self@.chunks.take(i as int)),
                out@.len() == base.len(),
                base.len() == spec_section_extent(self@.declared_len, self@.chunks),
                self@.chunks.len() == self.chunks@.len(),
                forall|j: int|
                    0 <= j < self.chunks@.len() ==> self@.chunks[j] == self.chunks@[j]@,
            decreases self.chunks@.len() - i,
        {
            proof {
                assert(self@.chunks.take(i + 1).drop_last() =~= self@.chunks.take(i as int));
                assert(self@.chunks.take(i + 1).last() == self@.chunks[i as int]);
                lemma_extent_monotone(self@.declared_len, self@.chunks, i + 1);
                lemma_extent_take_step(self@.declared_len, self@.chunks, i as int);
            }
            match &self.chunks[i] {
                OmfSectionData::Ledata { offset, data } => {
                    write_into(&mut out, *offset as usize, data);
                },
                OmfSectionData::Comdat { offset, data } => {
                    write_into(&mut out, *offset as usize, data);
                },
                OmfSectionData::Lidata { .. } => {},
            }
            i = i + 1;
        }
        proof {
            assert(self@.chunks.take(self.chunks@.len() as int) =~= self@.chunks);
        }
        out
    }
}

/// Writes `data` into `out` starting at `off`.  The caller has sized
/// `out` to cover the write, so nothing is lost.
fn write_into(out: &mut Vec<u8>, off: usize, data: &Vec<u8>)
    requires
        off + data@.len() <= old(out)@.len(),
    ensures
        final(out)@ == spec_write_at(old(out)@, off as int, data@),
        final(out)@.len() == old(out)@.len(),
{
    let total: usize = out.len();
    let mut j: usize = 0;
    while j < data.len()
        invariant
            0 <= j <= data@.len(),
            off + data@.len() <= out@.len(),
            out@.len() == total,
            out@.len() == old(out)@.len(),
            forall|k: int|
                0 <= k < out@.len() ==> out@[k] == (if off <= k < off + j {
                    data@[k - off]
                } else {
                    old(out)@[k]
                }),
        decreases data@.len() - j,
    {
        let idx: usize = off + j;
        out[idx] = data[j];
        j = j + 1;
    }
    proof {
        assert(final(out)@ =~= spec_write_at(old(out)@, off as int, data@));
    }
}

/// The extent over a prefix one longer is the maximum of the prefix
/// extent and the next chunk's extent.
proof fn lemma_extent_take_step(declared: int, chunks: Seq<SpecSectionData>, i: int)
    requires
        0 <= i < chunks.len(),
    ensures
        spec_section_extent(declared, chunks.take(i + 1)) == if spec_chunk_extent(chunks[i])
            > spec_section_extent(declared, chunks.take(i)) {
            spec_chunk_extent(chunks[i])
        } else {
            spec_section_extent(declared, chunks.take(i))
        },
{
    assert(chunks.take(i + 1).drop_last() =~= chunks.take(i));
    assert(chunks.take(i + 1).last() == chunks[i]);
}

/// Applying chunks never changes the image's length.
proof fn lemma_apply_chunks_len(base: Seq<u8>, chunks: Seq<SpecSectionData>)
    ensures
        spec_apply_chunks(base, chunks).len() == base.len(),
    decreases chunks.len(),
{
    if chunks.len() > 0 {
        lemma_apply_chunks_len(base, chunks.drop_last());
    }
}

/// A prefix never has a larger extent than the whole chunk list.
proof fn lemma_extent_monotone(declared: int, chunks: Seq<SpecSectionData>, i: int)
    requires
        0 <= i <= chunks.len(),
    ensures
        spec_section_extent(declared, chunks.take(i)) <= spec_section_extent(declared, chunks),
        spec_chunk_extent_bound(declared, chunks, i),
    decreases chunks.len() - i,
{
    if i == chunks.len() {
        assert(chunks.take(i) =~= chunks);
    } else {
        lemma_extent_monotone(declared, chunks, i + 1);
        lemma_extent_take_step(declared, chunks, i);
    }
}

/// Every chunk at or past `i` fits inside the whole extent.
pub open spec fn spec_chunk_extent_bound(
    declared: int,
    chunks: Seq<SpecSectionData>,
    i: int,
) -> bool {
    forall|j: int|
        i <= j < chunks.len() ==> #[trigger] spec_chunk_extent(chunks[j]) <= spec_section_extent(
            declared,
            chunks,
        )
}

} // verus!
