//! FIXUPP record decoding.
//!
//! A FIXUPP body is a run of subrecords.  A first byte with the high bit
//! clear opens a thread subrecord, which stores a reusable frame or
//! target in one of four slots per kind; a first byte with the high bit
//! set opens a fixup subrecord, which yields one relocation.  Thread
//! slots persist across FIXUPP records until overwritten.
//!
//! Subrecord layout, as decoded here:
//! - thread first byte: bit 6 distinguishes frame (1) from target (0)
//!   threads, bits 4..2 hold the method, bits 1..0 the slot;
//! - fixup first byte: bit 6 is the segment-relative flag, bits 5..2 the
//!   location code, bits 1..0 the top of a 10-bit location offset whose
//!   low 8 bits follow in the second byte;
//! - the fix-data byte then selects threaded or inline frame and target
//!   and whether a 16-bit displacement follows (present when its `P` bit
//!   is clear).
//!
//! A frame or target method is followed by its datum: a variable index
//! for the segment, group, external and by-target methods, and an inline
//! 16-bit word for the absolute-frame and location methods.

use vstd::prelude::*;

use crate::prims::{read_index, read_le16, spec_index, spec_le16};
use crate::section::{OmfFixupFrame, OmfFixupTarget, OmfRelocKind, OmfRelocation};

verus! {

/// A fixup's frame: either a frame thread slot or an inline frame.
#[derive(Clone, Copy, Debug, PartialEq, Eq)]
pub enum OmfFrameRef {
    /// A frame thread slot (0..3).
    Thread(u8),
    /// A frame carried inline in the subrecord.
    Explicit(OmfFixupFrame),
}

/// A fixup's target: either a target thread slot or an inline target.
#[derive(Clone, Copy, Debug, PartialEq, Eq)]
pub enum OmfTargetRef {
    /// A target thread slot (0..3).
    Thread(u8),
    /// A target carried inline in the subrecord.
    Explicit(OmfFixupTarget),
}

/// One decoded FIXUPP subrecord.
#[derive(Clone, Copy, Debug, PartialEq, Eq)]
pub enum OmfFixup {
    /// A thread subrecord storing a reusable frame.
    FrameThread { slot: u8, frame: OmfFixupFrame },
    /// A thread subrecord storing a reusable target.
    TargetThread { slot: u8, target: OmfFixupTarget },
    /// A fixup subrecord: one relocation once frame and target resolve.
    Fixup {
        /// Segment-relative when set; self-relative when clear.
        segment_relative: bool,
        /// The location code selecting the patched width.
        location: u8,
        /// 10-bit offset of the location inside the current data chunk.
        data_offset: u16,
        /// Threaded or inline frame.
        frame: OmfFrameRef,
        /// Threaded or inline target.
        target: OmfTargetRef,
        /// Displacement added to the target (0 when none followed).
        disp: u16,
    },
}

/// The reusable frame and target slots that thread subrecords fill.
#[derive(Clone, Copy, Debug, PartialEq, Eq)]
pub struct ThreadState {
    pub frame0: Option<OmfFixupFrame>,
    pub frame1: Option<OmfFixupFrame>,
    pub frame2: Option<OmfFixupFrame>,
    pub frame3: Option<OmfFixupFrame>,
    pub target0: Option<OmfFixupTarget>,
    pub target1: Option<OmfFixupTarget>,
    pub target2: Option<OmfFixupTarget>,
    pub target3: Option<OmfFixupTarget>,
}

/// The width in bits selected by a fixup's location code, or `None` for
/// a code this reader does not accept.
pub open spec fn spec_width_of(location: u8) -> Option<u8> {
    if location == 0 || location == 4 {
        Some(8u8)
    } else if location == 1 || location == 2 || location == 5 {
        Some(16u8)
    } else if location == 3 || location == 9 || location == 13 {
        Some(32u8)
    } else if location == 11 {
        Some(48u8)
    } else {
        None
    }
}

/// Decodes the datum of a frame method at `p`: the frame it denotes and
/// the position after it.
pub open spec fn spec_frame_datum(b: Seq<u8>, p: int, method: u8) -> Option<(OmfFixupFrame, int)>
    recommends
        0 <= p,
{
    if method == 0 || method == 1 || method == 2 || method == 4 {
        match spec_index(b, p) {
            Some(m) => {
                let fr = if method == 0 {
                    OmfFixupFrame::Segment(m.0 as u16)
                } else if method == 1 {
                    OmfFixupFrame::Group(m.0 as u16)
                } else if method == 2 {
                    OmfFixupFrame::External(m.0 as u16)
                } else {
                    OmfFixupFrame::Target
                };
                Some((fr, m.1))
            },
            None => None,
        }
    } else if method == 3 || method == 5 {
        if p + 2 <= b.len() {
            let fr = if method == 3 {
                OmfFixupFrame::Absolute(spec_le16(b, p) as u16)
            } else {
                OmfFixupFrame::Location
            };
            Some((fr, p + 2))
        } else {
            None
        }
    } else {
        None
    }
}

/// Decodes the datum of a target method at `p`: the target it denotes
/// and the position after it.
pub open spec fn spec_target_datum(b: Seq<u8>, p: int, method: u8) -> Option<(OmfFixupTarget, int)>
    recommends
        0 <= p,
{
    if method == 0 || method == 1 || method == 2 {
        match spec_index(b, p) {
            Some(m) => {
                let t = if method == 0 {
                    OmfFixupTarget::Segment(m.0 as u16)
                } else if method == 1 {
                    OmfFixupTarget::Group(m.0 as u16)
                } else {
                    OmfFixupTarget::External(m.0 as u16)
                };
                Some((t, m.1))
            },
            None => None,
        }
    } else {
        None
    }
}

/// Decodes one subrecord at `p`: the subrecord and the position after
/// it, or `None` when the bytes at `p` are not a decodable subrecord.
pub open spec fn spec_fixup_at(b: Seq<u8>, p: int) -> Option<(OmfFixup, int)>
    recommends
        0 <= p,
{
    if p >= b.len() {
        None
    } else {
        let b0 = b[p];
        if b0 < 128 {
            let is_frame = (b0 / 64) % 2 == 1;
            let method = ((b0 / 4) % 8) as u8;
            let slot = (b0 % 4) as u8;
            if is_frame {
                match spec_frame_datum(b, p + 1, method) {
                    Some(m) => Some((OmfFixup::FrameThread { slot, frame: m.0 }, m.1)),
                    None => None,
                }
            } else {
                match spec_target_datum(b, p + 1, method) {
                    Some(m) => Some((OmfFixup::TargetThread { slot, target: m.0 }, m.1)),
                    None => None,
                }
            }
        } else if p + 3 <= b.len() {
            let segment_relative = (b0 / 64) % 2 == 1;
            let location = ((b0 / 4) % 16) as u8;
            let data_offset = ((b0 % 4) * 256 + b[p + 1]) as u16;
            if spec_width_of(location) is None {
                None
            } else {
                let fd = b[p + 2];
                let f_threaded = fd / 128 == 1;
                let frame_field = ((fd / 16) % 8) as u8;
                let t_threaded = (fd / 8) % 2 == 1;
                let no_disp = (fd / 4) % 2 == 1;
                let targt = (fd % 4) as u8;
                let frame_step: Option<(OmfFrameRef, int)> = if f_threaded {
                    Some((OmfFrameRef::Thread((frame_field % 4) as u8), p + 3))
                } else {
                    match spec_frame_datum(b, p + 3, frame_field) {
                        Some(m) => Some((OmfFrameRef::Explicit(m.0), m.1)),
                        None => None,
                    }
                };
                match frame_step {
                    None => None,
                    Some(fs) => {
                        let target_step: Option<(OmfTargetRef, int)> = if t_threaded {
                            Some((OmfTargetRef::Thread(targt), fs.1))
                        } else {
                            match spec_target_datum(b, fs.1, targt) {
                                Some(m) => Some((OmfTargetRef::Explicit(m.0), m.1)),
                                None => None,
                            }
                        };
                        match target_step {
                            None => None,
                            Some(ts) => {
                                if no_disp {
                                    Some(
                                        (
                                            OmfFixup::Fixup {
                                                segment_relative,
                                                location,
                                                data_offset,
                                                frame: fs.0,
                                                target: ts.0,
                                                disp: 0u16,
                                            },
                                            ts.1,
                                        ),
                                    )
                                } else if ts.1 + 2 <= b.len() {
                                    Some(
                                        (
                                            OmfFixup::Fixup {
                                                segment_relative,
                                                location,
                                                data_offset,
                                                frame: fs.0,
                                                target: ts.0,
                                                disp: spec_le16(b, ts.1) as u16,
                                            },
                                            ts.1 + 2,
                                        ),
                                    )
                                } else {
                                    None
                                }
                            },
                        }
                    },
                }
            }
        } else {
            None
        }
    }
}

/// A decoded subrecord always advances and stays inside the buffer.
pub proof fn lemma_fixup_at_advances(b: Seq<u8>, p: int)
    requires
        0 <= p,
    ensures
        spec_fixup_at(b, p) matches Some(m) ==> p < m.1 <= b.len(),
{
}

/// The subrecords of a FIXUPP body from `p` on, and whether decoding
/// stopped early on a malformed subrecord (the rest is then skipped).
pub open spec fn spec_fixups(b: Seq<u8>, p: int) -> (Seq<OmfFixup>, bool)
    recommends
        0 <= p,
    decreases b.len() - p,
    via spec_fixups_dec
{
    if p < 0 || p >= b.len() {
        (Seq::<OmfFixup>::empty(), false)
    } else {
        match spec_fixup_at(b, p) {
            None => (Seq::<OmfFixup>::empty(), true),
            Some(m) => {
                let rest = spec_fixups(b, m.1);
                (seq![m.0] + rest.0, rest.1)
            },
        }
    }
}

#[via_fn]
proof fn spec_fixups_dec(b: Seq<u8>, p: int) {
    if 0 <= p < b.len() {
        lemma_fixup_at_advances(b, p);
    }
}

/// Decodes the datum of a frame method.
fn read_frame_datum(b: &[u8], p: usize, method: u8) -> (r: Option<(OmfFixupFrame, usize)>)
    ensures
        match r {
            Some(v) => {
                &&& spec_frame_datum(b@, p as int, method) matches Some(m)
                &&& v.0 == m.0
                &&& v.1 as int == m.1
            },
            None => spec_frame_datum(b@, p as int, method) is None,
        },
{
    if method == 0 || method == 1 || method == 2 || method == 4 {
        match read_index(b, p) {
            Some(v) => {
                let fr: OmfFixupFrame = if method == 0 {
                    OmfFixupFrame::Segment(v.0)
                } else if method == 1 {
                    OmfFixupFrame::Group(v.0)
                } else if method == 2 {
                    OmfFixupFrame::External(v.0)
                } else {
                    OmfFixupFrame::Target
                };
                Some((fr, v.1))
            },
            None => None,
        }
    } else if method == 3 || method == 5 {
        if p < b.len() && b.len() - p >= 2 {
            let fr: OmfFixupFrame = if method == 3 {
                OmfFixupFrame::Absolute(read_le16(b, p))
            } else {
                OmfFixupFrame::Location
            };
            Some((fr, p + 2))
        } else {
            None
        }
    } else {
        None
    }
}

/// Decodes the datum of a target method.
fn read_target_datum(b: &[u8], p: usize, method: u8) -> (r: Option<(OmfFixupTarget, usize)>)
    ensures
        match r {
            Some(v) => {
                &&& spec_target_datum(b@, p as int, method) matches Some(m)
                &&& v.0 == m.0
                &&& v.1 as int == m.1
            },
            None => spec_target_datum(b@, p as int, method) is None,
        },
{
    if method == 0 || method == 1 || method == 2 {
        match read_index(b, p) {
            Some(v) => {
                let t: OmfFixupTarget = if method == 0 {
                    OmfFixupTarget::Segment(v.0)
                } else if method == 1 {
                    OmfFixupTarget::Group(v.0)
                } else {
                    OmfFixupTarget::External(v.0)
                };
                Some((t, v.1))
            },
            None => None,
        }
    } else {
        None
    }
}

/// Decodes one subrecord at `p`.
fn read_fixup_at(b: &[u8], p: usize) -> (r: Option<(OmfFixup, usize)>)
    ensures
        match r {
            Some(v) => {
                &&& spec_fixup_at(b@, p as int) matches Some(m)
                &&& v.0 == m.0
                &&& v.1 as int == m.1
            },
            None => spec_fixup_at(b@, p as int) is None,
        },
{
    if p >= b.len() {
        return None;
    }
    let b0: u8 = b[p];
    if b0 < 128 {
        let method: u8 = (b0 / 4) % 8;
        let slot: u8 = b0 % 4;
        if (b0 / 64) % 2 == 1 {
            match read_frame_datum(b, p + 1, method) {
                Some(v) => Some((OmfFixup::FrameThread { slot, frame: v.0 }, v.1)),
                None => None,
            }
        } else {
            match read_target_datum(b, p + 1, method) {
                Some(v) => Some((OmfFixup::TargetThread { slot, target: v.0 }, v.1)),
                None => None,
            }
        }
    } else if b.len() - p >= 3 {
        let segment_relative: bool = (b0 / 64) % 2 == 1;
        let location: u8 = (b0 / 4) % 16;
        let data_offset: u16 = (b0 % 4) as u16 * 256 + b[p + 1] as u16;
        if width_of_location(location).is_none() {
            return None;
        }
        let fd: u8 = b[p + 2];
        let frame_field: u8 = (fd / 16) % 8;
        let targt: u8 = fd % 4;
        let frame_step: Option<(OmfFrameRef, usize)> = if fd / 128 == 1 {
            Some((OmfFrameRef::Thread(frame_field % 4), p + 3))
        } else {
            match read_frame_datum(b, p + 3, frame_field) {
                Some(v) => Some((OmfFrameRef::Explicit(v.0), v.1)),
                None => None,
            }
        };
        match frame_step {
            None => None,
            Some(fs) => {
                let target_step: Option<(OmfTargetRef, usize)> = if (fd / 8) % 2 == 1 {
                    Some((OmfTargetRef::Thread(targt), fs.1))
                } else {
                    match read_target_datum(b, fs.1, targt) {
                        Some(v) => Some((OmfTargetRef::Explicit(v.0), v.1)),
                        None => None,
                    }
                };
                match target_step {
                    None => None,
                    Some(ts) => {
                        if (fd / 4) % 2 == 1 {
                            Some(
                                (
                                    OmfFixup::Fixup {
                                        segment_relative,
                                        location,
                                        data_offset,
                                        frame: fs.0,
                                        target: ts.0,
                                        disp: 0u16,
                                    },
                                    ts.1,
                                ),
                            )
                        } else if ts.1 < b.len() && b.len() - ts.1 >= 2 {
                            Some(
                                (
                                    OmfFixup::Fixup {
                                        segment_relative,
                                        location,
                                        data_offset,
                                        frame: fs.0,
                                        target: ts.0,
                                        disp: read_le16(b, ts.1),
                                    },
                                    ts.1 + 2,
                                ),
                            )
                        } else {
                            None
                        }
                    },
                }
            },
        }
    } else {
        None
    }
}

/// The width in bits selected by a location code.
pub fn width_of_location(location: u8) -> (r: Option<u8>)
    ensures
        r == spec_width_of(location),
{
    if location == 0 || location == 4 {
        Some(8u8)
    } else if location == 1 || location == 2 || location == 5 {
        Some(16u8)
    } else if location == 3 || location == 9 || location == 13 {
        Some(32u8)
    } else if location == 11 {
        Some(48u8)
    } else {
        None
    }
}

impl OmfFixup {
    /// Decodes every subrecord of a FIXUPP body, in order.  The flag is
    /// set when a malformed subrecord stopped decoding early; the
    /// subrecords before it are still returned.
    pub fn parse_all(data: &[u8]) -> (r: (Vec<OmfFixup>, bool))
        ensures
            r.0@ == spec_fixups(data@, 0).0,
            r.1 == spec_fixups(data@, 0).1,
    {
        let mut out: Vec<OmfFixup> = Vec::new();
        let mut p: usize = 0;
        let mut malformed: bool = false;
        while p < data.len() && !malformed
            invariant
                0 <= p <= data@.len(),
                !malformed ==> spec_fixups(data@, 0).0 == out@ + spec_fixups(data@, p as int).0,
                !malformed ==> spec_fixups(data@, 0).1 == spec_fixups(data@, p as int).1,
                malformed ==> spec_fixups(data@, 0).0 == out@,
                malformed ==> spec_fixups(data@, 0).1 == true,
            decreases data@.len() - p + (if malformed { 0int } else { 1int }),
        {
            match read_fixup_at(data, p) {
                Some(v) => {
                    proof {
                        lemma_fixup_at_advances(data@, p as int);
                        assert(out@ + (seq![v.0] + spec_fixups(data@, v.1 as int).0) =~= (out@
                            + seq![v.0]) + spec_fixups(data@, v.1 as int).0);
                        assert(out@ + seq![v.0] =~= out@.push(v.0));
                    }
                    out.push(v.0);
                    p = v.1;
                },
                None => {
                    proof {
                        assert(out@ + Seq::<OmfFixup>::empty() =~= out@);
                    }
                    malformed = true;
                },
            }
        }
        proof {
            if !malformed {
                assert(spec_fixups(data@, p as int).0 =~= Seq::<OmfFixup>::empty());
                assert(out@ + Seq::<OmfFixup>::empty() =~= out@);
            }
        }
        (out, malformed)
    }
}

/// The frame stored in slot `slot`.
pub open spec fn spec_thread_frame(t: ThreadState, slot: u8) -> Option<OmfFixupFrame> {
    if slot == 0 {
        t.frame0
    } else if slot == 1 {
        t.frame1
    } else if slot == 2 {
        t.frame2
    } else {
        t.frame3
    }
}

/// The target stored in slot `slot`.
pub open spec fn spec_thread_target(t: ThreadState, slot: u8) -> Option<OmfFixupTarget> {
    if slot == 0 {
        t.target0
    } else if slot == 1 {
        t.target1
    } else if slot == 2 {
        t.target2
    } else {
        t.target3
    }
}

/// The thread state after one subrecord: thread subrecords overwrite
/// their slot; fixup subrecords leave the slots alone.
pub open spec fn spec_apply_thread(t: ThreadState, f: OmfFixup) -> ThreadState {
    match f {
        OmfFixup::FrameThread { slot, frame } => {
            if slot == 0 {
                ThreadState { frame0: Some(frame), ..t }
            } else if slot == 1 {
                ThreadState { frame1: Some(frame), ..t }
            } else if slot == 2 {
                ThreadState { frame2: Some(frame), ..t }
            } else {
                ThreadState { frame3: Some(frame), ..t }
            }
        },
        OmfFixup::TargetThread { slot, target } => {
            if slot == 0 {
                ThreadState { target0: Some(target), ..t }
            } else if slot == 1 {
                ThreadState { target1: Some(target), ..t }
            } else if slot == 2 {
                ThreadState { target2: Some(target), ..t }
            } else {
                ThreadState { target3: Some(target), ..t }
            }
        },
        OmfFixup::Fixup { .. } => t,
    }
}

/// The relocation a fixup subrecord denotes under thread state `t`,
/// with the patched location placed `base` bytes into the segment (the
/// offset of the data chunk the fixup applies to).  `None` when a
/// threaded frame or target names an empty slot, when the location
/// offset overflows the segment address space, or for thread
/// subrecords, which denote no relocation.
pub open spec fn spec_resolve_fixup(f: OmfFixup, t: ThreadState, base: u32) -> Option<
    OmfRelocation,
> {
    match f {
        OmfFixup::Fixup { segment_relative, location, data_offset, frame, target, disp } => {
            let frame_r = match frame {
                OmfFrameRef::Thread(s) => spec_thread_frame(t, s),
                OmfFrameRef::Explicit(fr) => Some(fr),
            };
            let target_r = match target {
                OmfTargetRef::Thread(s) => spec_thread_target(t, s),
                OmfTargetRef::Explicit(tg) => Some(tg),
            };
            match (frame_r, target_r, spec_width_of(location)) {
                (Some(fr), Some(tg), Some(w)) => {
                    if base + data_offset <= u32::MAX {
                        Some(
                            (OmfRelocation {
                                offset: (base + data_offset) as u32,
                                target: tg,
                                frame: Some(fr),
                                kind: if segment_relative {
                                    OmfRelocKind::Absolute
                                } else {
                                    OmfRelocKind::Relative
                                },
                                size: w,
                                addend: disp as i64,
                            }),
                        )
                    } else {
                        None
                    }
                },
                _ => None,
            }
        },
        _ => None,
    }
}

impl ThreadState {
    /// Fresh thread state: every slot empty.
    pub fn new() -> (r: ThreadState)
        ensures
            r == (ThreadState {
                frame0: None,
                frame1: None,
                frame2: None,
                frame3: None,
                target0: None,
                target1: None,
                target2: None,
                target3: None,
            }),
    {
        ThreadState {
            frame0: None,
            frame1: None,
            frame2: None,
            frame3: None,
            target0: None,
            target1: None,
            target2: None,
            target3: None,
        }
    }

    /// Applies one subrecord to the thread slots.
    pub fn apply(&mut self, f: &OmfFixup)
        ensures
            *final(self) == spec_apply_thread(*old(self), *f),
    {
        match f {
            OmfFixup::FrameThread { slot, frame } => {
                if *slot == 0 {
                    self.frame0 = Some(*frame);
                } else if *slot == 1 {
                    self.frame1 = Some(*frame);
                } else if *slot == 2 {
                    self.frame2 = Some(*frame);
                } else {
                    self.frame3 = Some(*frame);
                }
            },
            OmfFixup::TargetThread { slot, target } => {
                if *slot == 0 {
                    self.target0 = Some(*target);
                } else if *slot == 1 {
                    self.target1 = Some(*target);
                } else if *slot == 2 {
                    self.target2 = Some(*target);
                } else {
                    self.target3 = Some(*target);
                }
            },
            OmfFixup::Fixup { .. } => {},
        }
    }

    /// Resolves a fixup subrecord into a relocation under these thread
    /// slots; see [`spec_resolve_fixup`].
    pub fn resolve(&self, f: &OmfFixup, base: u32) -> (r: Option<OmfRelocation>)
        ensures
            r == spec_resolve_fixup(*f, *self, base),
    {
        match f {
            OmfFixup::Fixup { segment_relative, location, data_offset, frame, target, disp } => {
                let frame_r: Option<OmfFixupFrame> = match frame {
                    OmfFrameRef::Thread(s) => self.get_frame(*s),
                    OmfFrameRef::Explicit(fr) => Some(*fr),
                };
                let target_r: Option<OmfFixupTarget> = match target {
                    OmfTargetRef::Thread(s) => self.get_target(*s),
                    OmfTargetRef::Explicit(tg) => Some(*tg),
                };
                match (frame_r, target_r, width_of_location(*location)) {
                    (Some(fr), Some(tg), Some(w)) => {
                        if base as u64 + *data_offset as u64 <= u32::MAX as u64 {
                            Some(
                                OmfRelocation {
                                    offset: base + *data_offset as u32,
                                    target: tg,
                                    frame: Some(fr),
                                    kind: if *segment_relative {
                                        OmfRelocKind::Absolute
                                    } else {
                                        OmfRelocKind::Relative
                                    },
                                    size: w,
                                    addend: *disp as i64,
                                },
                            )
                        } else {
                            None
                        }
                    },
                    _ => None,
                }
            },
            _ => None,
        }
    }

    /// The frame stored in slot `slot`.
    pub fn get_frame(&self, slot: u8) -> (r: Option<OmfFixupFrame>)
        ensures
            r == spec_thread_frame(*self, slot),
    {
        if slot == 0 {
            self.frame0
        } else if slot == 1 {
            self.frame1
        } else if slot == 2 {
            self.frame2
        } else {
            self.frame3
        }
    }

    /// The target stored in slot `slot`.
    pub fn get_target(&self, slot: u8) -> (r: Option<OmfFixupTarget>)
        ensures
            r == spec_thread_target(*self, slot),
    {
        if slot == 0 {
            self.target0
        } else if slot == 1 {
            self.target1
        } else if slot == 2 {
            self.target2
        } else {
            self.target3
        }
    }
}

} // verus!
