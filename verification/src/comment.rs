//! COMENT record classification.
//!
//! A COMENT body is `[comment type][comment class][payload]`.  The
//! reader tags the comment and keeps the payload verbatim; decoding the
//! payload is the consumer's business.

use vstd::prelude::*;

verus! {

/// Coarse classification of a COMENT record by its class byte.
#[derive(Clone, Copy, Debug, PartialEq, Eq, Structural)]
pub enum OmfCommentKind {
    /// Translator/compiler information (class 0x00).
    CompilerInfo,
    /// Copyright string (class 0x01).
    Copyright,
    /// Linker directives with a recognised subtype (class 0x9A).
    LinkerInfo,
    /// Any other class, kept raw.
    Other(u8),
}

/// A classified COMENT record.
#[derive(Clone, Debug, PartialEq, Eq)]
pub struct OmfComment {
    /// Classification by class byte.
    pub kind: OmfCommentKind,
    /// The payload after the type and class bytes, verbatim.
    pub data: Vec<u8>,
}

/// Mathematical image of a classified comment.
pub ghost struct SpecComment {
    pub kind: OmfCommentKind,
    pub data: Seq<u8>,
}

impl View for OmfComment {
    type V = SpecComment;

    open spec fn view(&self) -> SpecComment {
        SpecComment { kind: self.kind, data: self.data@ }
    }
}

/// Whether `subtype` is a recognised subtype of the linker-directive
/// comment class.
pub open spec fn spec_known_subtype(subtype: u8) -> bool {
    subtype == 0x00 || subtype == 0x01 || subtype == 0x02 || subtype == 0x03 || subtype == 0x9A
        || subtype == 0x9B || subtype == 0x9C
}

/// The classification a COMENT body receives, or `None` when the body is
/// too short to hold the type and class bytes.
pub open spec fn spec_parse_comment(body: Seq<u8>) -> Option<SpecComment> {
    if body.len() < 2 {
        None
    } else {
        let class = body[1];
        let payload = body.subrange(2, body.len() as int);
        let kind = if class == 0x00 {
            OmfCommentKind::CompilerInfo
        } else if class == 0x01 {
            OmfCommentKind::Copyright
        } else if class == 0x9A && payload.len() > 0 && spec_known_subtype(payload[0]) {
            OmfCommentKind::LinkerInfo
        } else {
            OmfCommentKind::Other(class)
        };
        Some(SpecComment { kind, data: payload })
    }
}

/// Returns whether `subtype` is recognised under the linker-directive
/// comment class.
pub fn is_known_subtyped_class(subtype: u8) -> (r: bool)
    ensures
        r == spec_known_subtype(subtype),
{
    subtype == 0x00 || subtype == 0x01 || subtype == 0x02 || subtype == 0x03 || subtype == 0x9A
        || subtype == 0x9B || subtype == 0x9C
}

/// Classifies a COMENT record body: `[type][class][payload]`.  Returns
/// `None` when the body is shorter than the two leading bytes.
pub fn parse_comment(body: &[u8]) -> (r: Option<OmfComment>)
    ensures
        match r {
            Some(c) => {
                &&& spec_parse_comment(body@) matches Some(m)
                &&& c@.kind == m.kind
                &&& c@.data == m.data
            },
            None => spec_parse_comment(body@) is None,
        },
{
    if body.len() < 2 {
        return None;
    }
    let class: u8 = body[1];
    let payload: Vec<u8> = crate::prims::copy_range(body, 2, body.len());
    let kind: OmfCommentKind = if class == 0x00 {
        OmfCommentKind::CompilerInfo
    } else if class == 0x01 {
        OmfCommentKind::Copyright
    } else if class == 0x9A && payload.len() > 0 && is_known_subtyped_class(payload[0]) {
        OmfCommentKind::LinkerInfo
    } else {
        OmfCommentKind::Other(class)
    };
    Some(OmfComment { kind, data: payload })
}

} // verus!
