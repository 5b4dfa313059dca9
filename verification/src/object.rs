//! Iterator-style access to a module's sections and symbols.
//!
//! The iterators hand out the remaining items one at a time through an
//! inherent `next`, front to back, in the order the module declares
//! them.

use vstd::prelude::*;

use crate::module::{views_of, OmfFile, spec_sections};
use crate::section::{OmfSection, SpecSection};
use crate::symbol::{OmfSymbol, SpecSymbol};

verus! {

/// Walks a module's sections in order.
pub struct OmfSectionIterator {
    /// The sections not yet handed out, front first.
    pub remaining: Vec<OmfSection>,
}

impl View for OmfSectionIterator {
    type V = Seq<SpecSection>;

    open spec fn view(&self) -> Seq<SpecSection> {
        views_of(self.remaining@)
    }
}

impl OmfSectionIterator {
    /// The next section, or `None` when all have been handed out.
    pub fn next(&mut self) -> (r: Option<OmfSection>)
        ensures
            old(self)@.len() > 0 ==> (r matches Some(s) && s@ == old(self)@[0] && final(self)@
                =~= old(self)@.skip(1)),
            old(self)@.len() == 0 ==> r is None && final(self)@ == old(self)@,
    {
        if self.remaining.len() > 0 {
            let s: OmfSection = self.remaining.remove(0);
            proof {
                assert forall|j: int| 0 <= j < self@.len() implies self@[j] == old(self)@.skip(
                    1,
                )[j] by {}
            }
            Some(s)
        } else {
            None
        }
    }

    /// How many sections are still to come.
    pub fn len(&self) -> (r: usize)
        ensures
            r == self@.len(),
    {
        self.remaining.len()
    }
}

/// Walks a module's symbols in order.
pub struct OmfSymbolIterator {
    /// The symbols not yet handed out, front first.
    pub remaining: Vec<OmfSymbol>,
}

impl View for OmfSymbolIterator {
    type V = Seq<SpecSymbol>;

    open spec fn view(&self) -> Seq<SpecSymbol> {
        views_of(self.remaining@)
    }
}

impl OmfSymbolIterator {
    /// The next symbol, or `None` when all have been handed out.
    pub fn next(&mut self) -> (r: Option<OmfSymbol>)
        ensures
            old(self)@.len() > 0 ==> (r matches Some(s) && s@ == old(self)@[0] && final(self)@
                =~= old(self)@.skip(1)),
            old(self)@.len() == 0 ==> r is None && final(self)@ == old(self)@,
    {
        if self.remaining.len() > 0 {
            let s: OmfSymbol = self.remaining.remove(0);
            proof {
                assert forall|j: int| 0 <= j < self@.len() implies self@[j] == old(self)@.skip(
                    1,
                )[j] by {}
            }
            Some(s)
        } else {
            None
        }
    }

    /// How many symbols are still to come.
    pub fn len(&self) -> (r: usize)
        ensures
            r == self@.len(),
    {
        self.remaining.len()
    }
}

/// An iterator over the module's sections: every declared segment,
/// then every COMDAT fragment as a section of its own.
pub fn sections(f: &OmfFile) -> (r: OmfSectionIterator)
    requires
        f@.segments.len() + f@.comdats.len() <= usize::MAX,
    ensures
        r@ =~= spec_sections(f@),
{
    OmfSectionIterator { remaining: f.sections() }
}

/// An iterator over the module's symbols, in append order.
pub fn symbols(f: &OmfFile) -> (r: OmfSymbolIterator)
    ensures
        r@ =~= f@.symbols,
{
    let mut out: Vec<OmfSymbol> = Vec::new();
    let mut i: usize = 0;
    while i < f.symbols.len()
        invariant
            0 <= i <= f.symbols@.len(),
            out@.len() == i,
            forall|j: int| 0 <= j < i ==> out@[j]@ == f@.symbols[j],
            f@.symbols.len() == f.symbols@.len(),
            forall|j: int| 0 <= j < f.symbols@.len() ==> f@.symbols[j] == f.symbols@[j]@,
        decreases f.symbols@.len() - i,
    {
        let s: &OmfSymbol = &f.symbols[i];
        let c: OmfSymbol = OmfSymbol {
            index: s.index,
            name: crate::module::clone_bytes(&s.name),
            scope: s.scope,
            segment: s.segment,
            offset: s.offset,
        };
        proof {
            assert(c@ =~= f@.symbols[i as int]);
        }
        out.push(c);
        i = i + 1;
    }
    OmfSymbolIterator { remaining: out }
}

} // verus!
