//! Symbols collected from PUBDEF, EXTDEF and COMDEF records.

use vstd::prelude::*;

verus! {

/// How a symbol binds at link time.
#[derive(Clone, Copy, Debug, PartialEq, Eq, Structural)]
pub enum OmfSymbolScope {
    /// Defined here and visible to the linker (PUBDEF, LPUBDEF).
    Public,
    /// Declared but undefined here (EXTDEF, LEXTDEF).
    External,
    /// Uninitialised common storage (COMDEF); the linker allocates it.
    Common,
}

/// One symbol, in the order the records declared it.
#[derive(Clone, Debug, PartialEq, Eq)]
pub struct OmfSymbol {
    /// Position in the module's symbol table (append order).
    pub index: usize,
    /// Symbol name (raw bytes from the record).
    pub name: Vec<u8>,
    /// Public, external, or common.
    pub scope: OmfSymbolScope,
    /// 1-based index of the segment the symbol lives in; 0 = unbound.
    pub segment: u16,
    /// Offset within that segment.
    pub offset: u32,
}

/// Mathematical image of a symbol.
pub ghost struct SpecSymbol {
    pub index: int,
    pub name: Seq<u8>,
    pub scope: OmfSymbolScope,
    pub segment: u16,
    pub offset: u32,
}

impl View for OmfSymbol {
    type V = SpecSymbol;

    open spec fn view(&self) -> SpecSymbol {
        SpecSymbol {
            index: self.index as int,
            name: self.name@,
            scope: self.scope,
            segment: self.segment,
            offset: self.offset,
        }
    }
}

impl OmfSymbol {
    /// Position in the module's symbol table.
    pub fn index(&self) -> (r: usize)
        ensures
            r == self.index,
    {
        self.index
    }

    /// The symbol's name bytes.
    pub fn name(&self) -> (r: &Vec<u8>)
        ensures
            r@ == self@.name,
    {
        &self.name
    }

    /// Public, external, or common.
    pub fn scope(&self) -> (r: OmfSymbolScope)
        ensures
            r == self.scope,
    {
        self.scope
    }

    /// The 1-based segment index the symbol is bound to; 0 = unbound.
    pub fn section(&self) -> (r: u16)
        ensures
            r == self.segment,
    {
        self.segment
    }

    /// The symbol's offset within its segment.
    pub fn address(&self) -> (r: u64)
        ensures
            r == self.offset,
    {
        self.offset as u64
    }

    /// OMF records no symbol sizes; always 0.
    pub fn size(&self) -> (r: u64)
        ensures
            r == 0,
    {
        0
    }
}

} // verus!
