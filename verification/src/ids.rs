//! Identifiers used throughout the IR: registers, blocks, functions and symbols.

use vstd::prelude::*;

verus! {

/// A virtual register of a function.
#[derive(Clone, Copy, Debug, PartialEq, Eq, Hash, Structural)]
pub struct IrId(pub u32);

impl IrId {
    pub fn new(id: u32) -> (r: IrId)
        ensures
            r.0 == id,
    {
        IrId(id)
    }

    pub fn as_u32(&self) -> (r: u32)
        ensures
            r == self.0,
    {
        self.0
    }
}

/// A basic block of a function's control-flow graph.
#[derive(Clone, Copy, Debug, PartialEq, Eq, Hash, Structural)]
pub struct IrBlockId(pub u32);

impl IrBlockId {
    pub fn new(id: u32) -> (r: IrBlockId)
        ensures
            r.0 == id,
    {
        IrBlockId(id)
    }

    /// The entry block of every function.
    pub fn entry() -> (r: IrBlockId)
        ensures
            r.0 == 0,
    {
        IrBlockId(0)
    }
}

/// A function of a module (defined or external).
#[derive(Clone, Copy, Debug, PartialEq, Eq, Hash, Structural)]
pub struct IrFunctionId(pub u32);

/// A global of a module.
#[derive(Clone, Copy, Debug, PartialEq, Eq, Hash, Structural)]
pub struct IrGlobalId(pub u32);

/// A symbol of the front end's symbol table.
#[derive(Clone, Copy, Debug, PartialEq, Eq, Hash, Structural)]
pub struct SymbolId(pub u32);

impl SymbolId {
    pub fn from_raw(raw: u32) -> (r: SymbolId)
        ensures
            r.0 == raw,
    {
        SymbolId(raw)
    }
}

} // verus!
