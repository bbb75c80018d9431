//! Functions: signatures, parameters, locals and register allocation.

use vstd::prelude::*;
use crate::blocks::{is_fresh_block, IrControlFlowGraph};
use crate::ids::{IrBlockId, IrFunctionId, IrId, SymbolId};
use crate::types::{CallingConvention, IrSourceLocation, IrType};

verus! {

/// A formal parameter; `reg` is the register that holds it in the body.
#[derive(Debug, PartialEq)]
pub struct IrParameter {
    pub name: String,
    pub ty: IrType,
    pub reg: IrId,
    pub by_ref: bool,
}

/// The signature of a function.
#[derive(Debug, PartialEq)]
pub struct IrFunctionSignature {
    pub parameters: Vec<IrParameter>,
    pub return_type: IrType,
    pub calling_convention: CallingConvention,
    pub can_throw: bool,
    pub type_params: Vec<String>,
}

/// A named or typed register of a function body.
#[derive(Debug, PartialEq)]
pub struct IrLocal {
    pub name: String,
    pub ty: IrType,
    pub mutable: bool,
    pub source_location: IrSourceLocation,
}

/// A function: its signature, control-flow graph, locals and register counter.
#[derive(Debug)]
pub struct IrFunction {
    pub id: IrFunctionId,
    pub symbol_id: SymbolId,
    pub name: String,
    pub signature: IrFunctionSignature,
    pub cfg: IrControlFlowGraph,
    pub locals: Vec<(IrId, IrLocal)>,
    pub next_reg_id: u32,
}

/// `f` with its register counter advanced by one.
pub open spec fn bumped(f: IrFunction) -> IrFunction {
    IrFunction { next_reg_id: (f.next_reg_id + 1) as u32, ..f }
}

/// `p` is `q` with its register set to `reg`.
pub open spec fn param_with_reg(q: IrParameter, p: IrParameter, reg: IrId) -> bool {
    &&& p.name == q.name
    &&& p.ty == q.ty
    &&& p.by_ref == q.by_ref
    &&& p.reg == reg
}

/// `f` is the function that `IrFunction::new` makes of these arguments:
/// parameter `i` lives in register `i`, registers after the parameters are
/// free, and the graph holds only an empty entry block.
pub open spec fn is_new_function(
    f: IrFunction,
    id: IrFunctionId,
    symbol_id: SymbolId,
    name: String,
    signature: IrFunctionSignature,
) -> bool {
    let n = signature.parameters@.len();
    &&& f.id == id
    &&& f.symbol_id == symbol_id
    &&& f.name == name
    &&& f.signature.parameters@.len() == n
    &&& forall|i: int|
        0 <= i < n ==> param_with_reg(
            signature.parameters@[i],
            #[trigger] f.signature.parameters@[i],
            IrId(i as u32),
        )
    &&& f.signature.return_type == signature.return_type
    &&& f.signature.calling_convention == signature.calling_convention
    &&& f.signature.can_throw == signature.can_throw
    &&& f.signature.type_params == signature.type_params
    &&& f.cfg.blocks@.len() == 1
    &&& is_fresh_block(f.cfg.blocks@[0], IrBlockId(0))
    &&& f.cfg.entry_block == IrBlockId(0)
    &&& f.cfg.next_block_id == 1
    &&& f.locals@.len() == 0
    &&& f.next_reg_id == n
}

/// `e` records register `reg` as an unnamed, immutable local of type `ty`.
pub open spec fn is_unnamed_local(e: (IrId, IrLocal), reg: IrId, ty: IrType) -> bool {
    &&& e.0 == reg
    &&& e.1.name@ == Seq::<char>::empty()
    &&& e.1.ty == ty
    &&& !e.1.mutable
    &&& e.1.source_location == IrSourceLocation::unknown_spec()
}

impl IrFunction {
    /// A function whose parameters are given the first registers, in order.
    pub fn new(
        id: IrFunctionId,
        symbol_id: SymbolId,
        name: String,
        signature: IrFunctionSignature,
    ) -> (r: IrFunction)
        requires
            signature.parameters@.len() < u32::MAX,
        ensures
            is_new_function(r, id, symbol_id, name, signature),
    {
        let ghost old_sig = signature;
        let mut signature = signature;
        let n = signature.parameters.len();
        let mut i: usize = 0;
        while i < n
            invariant
                n == old_sig.parameters@.len(),
                n < u32::MAX,
                i <= n,
                signature.parameters@.len() == n,
                signature.return_type == old_sig.return_type,
                signature.calling_convention == old_sig.calling_convention,
                signature.can_throw == old_sig.can_throw,
                signature.type_params == old_sig.type_params,
                forall|k: int|
                    0 <= k < i ==> param_with_reg(
                        old_sig.parameters@[k],
                        #[trigger] signature.parameters@[k],
                        IrId(k as u32),
                    ),
                forall|k: int| i <= k < n ==> #[trigger] signature.parameters@[k] == old_sig.parameters@[k],
            decreases n - i,
        {
            signature.parameters[i].reg = IrId(i as u32);
            i = i + 1;
        }
        IrFunction {
            id,
            symbol_id,
            name,
            signature,
            cfg: IrControlFlowGraph::new(),
            locals: Vec::new(),
            next_reg_id: n as u32,
        }
    }

    /// The entry block of the function.
    pub fn entry_block(&self) -> (r: IrBlockId)
        ensures
            r == self.cfg.entry_block,
    {
        self.cfg.entry_block
    }

    /// A fresh register.
    pub fn alloc_reg(&mut self) -> (r: IrId)
        requires
            old(self).next_reg_id < u32::MAX,
        ensures
            r == IrId(old(self).next_reg_id),
            *final(self) == bumped(*old(self)),
    {
        let r = IrId(self.next_reg_id);
        self.next_reg_id = self.next_reg_id + 1;
        r
    }

    /// A fresh register recorded as the local `name` of type `ty`.
    pub fn declare_local(&mut self, name: String, ty: IrType) -> (r: IrId)
        requires
            old(self).next_reg_id < u32::MAX,
        ensures
            r == IrId(old(self).next_reg_id),
            final(self).locals@ == old(self).locals@.push(
                (r, IrLocal { name, ty, mutable: true, source_location: IrSourceLocation::unknown_spec() }),
            ),
            *final(self) == (IrFunction { locals: final(self).locals, ..bumped(*old(self)) }),
    {
        let r = self.alloc_reg();
        self.locals.push(
            (r, IrLocal { name, ty, mutable: true, source_location: IrSourceLocation::unknown() }),
        );
        r
    }

    /// Records the type of register `reg` (an unnamed local).
    pub fn register_local(&mut self, reg: IrId, ty: IrType)
        ensures
            final(self).locals@.len() == old(self).locals@.len() + 1,
            final(self).locals@.drop_last() == old(self).locals@,
            is_unnamed_local(final(self).locals@.last(), reg, ty),
            *final(self) == (IrFunction { locals: final(self).locals, ..*old(self) }),
    {
        self.locals.push(
            (reg, IrLocal { name: String::new(), ty, mutable: false, source_location: IrSourceLocation::unknown() }),
        );
        proof { assert(self.locals@.drop_last() =~= old(self).locals@); }
    }

    /// The register of parameter `index`.
    pub fn get_param_reg(&self, index: usize) -> (r: Option<IrId>)
        ensures
            r == if index < self.signature.parameters@.len() {
                Some(self.signature.parameters@[index as int].reg)
            } else {
                None::<IrId>
            },
    {
        if index < self.signature.parameters.len() {
            Some(self.signature.parameters[index].reg)
        } else {
            None
        }
    }
}

} // verus!
