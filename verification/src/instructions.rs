//! Instructions, phi nodes and block terminators.

use vstd::prelude::*;
use crate::ids::{IrBlockId, IrFunctionId, IrGlobalId, IrId};
use crate::types::{BinaryOp, CompareOp, IrType, IrValue, UnaryOp};

verus! {

/// A non-terminating instruction of a basic block.
#[derive(Debug, PartialEq)]
pub enum IrInstruction {
    Const { dest: IrId, value: IrValue },
    Copy { dest: IrId, src: IrId },
    Load { dest: IrId, ptr: IrId, ty: IrType },
    Store { ptr: IrId, value: IrId },
    BinOp { dest: IrId, op: BinaryOp, left: IrId, right: IrId },
    UnOp { dest: IrId, op: UnaryOp, operand: IrId },
    Cmp { dest: IrId, op: CompareOp, left: IrId, right: IrId },
    Call { dest: Option<IrId>, func: IrId, args: Vec<IrId> },
    CallDirect { dest: Option<IrId>, func_id: IrFunctionId, args: Vec<IrId> },
    CallIndirect { dest: Option<IrId>, func_ptr: IrId, args: Vec<IrId> },
    Cast { dest: IrId, src: IrId, from_ty: IrType, to_ty: IrType },
    BitCast { dest: IrId, src: IrId, ty: IrType },
    Alloc { dest: IrId, ty: IrType, count: Option<IrId> },
    Free { ptr: IrId },
    GetElementPtr { dest: IrId, ptr: IrId, indices: Vec<IrId>, ty: IrType },
    Select { dest: IrId, condition: IrId, true_val: IrId, false_val: IrId },
    ExtractValue { dest: IrId, aggregate: IrId, indices: Vec<u32> },
    CreateStruct { dest: IrId, ty: IrType, fields: Vec<IrId> },
    StoreGlobal { global_id: IrGlobalId, value: IrId },
    MemCopy { dest: IrId, src: IrId, size: IrId },
}

/// The register an instruction defines, if any.
pub open spec fn inst_dest(inst: IrInstruction) -> Option<IrId> {
    match inst {
        IrInstruction::Const { dest, .. } => Some(dest),
        IrInstruction::Copy { dest, .. } => Some(dest),
        IrInstruction::Load { dest, .. } => Some(dest),
        IrInstruction::Store { .. } => None,
        IrInstruction::BinOp { dest, .. } => Some(dest),
        IrInstruction::UnOp { dest, .. } => Some(dest),
        IrInstruction::Cmp { dest, .. } => Some(dest),
        IrInstruction::Call { dest, .. } => dest,
        IrInstruction::CallDirect { dest, .. } => dest,
        IrInstruction::CallIndirect { dest, .. } => dest,
        IrInstruction::Cast { dest, .. } => Some(dest),
        IrInstruction::BitCast { dest, .. } => Some(dest),
        IrInstruction::Alloc { dest, .. } => Some(dest),
        IrInstruction::Free { .. } => None,
        IrInstruction::GetElementPtr { dest, .. } => Some(dest),
        IrInstruction::Select { dest, .. } => Some(dest),
        IrInstruction::ExtractValue { dest, .. } => Some(dest),
        IrInstruction::CreateStruct { dest, .. } => Some(dest),
        IrInstruction::StoreGlobal { .. } => None,
        IrInstruction::MemCopy { .. } => None,
    }
}

/// The registers `inst` reads, in the order of its fields.
pub open spec fn inst_operands(inst: IrInstruction) -> Seq<IrId> {
    match inst {
        IrInstruction::Const { .. } => Seq::empty(),
        IrInstruction::Copy { src, .. } => seq![src],
        IrInstruction::Load { ptr, .. } => seq![ptr],
        IrInstruction::Store { ptr, value } => seq![ptr, value],
        IrInstruction::BinOp { left, right, .. } => seq![left, right],
        IrInstruction::UnOp { operand, .. } => seq![operand],
        IrInstruction::Cmp { left, right, .. } => seq![left, right],
        IrInstruction::Call { func, args, .. } => seq![func] + args@,
        IrInstruction::CallDirect { args, .. } => args@,
        IrInstruction::CallIndirect { func_ptr, args, .. } => seq![func_ptr] + args@,
        IrInstruction::Cast { src, .. } => seq![src],
        IrInstruction::BitCast { src, .. } => seq![src],
        IrInstruction::Alloc { count, .. } => match count {
            Some(c) => seq![c],
            None => Seq::empty(),
        },
        IrInstruction::Free { ptr } => seq![ptr],
        IrInstruction::GetElementPtr { ptr, indices, .. } => seq![ptr] + indices@,
        IrInstruction::Select { condition, true_val, false_val, .. } => seq![condition, true_val, false_val],
        IrInstruction::ExtractValue { aggregate, .. } => seq![aggregate],
        IrInstruction::CreateStruct { fields, .. } => fields@,
        IrInstruction::StoreGlobal { value, .. } => seq![value],
        IrInstruction::MemCopy { dest, src, size } => seq![dest, src, size],
    }
}

impl IrInstruction {
    /// The register this instruction defines, if any.
    pub fn dest(&self) -> (r: Option<IrId>)
        ensures
            r == inst_dest(*self),
    {
        match self {
            IrInstruction::Const { dest, .. } => Some(*dest),
            IrInstruction::Copy { dest, .. } => Some(*dest),
            IrInstruction::Load { dest, .. } => Some(*dest),
            IrInstruction::Store { .. } => None,
            IrInstruction::BinOp { dest, .. } => Some(*dest),
            IrInstruction::UnOp { dest, .. } => Some(*dest),
            IrInstruction::Cmp { dest, .. } => Some(*dest),
            IrInstruction::Call { dest, .. } => *dest,
            IrInstruction::CallDirect { dest, .. } => *dest,
            IrInstruction::CallIndirect { dest, .. } => *dest,
            IrInstruction::Cast { dest, .. } => Some(*dest),
            IrInstruction::BitCast { dest, .. } => Some(*dest),
            IrInstruction::Alloc { dest, .. } => Some(*dest),
            IrInstruction::Free { .. } => None,
            IrInstruction::GetElementPtr { dest, .. } => Some(*dest),
            IrInstruction::Select { dest, .. } => Some(*dest),
            IrInstruction::ExtractValue { dest, .. } => Some(*dest),
            IrInstruction::CreateStruct { dest, .. } => Some(*dest),
            IrInstruction::StoreGlobal { .. } => None,
            IrInstruction::MemCopy { .. } => None,
        }
    }
}

/// A phi node: the value of `dest` depends on the predecessor control came from.
#[derive(Debug, PartialEq)]
pub struct IrPhiNode {
    pub dest: IrId,
    pub incoming: Vec<(IrBlockId, IrId)>,
    pub ty: IrType,
}

/// The instruction that ends a basic block.
#[derive(Debug, PartialEq)]
pub enum IrTerminator {
    Branch { target: IrBlockId },
    CondBranch { condition: IrId, true_target: IrBlockId, false_target: IrBlockId },
    Switch { value: IrId, cases: Vec<(i64, IrBlockId)>, default: IrBlockId },
    Return { value: Option<IrId> },
    Unreachable,
}

/// The blocks a terminator can transfer control to, in the order in which
/// they are connected: the cases of a switch first, then its default.
pub open spec fn term_targets(t: IrTerminator) -> Seq<IrBlockId> {
    match t {
        IrTerminator::Branch { target } => seq![target],
        IrTerminator::CondBranch { true_target, false_target, .. } => seq![true_target, false_target],
        IrTerminator::Switch { cases, default, .. } => Seq::new(
            cases@.len(),
            |m: int| cases@[m].1,
        ).push(default),
        _ => Seq::empty(),
    }
}

/// The blocks `term` can transfer control to.
pub fn terminator_targets(term: &IrTerminator) -> (r: Vec<IrBlockId>)
    ensures
        r@ == term_targets(*term),
{
    let mut r: Vec<IrBlockId> = Vec::new();
    match term {
        IrTerminator::Branch { target } => {
            r.push(*target);
        },
        IrTerminator::CondBranch { true_target, false_target, .. } => {
            r.push(*true_target);
            r.push(*false_target);
        },
        IrTerminator::Switch { cases, default, .. } => {
            let mut m: usize = 0;
            while m < cases.len()
                invariant
                    m <= cases@.len(),
                    r@ == Seq::new(m as nat, |q: int| cases@[q].1),
                decreases cases@.len() - m,
            {
                r.push(cases[m].1);
                proof { assert(r@ =~= Seq::new((m + 1) as nat, |q: int| cases@[q].1)); }
                m = m + 1;
            }
            r.push(*default);
            proof { assert(r@ =~= Seq::new(cases@.len(), |q: int| cases@[q].1).push(*default)); }
        },
        _ => {},
    }
    proof {
        if term is Branch || term is CondBranch {
            assert(r@ =~= term_targets(*term));
        }
    }
    r
}

} // verus!
