//! What lowering decides about a lambda once its body is built: the return
//! type read off the body, and the return that ends an unterminated entry
//! block.

use vstd::prelude::*;
use crate::blocks::{block_pos, IrBasicBlock};
use crate::builder::IrBuilder;
use crate::environment_layout::{is_layout_of, EnvironmentLayout};
use crate::externs::{first_where, is_first_where, lemma_first_where, lemma_first_where_none};
use crate::functions::{param_with_reg, IrFunction, IrFunctionSignature, IrLocal, IrParameter};
use crate::hir::{HirCapture, HirLambdaParam, TypeId, TypeKind, TypeTable};
use crate::ids::{IrBlockId, IrFunctionId, IrId, SymbolId};
use crate::instructions::{IrInstruction, IrTerminator};
use crate::lowering::{conversion, converts, convert_type, void_ptr, void_ptr_type, HirToMirContext};
use crate::module::IrModule;
use crate::text::{decimal, push_decimal};
use crate::types::{CallingConvention, IrType, IrValue, TypeModel};

verus! {

/// The type of a constant, as a lambda's return type is read off it.
pub open spec fn const_type(v: IrValue) -> TypeModel {
    match v {
        IrValue::I32(_) => TypeModel::I32,
        IrValue::I64(_) => TypeModel::I64,
        IrValue::Bool(_) => TypeModel::Bool,
        IrValue::Null => TypeModel::Ptr(Box::new(TypeModel::Void)),
        _ => TypeModel::I64,
    }
}

/// A constant gives its register the type of its value: a boolean
/// constant is a `Bool`, like the result of a comparison; an integer
/// constant built as `I32` or `I64` has that type; null is a pointer.
pub proof fn law_constant_types(r: IrId, b: bool, v: i64, op: crate::types::CompareOp, x: IrId, y: IrId)
    ensures
        def_type(IrInstruction::Const { dest: r, value: IrValue::Bool(b) }, r) == Some(TypeModel::Bool),
        def_type(IrInstruction::Const { dest: r, value: IrValue::Bool(b) }, r) == def_type(
            IrInstruction::Cmp { dest: r, op, left: x, right: y },
            r,
        ),
        def_type(IrInstruction::Const { dest: r, value: crate::builder::int_value(v, IrType::I32)->0 }, r) == Some(
            IrType::I32@,
        ),
        def_type(IrInstruction::Const { dest: r, value: crate::builder::int_value(v, IrType::I64)->0 }, r) == Some(
            IrType::I64@,
        ),
        def_type(IrInstruction::Const { dest: r, value: IrValue::Null }, r) == Some(void_ptr()),
{
}

/// The type that instruction `inst` gives register `r`, if it is a load,
/// cast, constant or comparison defining `r`.
pub open spec fn def_type(inst: IrInstruction, r: IrId) -> Option<TypeModel> {
    match inst {
        IrInstruction::Load { dest, ty, .. } => if dest == r {
            Some(ty@)
        } else {
            None
        },
        IrInstruction::Cast { dest, to_ty, .. } => if dest == r {
            Some(to_ty@)
        } else {
            None
        },
        IrInstruction::Const { dest, value } => if dest == r {
            Some(const_type(value))
        } else {
            None
        },
        IrInstruction::Cmp { dest, .. } => if dest == r {
            Some(TypeModel::Bool)
        } else {
            None
        },
        _ => None,
    }
}

/// An instruction that gives register `r` a type.
pub open spec fn defines(r: IrId) -> spec_fn(IrInstruction) -> bool {
    |inst: IrInstruction| def_type(inst, r) is Some
}

/// A block with an instruction that gives register `r` a type.
pub open spec fn has_def(r: IrId) -> spec_fn(IrBasicBlock) -> bool {
    |b: IrBasicBlock| first_where(b.instructions@, defines(r)) >= 0
}

/// The type the first defining instruction of `r` gives it, searching the
/// blocks in order and each block's instructions in order.
pub open spec fn first_def(blocks: Seq<IrBasicBlock>, r: IrId) -> Option<TypeModel> {
    let b = first_where(blocks, has_def(r));
    if b >= 0 {
        let insts = blocks[b].instructions@;
        def_type(insts[first_where(insts, defines(r))], r)
    } else {
        None
    }
}

/// The type the locals table records for register `r`: its latest entry.
pub open spec fn local_type(locals: Seq<(IrId, IrLocal)>, r: IrId) -> Option<TypeModel>
    decreases locals.len(),
{
    if locals.len() == 0 {
        None
    } else if locals.last().0 == r {
        Some(locals.last().1.ty@)
    } else {
        local_type(locals.drop_last(), r)
    }
}

/// The return type a block gives, if it returns a value whose type is known:
/// from the locals table, else from the instruction that defines it.
pub open spec fn block_return_type(b: IrBasicBlock, f: IrFunction) -> Option<TypeModel> {
    match b.terminator {
        IrTerminator::Return { value: Some(r) } => match local_type(f.locals@, r) {
            Some(t) => Some(t),
            None => first_def(f.cfg.blocks@, r),
        },
        _ => None,
    }
}

/// A block that gives a return type.
pub open spec fn gives_return_type(f: IrFunction) -> spec_fn(IrBasicBlock) -> bool {
    |b: IrBasicBlock| block_return_type(b, f) is Some
}

/// The return type of a lambda: the one the first block that gives one
/// gives, else the recorded type of the body's result, else `Void`.
pub open spec fn inferred_return_type(f: IrFunction, body_result: Option<IrId>) -> TypeModel {
    let p = first_where(f.cfg.blocks@, gives_return_type(f));
    if p >= 0 {
        block_return_type(f.cfg.blocks@[p], f)->0
    } else {
        match body_result {
            Some(r) => match local_type(f.locals@, r) {
                Some(t) => t,
                None => TypeModel::Void,
            },
            None => TypeModel::Void,
        }
    }
}

/// The recorded type of `r`.
fn find_local_type(locals: &Vec<(IrId, IrLocal)>, r: IrId) -> (t: Option<IrType>)
    ensures
        match t {
            Some(ty) => local_type(locals@, r) == Some(ty@),
            None => local_type(locals@, r) is None,
        },
{
    let mut i: usize = locals.len();
    proof {
        assert(locals@.take(locals@.len() as int) =~= locals@);
    }
    while i > 0
        invariant
            i <= locals@.len(),
            local_type(locals@, r) == local_type(locals@.take(i as int), r),
        decreases i,
    {
        proof {
            assert(locals@.take(i as int).drop_last() =~= locals@.take(i - 1));
        }
        if locals[i - 1].0 == r {
            return Some(locals[i - 1].1.ty.clone());
        }
        i = i - 1;
    }
    None
}

/// The type an instruction that defines `r` gives it.
fn instruction_type(inst: &IrInstruction, r: IrId) -> (t: Option<IrType>)
    ensures
        match t {
            Some(ty) => def_type(*inst, r) == Some(ty@),
            None => def_type(*inst, r) is None,
        },
{
    match inst {
        IrInstruction::Load { dest, ty, .. } => if *dest == r {
            let t = ty.clone();
            assert(def_type(*inst, r) == Some(t@));
            Some(t)
        } else {
            None
        },
        IrInstruction::Cast { dest, to_ty, .. } => if *dest == r {
            let t = to_ty.clone();
            assert(def_type(*inst, r) == Some(t@));
            Some(t)
        } else {
            None
        },
        IrInstruction::Const { dest, value } => if *dest == r {
            let t = match value {
                IrValue::I32(_) => IrType::I32,
                IrValue::I64(_) => IrType::I64,
                IrValue::Bool(_) => IrType::Bool,
                IrValue::Null => {
                    let v = IrType::Void;
                    let p = IrType::Ptr(Box::new(v));
                    assert(p@ == TypeModel::Ptr(Box::new(v@)));
                    p
                },
                _ => IrType::I64,
            };
            assert(t@ == const_type(*value));
            Some(t)
        } else {
            None
        },
        IrInstruction::Cmp { dest, .. } => if *dest == r {
            Some(IrType::Bool)
        } else {
            None
        },
        _ => None,
    }
}

/// The type the first defining instruction of `r` gives it.
fn find_def_type(blocks: &Vec<IrBasicBlock>, r: IrId) -> (t: Option<IrType>)
    ensures
        match t {
            Some(ty) => first_def(blocks@, r) == Some(ty@),
            None => first_def(blocks@, r) is None,
        },
{
    let mut b: usize = 0;
    while b < blocks.len()
        invariant
            b <= blocks@.len(),
            forall|k: int| 0 <= k < b ==> !has_def(r)(#[trigger] blocks@[k]),
        decreases blocks@.len() - b,
    {
        let insts = &blocks[b].instructions;
        let mut i: usize = 0;
        while i < insts.len()
            invariant
                b < blocks@.len(),
                forall|k: int| 0 <= k < b ==> !has_def(r)(#[trigger] blocks@[k]),
                *insts == blocks@[b as int].instructions,
                i <= insts@.len(),
                forall|k: int| 0 <= k < i ==> !defines(r)(#[trigger] insts@[k]),
            decreases insts@.len() - i,
        {
            let found = instruction_type(&insts[i], r);
            if found.is_some() {
                proof {
                    assert(is_first_where(insts@, defines(r), i as int));
                    lemma_first_where(insts@, defines(r), i as int);
                    assert(has_def(r)(blocks@[b as int]));
                    assert(is_first_where(blocks@, has_def(r), b as int));
                    lemma_first_where(blocks@, has_def(r), b as int);
                }
                return found;
            }
            i = i + 1;
        }
        proof {
            lemma_first_where_none(insts@, defines(r));
        }
        b = b + 1;
    }
    proof {
        lemma_first_where_none(blocks@, has_def(r));
    }
    None
}

/// The return type of a lambda, read off its built body: the type of the
/// value the first returning block returns, from the locals table or from
/// the instruction defining it; else the recorded type of the body's
/// result; else `Void`.
pub fn infer_lambda_return_type(function: &IrFunction, entry_block: IrBlockId, body_result: Option<IrId>) -> (r: IrType)
    ensures
        r@ == inferred_return_type(*function, body_result),
{
    let mut b: usize = 0;
    while b < function.cfg.blocks.len()
        invariant
            b <= function.cfg.blocks@.len(),
            forall|k: int| 0 <= k < b ==> !gives_return_type(*function)(#[trigger] function.cfg.blocks@[k]),
        decreases function.cfg.blocks@.len() - b,
    {
        if let IrTerminator::Return { value: Some(ret_reg) } = &function.cfg.blocks[b].terminator {
            let from_locals = find_local_type(&function.locals, *ret_reg);
            let t = match from_locals {
                Some(ty) => Some(ty),
                None => find_def_type(&function.cfg.blocks, *ret_reg),
            };
            if let Some(ty) = t {
                proof {
                    assert(gives_return_type(*function)(function.cfg.blocks@[b as int]));
                    assert(is_first_where(function.cfg.blocks@, gives_return_type(*function), b as int));
                    lemma_first_where(function.cfg.blocks@, gives_return_type(*function), b as int);
                }
                return ty;
            }
        }
        b = b + 1;
    }
    proof {
        lemma_first_where_none(function.cfg.blocks@, gives_return_type(*function));
    }
    if let Some(result_reg) = body_result {
        if let Some(ty) = find_local_type(&function.locals, result_reg) {
            return ty;
        }
    }
    IrType::Void
}

/// The value an unterminated lambda returns when its body gives none.
pub open spec fn default_return_value(t: IrType) -> IrValue {
    match t {
        IrType::I32 => IrValue::I32(0),
        IrType::I64 => IrValue::I64(0),
        IrType::Bool => IrValue::Bool(false),
        _ => IrValue::I64(0),
    }
}

/// `b` is `a` with block `p` ended by a return: of nothing for a `Void`
/// lambda, of the body's result where there is one, else of a fresh
/// register loaded with the default value of `ret`.
pub open spec fn lambda_finalized(a: IrFunction, b: IrFunction, p: int, body_result: Option<IrId>, ret: IrType) -> bool {
    let ob = a.cfg.blocks@[p];
    let nb = b.cfg.blocks@[p];
    &&& b.cfg.blocks@ == a.cfg.blocks@.update(p, nb)
    &&& b.cfg.entry_block == a.cfg.entry_block
    &&& b.cfg.next_block_id == a.cfg.next_block_id
    &&& nb.id == ob.id
    &&& nb.label == ob.label
    &&& nb.phi_nodes == ob.phi_nodes
    &&& nb.predecessors == ob.predecessors
    &&& if ret is Void || body_result is Some {
        &&& b == (IrFunction { cfg: b.cfg, ..a })
        &&& nb.instructions == ob.instructions
        &&& nb.terminator == (IrTerminator::Return { value: if ret is Void { None } else { body_result } })
    } else {
        let d = IrId(a.next_reg_id);
        &&& b == (IrFunction { cfg: b.cfg, next_reg_id: (a.next_reg_id + 1) as u32, ..a })
        &&& nb.instructions@ == ob.instructions@.push(IrInstruction::Const { dest: d, value: default_return_value(ret) })
        &&& nb.terminator == (IrTerminator::Return { value: Some(d) })
    }
}

/// Ends the entry block of a lambda with a return, if nothing ends it yet.
/// `None` when the function has no such block.
pub fn finalize_lambda_terminator_static(
    function: &mut IrFunction,
    entry_block: IrBlockId,
    body_result: Option<IrId>,
    return_type: &IrType,
) -> (r: Option<()>)
    requires
        ({
            let p = block_pos(old(function).cfg.blocks@, entry_block);
            p >= 0 && old(function).cfg.blocks@[p].terminator is Unreachable && !(*return_type is Void)
                && body_result is None ==> old(function).next_reg_id < u32::MAX
        }),
    ensures
        ({
            let p = block_pos(old(function).cfg.blocks@, entry_block);
            if p < 0 {
                r is None && *final(function) == *old(function)
            } else if !(old(function).cfg.blocks@[p].terminator is Unreachable) {
                r == Some(()) && *final(function) == *old(function)
            } else {
                r == Some(()) && lambda_finalized(*old(function), *final(function), p, body_result, *return_type)
            }
        }),
{
    let p = match function.cfg.find_block(entry_block) {
        Some(p) => p,
        None => return None,
    };
    if !matches!(function.cfg.blocks[p].terminator, IrTerminator::Unreachable) {
        return Some(());
    }
    let terminator = match return_type {
        IrType::Void => IrTerminator::Return { value: None },
        _ => {
            if let Some(result_reg) = body_result {
                IrTerminator::Return { value: Some(result_reg) }
            } else {
                let default_reg = function.alloc_reg();
                let default_value = match return_type {
                    IrType::I32 => IrValue::I32(0),
                    IrType::I64 => IrValue::I64(0),
                    IrType::Bool => IrValue::Bool(false),
                    _ => IrValue::I64(0),
                };
                function.cfg.blocks[p].add_instruction(IrInstruction::Const { dest: default_reg, value: default_value });
                IrTerminator::Return { value: Some(default_reg) }
            }
        },
    };
    let ghost mid = *function;
    function.cfg.blocks[p].set_terminator(terminator);
    proof {
        let q = p as int;
        assert(q == block_pos(old(function).cfg.blocks@, entry_block));
        assert(function.cfg.blocks@ =~= old(function).cfg.blocks@.update(q, function.cfg.blocks@[q]));
    }
    Some(())
}

/// What body lowering needs of a lambda whose skeleton was generated.
#[derive(Debug)]
pub struct LambdaContext {
    pub func_id: IrFunctionId,
    pub entry_block: IrBlockId,
    /// 1 when the environment pointer comes before the parameters, else 0.
    pub param_offset: u32,
    pub env_layout: Option<EnvironmentLayout>,
}

/// The name of the `n`-th lambda.
pub open spec fn lambda_name(n: u32) -> Seq<char> {
    "<lambda_"@ + decimal(n as nat) + ">"@
}

/// The name of a lambda parameter: its text, or `<param>`.
pub open spec fn lambda_param_name(p: HirLambdaParam) -> Seq<char> {
    match p.name {
        Some(n) => n@,
        None => "<param>"@,
    }
}

/// The types of the captures and parameters convert.
pub open spec fn lambda_converts(types: Seq<(TypeId, TypeKind)>, params: Seq<HirLambdaParam>, captures: Seq<HirCapture>) -> bool {
    &&& forall|i: int| 0 <= i < params.len() ==> converts(types, (#[trigger] params[i]).ty)
    &&& forall|i: int| 0 <= i < captures.len() ==> converts(types, (#[trigger] captures[i]).ty)
}

/// `sig` is the placeholder signature of a lambda: the environment pointer
/// first when there are captures, then the parameters with their converted
/// types, each in the register of its position; `Any` as return type.
pub open spec fn is_lambda_signature(
    sig: IrFunctionSignature,
    types: Seq<(TypeId, TypeKind)>,
    params: Seq<HirLambdaParam>,
    has_env: bool,
) -> bool {
    let off: int = if has_env { 1 } else { 0 };
    &&& sig.parameters@.len() == params.len() + off
    &&& has_env ==> {
        &&& sig.parameters@[0].name@ == "env"@
        &&& sig.parameters@[0].ty@ == void_ptr()
        &&& sig.parameters@[0].reg == IrId(0)
        &&& !sig.parameters@[0].by_ref
    }
    &&& forall|i: int| 0 <= i < params.len() ==> {
        let p = #[trigger] sig.parameters@[i + off];
        &&& p.name@ == lambda_param_name(params[i])
        &&& p.ty@ == conversion(types, params[i].ty)
        &&& p.reg == IrId((i + off) as u32)
        &&& !p.by_ref
    }
    &&& sig.return_type == IrType::Any
    &&& sig.calling_convention == CallingConvention::Haxe
    &&& !sig.can_throw
    &&& sig.type_params@.len() == 0
}

/// The captures with their converted types.
pub open spec fn converted_captures(types: Seq<(TypeId, TypeKind)>, captures: Seq<HirCapture>, converted: Seq<(SymbolId, IrType)>) -> bool {
    &&& converted.len() == captures.len()
    &&& forall|i: int| 0 <= i < captures.len() ==> {
        &&& (#[trigger] converted[i]).0 == captures[i].symbol
        &&& converted[i].1@ == conversion(types, captures[i].ty)
    }
}

impl HirToMirContext {
    /// Creates the function of a new lambda, before its body is lowered: a
    /// fresh function `<lambda_N>` (numbered by the lambda counter) under a
    /// symbol numbered 1000000 past its id, taking the environment pointer
    /// when there are captures and then the parameters, with a placeholder
    /// `Any` return type. The function is added to the module without
    /// becoming the one being built.
    pub fn generate_lambda_skeleton(
        &mut self,
        table: &TypeTable,
        params: &Vec<HirLambdaParam>,
        captures: &Vec<HirCapture>,
    ) -> (r: LambdaContext)
        requires
            old(self).builder.the_module().next_function_id < u32::MAX,
            old(self).builder.the_module().next_function_id + 1000000 <= u32::MAX,
            old(self).lambda_counter < u32::MAX,
            params@.len() + 1 < u32::MAX,
            8 * captures@.len() <= usize::MAX,
            lambda_converts(table.types@, params@, captures@),
        ensures
            ({
                let m0 = old(self).builder.the_module();
                let m1 = final(self).builder.the_module();
                let id = IrFunctionId(m0.next_function_id);
                let has_env = captures@.len() > 0;
                let f = m1.functions@.last();
                &&& r.func_id == id
                &&& r.entry_block == IrBlockId(0)
                &&& r.param_offset == if has_env { 1u32 } else { 0u32 }
                &&& m1 == (IrModule { functions: m1.functions, next_function_id: (m0.next_function_id + 1) as u32, ..m0 })
                &&& m1.functions@.drop_last() == m0.functions@
                &&& f.id == id
                &&& f.symbol_id == SymbolId((1000000 + m0.next_function_id) as u32)
                &&& f.name@ == lambda_name(old(self).lambda_counter)
                &&& is_lambda_signature(f.signature, table.types@, params@, has_env)
                &&& f.cfg.blocks@.len() == 1
                &&& f.next_reg_id == params@.len() + (if has_env { 1int } else { 0int })
                &&& match r.env_layout {
                    Some(l) => has_env && exists|cs: Seq<(SymbolId, IrType)>|
                        converted_captures(table.types@, captures@, cs) && #[trigger] is_layout_of(l, cs),
                    None => !has_env,
                }
                &&& final(self).lambda_counter == old(self).lambda_counter + 1
                &&& *final(self) == (HirToMirContext {
                    builder: IrBuilder { module: m1, ..old(self).builder },
                    lambda_counter: final(self).lambda_counter,
                    ..*old(self)
                })
            }),
    {
        let func_id = self.builder.module.alloc_function_id();
        let mut lambda_name_text = "<lambda_".to_owned();
        push_decimal(&mut lambda_name_text, self.lambda_counter as usize);
        lambda_name_text.append(">");
        self.lambda_counter = self.lambda_counter + 1;
        let ghost mut cs: Seq<(SymbolId, IrType)> = Seq::empty();
        let env_layout = if captures.len() > 0 {
            let mut converted: Vec<(SymbolId, IrType)> = Vec::new();
            let mut c: usize = 0;
            while c < captures.len()
                invariant
                    lambda_converts(table.types@, params@, captures@),
                    c <= captures@.len(),
                    converted_captures(table.types@, captures@.take(c as int), converted@),
                decreases captures@.len() - c,
            {
                let ty = convert_type(table, captures[c].ty);
                converted.push((captures[c].symbol, ty));
                c = c + 1;
            }
            proof {
                assert(captures@.take(captures@.len() as int) =~= captures@);
            }
            let layout = EnvironmentLayout::new(converted.as_slice());
            proof {
                assert(converted_captures(table.types@, captures@, converted@));
                cs = converted@;
            }
            Some(layout)
        } else {
            None
        };
        let mut func_params: Vec<IrParameter> = Vec::new();
        let mut next_reg_id: u32 = 0;
        if env_layout.is_some() {
            func_params.push(IrParameter { name: "env".to_owned(), ty: void_ptr_type(), reg: IrId::new(next_reg_id), by_ref: false });
            next_reg_id = next_reg_id + 1;
        }
        let ghost off: int = if captures@.len() > 0 { 1 } else { 0 };
        let mut i: usize = 0;
        while i < params.len()
            invariant
                lambda_converts(table.types@, params@, captures@),
                params@.len() + 1 < u32::MAX,
                off == if captures@.len() > 0 { 1int } else { 0int },
                i <= params@.len(),
                next_reg_id == i + off,
                func_params@.len() == i + off,
                captures@.len() > 0 ==> {
                    &&& func_params@[0].name@ == "env"@
                    &&& func_params@[0].ty@ == void_ptr()
                    &&& func_params@[0].reg == IrId(0)
                    &&& !func_params@[0].by_ref
                },
                forall|k: int| 0 <= k < i ==> {
                    let p = #[trigger] func_params@[k + off];
                    &&& p.name@ == lambda_param_name(params@[k])
                    &&& p.ty@ == conversion(table.types@, params@[k].ty)
                    &&& p.reg == IrId((k + off) as u32)
                    &&& !p.by_ref
                },
            decreases params@.len() - i,
        {
            let ty = convert_type(table, params[i].ty);
            let name = match &params[i].name {
                Some(n) => n.clone(),
                None => "<param>".to_owned(),
            };
            func_params.push(IrParameter { name, ty, reg: IrId::new(next_reg_id), by_ref: false });
            next_reg_id = next_reg_id + 1;
            i = i + 1;
        }
        let signature = IrFunctionSignature {
            parameters: func_params,
            return_type: IrType::Any,
            calling_convention: CallingConvention::Haxe,
            can_throw: false,
            type_params: Vec::new(),
        };
        let ghost sig = signature;
        let symbol_id = SymbolId::from_raw(1000000 + func_id.0);
        let lambda_function = IrFunction::new(func_id, symbol_id, lambda_name_text, signature);
        let entry_block = lambda_function.entry_block();
        self.builder.module.add_function(lambda_function);
        proof {
            let f = self.builder.the_module().functions@.last();
            assert(self.builder.the_module().functions@.drop_last() =~= old(self).builder.the_module().functions@);
            assert forall|k: int| 0 <= k < params@.len() implies {
                let p = #[trigger] f.signature.parameters@[k + off];
                &&& p.name@ == lambda_param_name(params@[k])
                &&& p.ty@ == conversion(table.types@, params@[k].ty)
                &&& p.reg == IrId((k + off) as u32)
                &&& !p.by_ref
            } by {
                assert(param_with_reg(sig.parameters@[k + off], f.signature.parameters@[k + off], IrId((k + off) as u32)));
            }
        }
        let param_offset: u32 = if env_layout.is_some() { 1 } else { 0 };
        proof {
            if env_layout is Some {
                assert(converted_captures(table.types@, captures@, cs) && is_layout_of(env_layout->0, cs));
            }
        }
        LambdaContext { func_id, entry_block, param_offset, env_layout }
    }
}

} // verus!
