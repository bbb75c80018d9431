//! Lowering a module of the front end's high-level IR to this IR: the
//! conversion of front-end types, the signatures of functions and their
//! registration, and what lowering produces.

use vstd::prelude::*;
use std::collections::HashMap;
use crate::externs::{first_where, is_first_where, lemma_first_where, lemma_first_where_none};
use crate::builder::{incoming_added, terminates, IrBuilder};
use crate::instructions::IrTerminator;
use crate::ssa_hints::{SsaHint, SsaOptimizationHints};
use crate::functions::{IrFunctionSignature, IrParameter};
use crate::hir::{HirBinaryOp, HirFunction, HirTypeParam, HirUnaryOp, PropertyAccessInfo, TypeId, TypeKind, TypeTable};
use crate::ids::{IrBlockId, IrFunctionId, IrId, SymbolId};
use crate::module::IrModule;
use crate::text::{decimal, push_decimal};
use crate::types::{types_view, BinaryOp, CallingConvention, CompareOp, IrSourceLocation, IrType, TypeModel, UnaryOp};

verus! {

/// An error found while lowering, with where it was found.
#[derive(Debug)]
pub struct LoweringError {
    pub message: String,
    pub location: IrSourceLocation,
}

/// A lowered module together with the function each source symbol became,
/// so that modules lowered later can call into it.
#[derive(Debug)]
pub struct MirLoweringResult {
    /// The lowered module.
    pub module: IrModule,
    /// The function of each source symbol.
    pub function_map: HashMap<SymbolId, IrFunctionId>,
}

// ----------------------------------------------------------------------
// Types
// ----------------------------------------------------------------------

/// An entry of the type table for type `id`.
pub open spec fn type_entry(id: TypeId) -> spec_fn((TypeId, TypeKind)) -> bool {
    |e: (TypeId, TypeKind)| e.0 == id
}

/// A pointer to nothing in particular: how objects, arrays, dynamic and
/// unresolved values are held.
pub open spec fn void_ptr() -> TypeModel {
    TypeModel::Ptr(Box::new(TypeModel::Void))
}

/// The name of a type parameter: its own, or `T` and its number.
pub open spec fn param_name(name: Option<String>, raw: u32) -> Seq<char> {
    match name {
        Some(n) => n@,
        None => "T"@ + decimal(raw as nat),
    }
}

/// The IR type of front-end type `id`, following at most `fuel` nested
/// types; `None` when that is not enough. Scalars map to their IR
/// counterparts (`Int` and `Char` to `I32`, `Float` to `F64`, an enum to its
/// `I64` discriminant), functions to function types, optionals to pointers
/// to their inner type, abstracts and aliases to what they stand for, type
/// parameters to type variables, and everything else, an unknown id
/// included, to a pointer.
pub open spec fn converted(types: Seq<(TypeId, TypeKind)>, id: TypeId, fuel: nat) -> Option<TypeModel>
    decreases fuel, 0nat,
{
    if fuel == 0 {
        None
    } else {
        let p = first_where(types, type_entry(id));
        if p < 0 {
            Some(void_ptr())
        } else {
            match types[p].1 {
                TypeKind::Int => Some(TypeModel::I32),
                TypeKind::Float => Some(TypeModel::F64),
                TypeKind::Bool => Some(TypeModel::Bool),
                TypeKind::Void => Some(TypeModel::Void),
                TypeKind::String => Some(TypeModel::Str),
                TypeKind::Char => Some(TypeModel::I32),
                TypeKind::Function { params, return_type } => match converted_list(types, params@, (fuel - 1) as nat) {
                    Some(ps) => match converted(types, return_type, (fuel - 1) as nat) {
                        Some(r) => Some(TypeModel::Function { params: ps, return_type: Box::new(r), varargs: false }),
                        None => None,
                    },
                    None => None,
                },
                TypeKind::Enum => Some(TypeModel::I64),
                TypeKind::Optional { inner_type } => match converted(types, inner_type, (fuel - 1) as nat) {
                    Some(t) => Some(TypeModel::Ptr(Box::new(t))),
                    None => None,
                },
                TypeKind::Abstract { underlying } => match underlying {
                    Some(u) => converted(types, u, (fuel - 1) as nat),
                    None => Some(TypeModel::I32),
                },
                TypeKind::TypeParameter { symbol_id, name } => Some(TypeModel::TypeVar(param_name(name, symbol_id.0))),
                TypeKind::TypeAlias { target_type } => converted(types, target_type, (fuel - 1) as nat),
                _ => Some(void_ptr()),
            }
        }
    }
}

/// The IR types of the front-end types `ids`, with `fuel` as in `converted`.
pub open spec fn converted_list(types: Seq<(TypeId, TypeKind)>, ids: Seq<TypeId>, fuel: nat) -> Option<Seq<TypeModel>>
    decreases fuel, ids.len(),
{
    if ids.len() == 0 {
        Some(Seq::empty())
    } else {
        match converted_list(types, ids.drop_last(), fuel) {
            Some(ps) => match converted(types, ids.last(), fuel) {
                Some(t) => Some(ps.push(t)),
                None => None,
            },
            None => None,
        }
    }
}

/// The conversion of type `id` ends: no chain of nested types or aliases
/// loops back on itself.
pub open spec fn converts(types: Seq<(TypeId, TypeKind)>, id: TypeId) -> bool {
    exists|f: nat| #[trigger] converted(types, id, f) is Some
}

/// The IR type of front-end type `id`, where its conversion ends.
pub open spec fn conversion(types: Seq<(TypeId, TypeKind)>, id: TypeId) -> TypeModel {
    converted(types, id, choose|f: nat| #[trigger] converted(types, id, f) is Some)->0
}

proof fn lemma_converted_list(types: Seq<(TypeId, TypeKind)>, ids: Seq<TypeId>, fuel: nat)
    requires
        converted_list(types, ids, fuel) is Some,
    ensures
        converted_list(types, ids, fuel)->0.len() == ids.len(),
        forall|i: int| 0 <= i < ids.len() ==> converted(types, #[trigger] ids[i], fuel) == Some(converted_list(types, ids, fuel)->0[i]),
    decreases ids.len(),
{
    if ids.len() > 0 {
        lemma_converted_list(types, ids.drop_last(), fuel);
        assert forall|i: int| 0 <= i < ids.len() implies converted(types, #[trigger] ids[i], fuel) == Some(converted_list(types, ids, fuel)->0[i]) by {
            if i < ids.len() - 1 {
                assert(ids.drop_last()[i] == ids[i]);
            }
        }
    }
}

pub(crate) fn find_type(table: &TypeTable, id: TypeId) -> (r: Option<usize>)
    ensures
        match r {
            Some(p) => p == first_where(table.types@, type_entry(id)),
            None => first_where(table.types@, type_entry(id)) == -1,
        },
{
    let mut i: usize = 0;
    while i < table.types.len()
        invariant
            i <= table.types@.len(),
            forall|k: int| 0 <= k < i ==> !type_entry(id)(#[trigger] table.types@[k]),
        decreases table.types@.len() - i,
    {
        if table.types[i].0 == id {
            proof { lemma_first_where(table.types@, type_entry(id), i as int); }
            return Some(i);
        }
        i = i + 1;
    }
    proof { lemma_first_where_none(table.types@, type_entry(id)); }
    None
}

/// The element type of type `type_id`, if the table holds it as an array.
pub fn get_array_element_type(table: &TypeTable, type_id: TypeId) -> (r: Option<TypeId>)
    ensures
        ({
            let p = first_where(table.types@, type_entry(type_id));
            r == if p >= 0 && table.types@[p].1 is Array {
                Some(table.types@[p].1->element_type)
            } else {
                None
            }
        }),
{
    match find_type(table, type_id) {
        Some(p) => match &table.types[p].1 {
            TypeKind::Array { element_type } => Some(*element_type),
            _ => None,
        },
        None => None,
    }
}

pub(crate) fn void_ptr_type() -> (r: IrType)
    ensures
        r@ == void_ptr(),
{
    let r = IrType::Ptr(Box::new(IrType::Void));
    proof { assert(IrType::Void@ == TypeModel::Void); }
    r
}

fn convert_with(table: &TypeTable, id: TypeId, Ghost(fuel): Ghost<nat>) -> (r: IrType)
    requires
        converted(table.types@, id, fuel) is Some,
    ensures
        converted(table.types@, id, fuel) == Some(r@),
    decreases fuel,
{
    let ghost types = table.types@;
    let p = match find_type(table, id) {
        Some(p) => p,
        None => return void_ptr_type(),
    };
    match &table.types[p].1 {
        TypeKind::Int => IrType::I32,
        TypeKind::Float => IrType::F64,
        TypeKind::Bool => IrType::Bool,
        TypeKind::Void => IrType::Void,
        TypeKind::String => IrType::String,
        TypeKind::Char => IrType::I32,
        TypeKind::Function { params, return_type } => {
            let ghost f1 = (fuel - 1) as nat;
            proof { lemma_converted_list(types, params@, f1); }
            let ghost ms = converted_list(types, params@, f1)->0;
            let mut ps: Vec<IrType> = Vec::new();
            let mut i: usize = 0;
            while i < params.len()
                invariant
                    fuel > 0,
                    f1 == fuel - 1,
                    i <= params@.len(),
                    ms.len() == params@.len(),
                    forall|k: int| 0 <= k < params@.len() ==> converted(types, #[trigger] params@[k], f1) == Some(ms[k]),
                    types == table.types@,
                    ps@.len() == i,
                    forall|k: int| 0 <= k < i ==> (#[trigger] ps@[k])@ == ms[k],
                decreases params@.len() - i,
            {
                let t = convert_with(table, params[i], Ghost(f1));
                ps.push(t);
                i = i + 1;
            }
            let ret = convert_with(table, *return_type, Ghost(f1));
            proof {
                crate::types::lemma_types_view(ps@);
                assert(types_view(ps@) =~= ms);
            }
            IrType::Function { params: ps, return_type: Box::new(ret), varargs: false }
        },
        TypeKind::Enum => IrType::I64,
        TypeKind::Optional { inner_type } => {
            let inner = convert_with(table, *inner_type, Ghost((fuel - 1) as nat));
            IrType::Ptr(Box::new(inner))
        },
        TypeKind::Abstract { underlying } => match underlying {
            Some(u) => convert_with(table, *u, Ghost((fuel - 1) as nat)),
            None => IrType::I32,
        },
        TypeKind::TypeParameter { symbol_id, name } => match name {
            Some(n) => IrType::TypeVar(n.clone()),
            None => {
                let mut s = "T".to_owned();
                push_decimal(&mut s, symbol_id.0 as usize);
                IrType::TypeVar(s)
            },
        },
        TypeKind::TypeAlias { target_type } => convert_with(table, *target_type, Ghost((fuel - 1) as nat)),
        _ => void_ptr_type(),
    }
}

/// The IR type of front-end type `id`.
pub fn convert_type(table: &TypeTable, id: TypeId) -> (r: IrType)
    requires
        converts(table.types@, id),
    ensures
        r@ == conversion(table.types@, id),
{
    let ghost f = choose|f: nat| #[trigger] converted(table.types@, id, f) is Some;
    convert_with(table, id, Ghost(f))
}

// ----------------------------------------------------------------------
// Signatures
// ----------------------------------------------------------------------

/// The types a function's signature reads all convert.
pub open spec fn signature_converts(types: Seq<(TypeId, TypeKind)>, func: HirFunction) -> bool {
    &&& forall|i: int| 0 <= i < func.params@.len() ==> converts(types, (#[trigger] func.params@[i]).ty)
    &&& converts(types, func.return_type)
}

/// `sig` is the signature of `func`: its type parameters by name, its
/// parameters by name and converted type (in register 0 until the function
/// is created, by value), its converted return type, and the C calling
/// convention for an external function, the Haxe one otherwise.
pub open spec fn is_hir_signature(sig: IrFunctionSignature, types: Seq<(TypeId, TypeKind)>, func: HirFunction) -> bool {
    &&& sig.type_params@.len() == func.type_params@.len()
    &&& forall|i: int| 0 <= i < func.type_params@.len() ==> (#[trigger] sig.type_params@[i])@
        == param_name(func.type_params@[i].name, func.type_params@[i].raw)
    &&& sig.parameters@.len() == func.params@.len()
    &&& forall|i: int| 0 <= i < func.params@.len() ==> {
        let p = #[trigger] sig.parameters@[i];
        &&& p.name@ == func.params@[i].name@
        &&& p.ty@ == conversion(types, func.params@[i].ty)
        &&& p.reg == IrId(0)
        &&& !p.by_ref
    }
    &&& sig.return_type@ == conversion(types, func.return_type)
    &&& sig.calling_convention == if func.is_extern { CallingConvention::C } else { CallingConvention::Haxe }
    &&& !sig.can_throw
}

fn type_param_name(name: &Option<String>, raw: u32) -> (r: String)
    ensures
        r@ == param_name(*name, raw),
{
    match name {
        Some(n) => n.clone(),
        None => {
            let mut s = "T".to_owned();
            push_decimal(&mut s, raw as usize);
            s
        },
    }
}

/// The signature of `func`, its types converted with `table`.
pub fn build_function_signature(table: &TypeTable, func: &HirFunction) -> (r: IrFunctionSignature)
    requires
        signature_converts(table.types@, *func),
    ensures
        is_hir_signature(r, table.types@, *func),
{
    let mut type_params: Vec<String> = Vec::new();
    let mut i: usize = 0;
    while i < func.type_params.len()
        invariant
            i <= func.type_params@.len(),
            type_params@.len() == i,
            forall|k: int| 0 <= k < i ==> (#[trigger] type_params@[k])@
                == param_name(func.type_params@[k].name, func.type_params@[k].raw),
        decreases func.type_params@.len() - i,
    {
        type_params.push(type_param_name(&func.type_params[i].name, func.type_params[i].raw));
        i = i + 1;
    }
    let mut parameters: Vec<IrParameter> = Vec::new();
    let mut j: usize = 0;
    while j < func.params.len()
        invariant
            signature_converts(table.types@, *func),
            j <= func.params@.len(),
            parameters@.len() == j,
            forall|k: int| 0 <= k < j ==> {
                let p = #[trigger] parameters@[k];
                &&& p.name@ == func.params@[k].name@
                &&& p.ty@ == conversion(table.types@, func.params@[k].ty)
                &&& p.reg == IrId(0)
                &&& !p.by_ref
            },
        decreases func.params@.len() - j,
    {
        let ty = convert_type(table, func.params[j].ty);
        parameters.push(IrParameter { name: func.params[j].name.clone(), ty, reg: IrId(0), by_ref: false });
        j = j + 1;
    }
    let return_type = convert_type(table, func.return_type);
    let calling_convention = if func.is_extern { CallingConvention::C } else { CallingConvention::Haxe };
    IrFunctionSignature { parameters, return_type, calling_convention, can_throw: false, type_params }
}

/// The name a function is registered under: its own, or `func_` and its
/// symbol's number.
pub open spec fn function_name(func: HirFunction, symbol_id: SymbolId) -> Seq<char> {
    match func.name {
        Some(n) => n@,
        None => "func_"@ + decimal(symbol_id.0 as nat),
    }
}

/// `f` is the function that registering `func` under `symbol_id` creates,
/// with id `id`: its signature with the parameters in the first registers,
/// and an empty entry block.
pub open spec fn is_registered_function(
    f: crate::functions::IrFunction,
    id: IrFunctionId,
    symbol_id: SymbolId,
    types: Seq<(TypeId, TypeKind)>,
    func: HirFunction,
) -> bool {
    let sig = f.signature;
    &&& f.id == id
    &&& f.symbol_id == symbol_id
    &&& f.name@ == function_name(func, symbol_id)
    &&& sig.type_params@.len() == func.type_params@.len()
    &&& forall|i: int| 0 <= i < func.type_params@.len() ==> (#[trigger] sig.type_params@[i])@
        == param_name(func.type_params@[i].name, func.type_params@[i].raw)
    &&& sig.parameters@.len() == func.params@.len()
    &&& forall|i: int| 0 <= i < func.params@.len() ==> {
        let p = #[trigger] sig.parameters@[i];
        &&& p.name@ == func.params@[i].name@
        &&& p.ty@ == conversion(types, func.params@[i].ty)
        &&& p.reg == IrId(i as u32)
        &&& !p.by_ref
    }
    &&& sig.return_type@ == conversion(types, func.return_type)
    &&& sig.calling_convention == if func.is_extern { CallingConvention::C } else { CallingConvention::Haxe }
    &&& !sig.can_throw
    &&& f.cfg.blocks@.len() == 1
    &&& crate::blocks::is_fresh_block(f.cfg.blocks@[0], IrBlockId(0))
    &&& f.cfg.entry_block == IrBlockId(0)
    &&& f.cfg.next_block_id == 1
    &&& f.locals@.len() == 0
    &&& f.next_reg_id == func.params@.len()
}

fn function_name_of(func: &HirFunction, symbol_id: SymbolId) -> (r: String)
    ensures
        r@ == function_name(*func, symbol_id),
{
    match &func.name {
        Some(n) => n.clone(),
        None => {
            let mut s = "func_".to_owned();
            push_decimal(&mut s, symbol_id.0 as usize);
            s
        },
    }
}

/// Registers `func` under `symbol_id` without lowering its body: a new
/// function with its signature is added to the module, and no function is
/// left being built. Gives the new function's id.
pub fn register_function_signature(
    builder: &mut IrBuilder,
    table: &TypeTable,
    symbol_id: SymbolId,
    func: &HirFunction,
) -> (r: IrFunctionId)
    requires
        old(builder).the_module().next_function_id < u32::MAX,
        func.params@.len() < u32::MAX,
        signature_converts(table.types@, *func),
    ensures
        ({
            let m0 = old(builder).the_module();
            let m1 = final(builder).the_module();
            &&& r == IrFunctionId(m0.next_function_id)
            &&& m1 == (IrModule { functions: m1.functions, next_function_id: m1.next_function_id, ..m0 })
            &&& m1.next_function_id == m0.next_function_id + 1
            &&& m1.functions@.len() == m0.functions@.len() + 1
            &&& m1.functions@.drop_last() == m0.functions@
            &&& is_registered_function(m1.functions@.last(), r, symbol_id, table.types@, *func)
            &&& m0.wf() ==> m1.wf()
            &&& final(builder).cur_fn() is None
            &&& final(builder).cur_block() is None
            &&& final(builder).source_location() == old(builder).source_location()
        }),
{
    let signature = build_function_signature(table, func);
    let name = function_name_of(func, symbol_id);
    let id = builder.start_function(symbol_id, name, signature);
    builder.finish_function();
    id
}

/// `b` is `a` after the signatures of `functions` were registered, in
/// order, with fresh function ids; `r` maps each symbol to its id.
pub open spec fn signatures_registered(
    a: IrBuilder,
    b: IrBuilder,
    types: Seq<(TypeId, TypeKind)>,
    functions: Seq<(SymbolId, HirFunction)>,
    r: Seq<(SymbolId, IrFunctionId)>,
) -> bool {
    let m0 = a.the_module();
    let m1 = b.the_module();
    let n0 = m0.functions@.len();
    &&& r.len() == functions.len()
    &&& forall|i: int| 0 <= i < functions.len() ==> #[trigger] r[i]
        == (functions[i].0, IrFunctionId((m0.next_function_id + i) as u32))
    &&& m1 == (IrModule { functions: m1.functions, next_function_id: m1.next_function_id, ..m0 })
    &&& m1.next_function_id == m0.next_function_id + functions.len()
    &&& m1.functions@.len() == n0 + functions.len()
    &&& m1.functions@.subrange(0, n0 as int) == m0.functions@
    &&& forall|i: int| 0 <= i < functions.len() ==> is_registered_function(
        #[trigger] m1.functions@[n0 + i],
        IrFunctionId((m0.next_function_id + i) as u32),
        functions[i].0,
        types,
        functions[i].1,
    )
    &&& m0.wf() ==> m1.wf()
    &&& functions.len() > 0 ==> b.cur_fn() is None && b.cur_block() is None
    &&& functions.len() == 0 ==> b == a
    &&& b.source_location() == a.source_location()
}

/// Registers every function of `functions` (symbol, function), in order,
/// without lowering their bodies: function `i` gets the `i`-th next function
/// id. Gives the function each symbol became.
pub fn register_function_signatures(
    builder: &mut IrBuilder,
    table: &TypeTable,
    functions: &Vec<(SymbolId, HirFunction)>,
) -> (r: Vec<(SymbolId, IrFunctionId)>)
    requires
        old(builder).the_module().next_function_id + functions@.len() <= u32::MAX,
        forall|i: int| 0 <= i < functions@.len() ==> {
            &&& (#[trigger] functions@[i]).1.params@.len() < u32::MAX
            &&& signature_converts(table.types@, functions@[i].1)
        },
    ensures
        signatures_registered(*old(builder), *final(builder), table.types@, functions@, r@),
{
    let ghost m0 = builder.the_module();
    let ghost n0 = m0.functions@.len();
    let mut map: Vec<(SymbolId, IrFunctionId)> = Vec::new();
    let mut i: usize = 0;
    while i < functions.len()
        invariant
            i <= functions@.len(),
            m0 == old(builder).the_module(),
            n0 == m0.functions@.len(),
            m0.next_function_id + functions@.len() <= u32::MAX,
            forall|k: int| 0 <= k < functions@.len() ==> {
                &&& (#[trigger] functions@[k]).1.params@.len() < u32::MAX
                &&& signature_converts(table.types@, functions@[k].1)
            },
            map@.len() == i,
            forall|k: int| 0 <= k < i ==> #[trigger] map@[k]
                == (functions@[k].0, IrFunctionId((m0.next_function_id + k) as u32)),
            builder.the_module() == (IrModule {
                functions: builder.the_module().functions,
                next_function_id: builder.the_module().next_function_id,
                ..m0
            }),
            builder.the_module().next_function_id == m0.next_function_id + i,
            builder.the_module().functions@.len() == n0 + i,
            builder.the_module().functions@.subrange(0, n0 as int) == m0.functions@,
            forall|k: int| 0 <= k < i ==> is_registered_function(
                #[trigger] builder.the_module().functions@[n0 + k],
                IrFunctionId((m0.next_function_id + k) as u32),
                functions@[k].0,
                table.types@,
                functions@[k].1,
            ),
            m0.wf() ==> builder.the_module().wf(),
            i > 0 ==> builder.cur_fn() is None && builder.cur_block() is None,
            i == 0 ==> *builder == *old(builder),
            builder.source_location() == old(builder).source_location(),
        decreases functions@.len() - i,
    {
        let ghost before = builder.the_module().functions@;
        let id = register_function_signature(builder, table, functions[i].0, &functions[i].1);
        map.push((functions[i].0, id));
        proof {
            let fs = builder.the_module().functions@;
            assert(fs.drop_last() == before);
            assert(fs.subrange(0, n0 as int) =~= m0.functions@) by {
                assert forall|k: int| 0 <= k < n0 implies fs[k] == m0.functions@[k] by {
                    assert(fs[k] == before[k]);
                    assert(before.subrange(0, n0 as int)[k] == before[k]);
                }
            }
            assert forall|k: int| 0 <= k < i + 1 implies is_registered_function(
                #[trigger] fs[n0 + k],
                IrFunctionId((m0.next_function_id + k) as u32),
                functions@[k].0,
                table.types@,
                functions@[k].1,
            ) by {
                if k < i {
                    assert(fs[n0 + k] == before[n0 + k]);
                } else {
                    assert(fs[n0 + k] == fs.last());
                }
            }
        }
        i = i + 1;
    }
    map
}

// ----------------------------------------------------------------------
// Loops being lowered
// ----------------------------------------------------------------------

/// A loop being lowered: where `continue` and `break` go, its label, and
/// the phi nodes of its exit block (variable, register).
#[derive(Debug)]
pub struct LoopContext {
    pub continue_block: IrBlockId,
    pub break_block: IrBlockId,
    pub label: Option<SymbolId>,
    pub exit_phi_nodes: Vec<(SymbolId, IrId)>,
}

/// The index, in the stack of loops being lowered, of the loop a `break`
/// or `continue` with `label` leaves: the innermost loop so labelled, or
/// the innermost loop when there is no label; -1 if there is none.
pub open spec fn loop_target(stack: Seq<LoopContext>, label: Option<SymbolId>) -> int
    decreases stack.len(),
{
    if stack.len() == 0 {
        -1
    } else {
        match label {
            None => stack.len() - 1,
            Some(l) => if stack.last().label == Some(l) {
                stack.len() - 1
            } else {
                loop_target(stack.drop_last(), label)
            },
        }
    }
}

proof fn lemma_loop_target_range(stack: Seq<LoopContext>, label: Option<SymbolId>)
    ensures
        -1 <= loop_target(stack, label) < stack.len(),
    decreases stack.len(),
{
    if stack.len() > 0 {
        lemma_loop_target_range(stack.drop_last(), label);
    }
}

/// The index in `stack` of the loop a `break` or `continue` with `label`
/// leaves.
fn find_loop_index(stack: &Vec<LoopContext>, label: Option<SymbolId>) -> (r: Option<usize>)
    ensures
        match r {
            Some(i) => i as int == loop_target(stack@, label),
            None => loop_target(stack@, label) < 0,
        },
        loop_target(stack@, label) < stack@.len(),
{
    proof {
        lemma_loop_target_range(stack@, label);
        assert(stack@.subrange(0, stack@.len() as int) =~= stack@);
    }
    match label {
        None => {
            if stack.len() == 0 {
                None
            } else {
                Some(stack.len() - 1)
            }
        },
        Some(l) => {
            let mut i: usize = stack.len();
            while i > 0
                invariant
                    label == Some(l),
                    i <= stack@.len(),
                    loop_target(stack@, label) == loop_target(stack@.subrange(0, i as int), label),
                decreases i,
            {
                proof {
                    let sub = stack@.subrange(0, i as int);
                    assert(sub.drop_last() =~= stack@.subrange(0, i - 1));
                    assert(sub.last() == stack@[i - 1]);
                }
                let hit = match stack[i - 1].label {
                    Some(x) => x == l,
                    None => false,
                };
                if hit {
                    proof {
                        assert(stack@[i - 1].label == Some(l));
                        assert(loop_target(stack@.subrange(0, i as int), label) == i - 1);
                    }
                    return Some(i - 1);
                }
                i = i - 1;
            }
            None
        },
    }
}

/// The loop a `break` or `continue` with `label` leaves.
pub fn find_loop_context(stack: &Vec<LoopContext>, label: Option<SymbolId>) -> (r: Option<&LoopContext>)
    ensures
        loop_target(stack@, label) < 0 ==> r is None,
        loop_target(stack@, label) >= 0 ==> r == Some(&stack@[loop_target(stack@, label)]),
{
    match find_loop_index(stack, label) {
        Some(i) => {
            assert(i as int == loop_target(stack@, label));
            Some(&stack[i])
        },
        None => None,
    }
}

// ----------------------------------------------------------------------
// Operators
// ----------------------------------------------------------------------

/// A front-end binary operator as an IR operation: arithmetic or a comparison.
#[derive(Clone, Copy, Debug, PartialEq, Eq, Structural)]
pub enum MirBinaryOp {
    Binary(BinaryOp),
    Compare(CompareOp),
}

/// The IR operation of a front-end binary operator; the logical ones,
/// which lowering turns into control flow, fall back to `Add`.
pub open spec fn mir_binary_op(op: HirBinaryOp) -> MirBinaryOp {
    match op {
        HirBinaryOp::Add => MirBinaryOp::Binary(BinaryOp::Add),
        HirBinaryOp::Sub => MirBinaryOp::Binary(BinaryOp::Sub),
        HirBinaryOp::Mul => MirBinaryOp::Binary(BinaryOp::Mul),
        HirBinaryOp::Div => MirBinaryOp::Binary(BinaryOp::Div),
        HirBinaryOp::Mod => MirBinaryOp::Binary(BinaryOp::Rem),
        HirBinaryOp::Eq => MirBinaryOp::Compare(CompareOp::Eq),
        HirBinaryOp::Ne => MirBinaryOp::Compare(CompareOp::Ne),
        HirBinaryOp::Lt => MirBinaryOp::Compare(CompareOp::Lt),
        HirBinaryOp::Le => MirBinaryOp::Compare(CompareOp::Le),
        HirBinaryOp::Gt => MirBinaryOp::Compare(CompareOp::Gt),
        HirBinaryOp::Ge => MirBinaryOp::Compare(CompareOp::Ge),
        HirBinaryOp::BitAnd => MirBinaryOp::Binary(BinaryOp::And),
        HirBinaryOp::BitOr => MirBinaryOp::Binary(BinaryOp::Or),
        HirBinaryOp::BitXor => MirBinaryOp::Binary(BinaryOp::Xor),
        HirBinaryOp::Shl => MirBinaryOp::Binary(BinaryOp::Shl),
        HirBinaryOp::Shr => MirBinaryOp::Binary(BinaryOp::Shr),
        _ => MirBinaryOp::Binary(BinaryOp::Add),
    }
}

/// The IR operation of a front-end binary operator.
pub fn convert_binary_op_to_mir(op: HirBinaryOp) -> (r: MirBinaryOp)
    ensures
        r == mir_binary_op(op),
{
    match op {
        HirBinaryOp::Add => MirBinaryOp::Binary(BinaryOp::Add),
        HirBinaryOp::Sub => MirBinaryOp::Binary(BinaryOp::Sub),
        HirBinaryOp::Mul => MirBinaryOp::Binary(BinaryOp::Mul),
        HirBinaryOp::Div => MirBinaryOp::Binary(BinaryOp::Div),
        HirBinaryOp::Mod => MirBinaryOp::Binary(BinaryOp::Rem),
        HirBinaryOp::Eq => MirBinaryOp::Compare(CompareOp::Eq),
        HirBinaryOp::Ne => MirBinaryOp::Compare(CompareOp::Ne),
        HirBinaryOp::Lt => MirBinaryOp::Compare(CompareOp::Lt),
        HirBinaryOp::Le => MirBinaryOp::Compare(CompareOp::Le),
        HirBinaryOp::Gt => MirBinaryOp::Compare(CompareOp::Gt),
        HirBinaryOp::Ge => MirBinaryOp::Compare(CompareOp::Ge),
        HirBinaryOp::BitAnd => MirBinaryOp::Binary(BinaryOp::And),
        HirBinaryOp::BitOr => MirBinaryOp::Binary(BinaryOp::Or),
        HirBinaryOp::BitXor => MirBinaryOp::Binary(BinaryOp::Xor),
        HirBinaryOp::Shl => MirBinaryOp::Binary(BinaryOp::Shl),
        HirBinaryOp::Shr => MirBinaryOp::Binary(BinaryOp::Shr),
        _ => MirBinaryOp::Binary(BinaryOp::Add),
    }
}

/// The comparison of the IR that bears the same name as the front-end
/// operator `op`, if `op` is a comparison.
pub open spec fn same_named_comparison(op: HirBinaryOp) -> Option<CompareOp> {
    if op is Eq {
        Some(CompareOp::Eq)
    } else if op is Ne {
        Some(CompareOp::Ne)
    } else if op is Lt {
        Some(CompareOp::Lt)
    } else if op is Le {
        Some(CompareOp::Le)
    } else if op is Gt {
        Some(CompareOp::Gt)
    } else if op is Ge {
        Some(CompareOp::Ge)
    } else {
        None
    }
}

/// A comparison operator becomes the IR comparison of the same name, and
/// only the comparison operators become comparisons: `a > b` is lowered to
/// `Gt` of `a` and `b`, never to `Lt`.
pub proof fn law_comparisons_keep_their_meaning(op: HirBinaryOp)
    ensures
        match same_named_comparison(op) {
            Some(c) => mir_binary_op(op) == MirBinaryOp::Compare(c),
            None => mir_binary_op(op) is Binary,
        },
        mir_binary_op(HirBinaryOp::Lt) != mir_binary_op(HirBinaryOp::Gt),
        mir_binary_op(HirBinaryOp::Le) != mir_binary_op(HirBinaryOp::Ge),
        mir_binary_op(HirBinaryOp::Eq) != mir_binary_op(HirBinaryOp::Ne),
{
}

/// The arithmetic or bitwise IR operation named like the front-end
/// operator `op` (`%` is the remainder), if `op` is one.
pub open spec fn same_named_arithmetic(op: HirBinaryOp) -> Option<BinaryOp> {
    if op is Add {
        Some(BinaryOp::Add)
    } else if op is Sub {
        Some(BinaryOp::Sub)
    } else if op is Mul {
        Some(BinaryOp::Mul)
    } else if op is Div {
        Some(BinaryOp::Div)
    } else if op is Mod {
        Some(BinaryOp::Rem)
    } else if op is BitAnd {
        Some(BinaryOp::And)
    } else if op is BitOr {
        Some(BinaryOp::Or)
    } else if op is BitXor {
        Some(BinaryOp::Xor)
    } else if op is Shl {
        Some(BinaryOp::Shl)
    } else if op is Shr {
        Some(BinaryOp::Shr)
    } else {
        None
    }
}

/// An arithmetic or bitwise operator becomes the IR operation of the same
/// name, and the unary operators keep theirs: `!` and `~` negate bits or
/// truth, `-` negates numbers.
pub proof fn law_arithmetic_keeps_its_meaning(op: HirBinaryOp)
    ensures
        match same_named_arithmetic(op) {
            Some(b) => mir_binary_op(op) == MirBinaryOp::Binary(b),
            None => same_named_comparison(op) is Some || op is And || op is Or,
        },
{
}

/// The arithmetic IR operator of a front-end binary operator: the
/// arithmetic and bitwise ones map to theirs, every other one to `Add`.
pub fn convert_binary_op(op: HirBinaryOp) -> (r: BinaryOp)
    ensures
        r == match mir_binary_op(op) {
            MirBinaryOp::Binary(b) => b,
            MirBinaryOp::Compare(_) => BinaryOp::Add,
        },
{
    match op {
        HirBinaryOp::Add => BinaryOp::Add,
        HirBinaryOp::Sub => BinaryOp::Sub,
        HirBinaryOp::Mul => BinaryOp::Mul,
        HirBinaryOp::Div => BinaryOp::Div,
        HirBinaryOp::Mod => BinaryOp::Rem,
        HirBinaryOp::BitAnd => BinaryOp::And,
        HirBinaryOp::BitOr => BinaryOp::Or,
        HirBinaryOp::BitXor => BinaryOp::Xor,
        HirBinaryOp::Shl => BinaryOp::Shl,
        HirBinaryOp::Shr => BinaryOp::Shr,
        _ => BinaryOp::Add,
    }
}

/// The IR operator of a front-end unary operator: `!` and `~` are `Not`,
/// every other one `Neg` (increments and decrements are lowered apart).
pub fn convert_unary_op(op: HirUnaryOp) -> (r: UnaryOp)
    ensures
        r == match op {
            HirUnaryOp::Not | HirUnaryOp::BitNot => UnaryOp::Not,
            _ => UnaryOp::Neg,
        },
{
    match op {
        HirUnaryOp::Not => UnaryOp::Not,
        HirUnaryOp::Neg => UnaryOp::Neg,
        HirUnaryOp::BitNot => UnaryOp::Not,
        _ => UnaryOp::Neg,
    }
}


// ----------------------------------------------------------------------
// The state of body lowering, and `break` / `continue`
// ----------------------------------------------------------------------

/// An entry of a map from symbols to registers for `sym`.
pub open spec fn reg_entry(sym: SymbolId) -> spec_fn((SymbolId, IrId)) -> bool {
    |e: (SymbolId, IrId)| e.0 == sym
}

/// An entry of a map from symbols to functions for `sym`.
pub open spec fn fn_entry(sym: SymbolId) -> spec_fn((SymbolId, IrFunctionId)) -> bool {
    |e: (SymbolId, IrFunctionId)| e.0 == sym
}

/// The register a variable is held in, by the first entry for it.
pub open spec fn reg_of(map: Seq<(SymbolId, IrId)>, sym: SymbolId) -> Option<IrId> {
    let p = first_where(map, reg_entry(sym));
    if p >= 0 {
        Some(map[p].1)
    } else {
        None
    }
}

/// The function a symbol names, by the first entry for it.
pub open spec fn fn_of(map: Seq<(SymbolId, IrFunctionId)>, sym: SymbolId) -> Option<IrFunctionId> {
    let p = first_where(map, fn_entry(sym));
    if p >= 0 {
        Some(map[p].1)
    } else {
        None
    }
}

/// `steps` are the states of a builder while the incoming pairs (`from`,
/// value) are added, one by one and in order, to the phi nodes of `block`
/// named in `edges` (phi register, value); `rs` are what each addition
/// returned.
pub open spec fn incoming_chain(
    steps: Seq<IrBuilder>,
    rs: Seq<Option<()>>,
    block: IrBlockId,
    from: IrBlockId,
    edges: Seq<(IrId, IrId)>,
) -> bool {
    &&& steps.len() == edges.len() + 1
    &&& rs.len() == edges.len()
    &&& forall|k: int|
        0 <= k < edges.len() ==> incoming_added(steps[k], steps[k + 1], #[trigger] rs[k], block, edges[k].0, from, edges[k].1)
}

/// `b` is `a` after the incoming pairs (`from`, value) were added, in order,
/// to the phi nodes of `block` named in `edges` (phi register, value).
pub open spec fn incomings_added(a: IrBuilder, b: IrBuilder, block: IrBlockId, from: IrBlockId, edges: Seq<(IrId, IrId)>) -> bool {
    exists|steps: Seq<IrBuilder>, rs: Seq<Option<()>>|
        #[trigger] incoming_chain(steps, rs, block, from, edges) && steps[0] == a && steps.last() == b
}

/// The incoming pairs a `break` adds to the exit phi nodes of its loop: for
/// each (variable, exit phi), the variable's register now, or the phi's own
/// register when the variable has none.
pub open spec fn break_edges(exits: Seq<(SymbolId, IrId)>, symbols: Seq<(SymbolId, IrId)>) -> Seq<(IrId, IrId)> {
    Seq::new(
        exits.len(),
        |k: int|
            (
                exits[k].1,
                match reg_of(symbols, exits[k].0) {
                    Some(r) => r,
                    None => exits[k].1,
                },
            ),
    )
}

/// The error that lowering records, with no source location.
pub open spec fn error_at_unknown(e: LoweringError, msg: Seq<char>) -> bool {
    e.message@ == msg && e.location == IrSourceLocation::unknown_spec()
}

/// What lowering `continue` does: a jump to the condition of the loop it
/// continues, or an error when it stands in no such loop.
pub open spec fn continue_lowered(a: HirToMirContext, b: HirToMirContext, label: Option<SymbolId>) -> bool {
    let t = loop_target(a.loop_stack@, label);
    &&& b == (HirToMirContext { builder: b.builder, errors: b.errors, ..a })
    &&& if t >= 0 {
        &&& terminates(
            a.builder,
            b.builder,
            if a.builder.has_block() { Some(()) } else { None },
            IrTerminator::Branch { target: a.loop_stack@[t].continue_block },
        )
        &&& b.errors == a.errors
    } else {
        &&& b.builder == a.builder
        &&& b.errors@.len() == a.errors@.len() + 1
        &&& b.errors@.drop_last() == a.errors@
        &&& error_at_unknown(b.errors@.last(), "Continue outside of loop"@)
    }
}

/// What lowering `break` does: each exit phi node of the loop it leaves
/// gets the variable's register now as the value coming from this block,
/// then a jump to the loop's exit; an error when it stands in no such loop.
pub open spec fn break_lowered(a: HirToMirContext, b: HirToMirContext, label: Option<SymbolId>) -> bool {
    let t = loop_target(a.loop_stack@, label);
    &&& b == (HirToMirContext { builder: b.builder, errors: b.errors, ..a })
    &&& if t >= 0 {
        let ctx = a.loop_stack@[t];
        let from = a.builder.cur_block()->0;
        &&& b.errors == a.errors
        &&& exists|mid: IrBuilder, r: Option<()>|
            #![trigger incomings_added(a.builder, mid, ctx.break_block, from, break_edges(ctx.exit_phi_nodes@, a.symbol_map@)), terminates(mid, b.builder, r, IrTerminator::Branch { target: ctx.break_block })]
            incomings_added(a.builder, mid, ctx.break_block, from, break_edges(ctx.exit_phi_nodes@, a.symbol_map@))
                && terminates(mid, b.builder, r, IrTerminator::Branch { target: ctx.break_block })
    } else {
        &&& b.builder == a.builder
        &&& b.errors@.len() == a.errors@.len() + 1
        &&& b.errors@.drop_last() == a.errors@
        &&& error_at_unknown(b.errors@.last(), "Break outside of loop"@)
    }
}

/// `c` is a context for lowering into a new, empty module: nothing is
/// built, bound, mapped or recorded yet.
pub open spec fn is_fresh_context(c: HirToMirContext, module_name: String, source_file: String) -> bool {
    &&& starts_fresh(c, module_name, source_file)
    &&& c.external_function_map@.len() == 0
}

/// `c` is a context for lowering into a new, empty module: nothing is
/// built, bound, mapped or recorded yet, but the functions of other
/// modules may be known.
pub open spec fn starts_fresh(c: HirToMirContext, module_name: String, source_file: String) -> bool {
    &&& c.builder.the_module().name == module_name
    &&& c.builder.the_module().source_file == source_file
    &&& c.builder.the_module().functions@.len() == 0
    &&& c.builder.the_module().extern_functions@.len() == 0
    &&& c.builder.the_module().next_function_id == 0
    &&& c.builder.the_module().string_pool.strings@.len() == 0
    &&& c.builder.cur_fn() is None
    &&& c.builder.cur_block() is None
    &&& c.symbol_map@.len() == 0
    &&& c.function_map@.len() == 0
    &&& c.loop_stack@.len() == 0
    &&& c.errors@.len() == 0
    &&& c.field_index_map@.len() == 0
    &&& c.typedef_field_map@.len() == 0
    &&& c.property_access_map@.len() == 0
    &&& c.constructor_map@.len() == 0
    &&& c.constructor_name_map@.len() == 0
    &&& c.lambda_counter == 0
    &&& c.enums_for_registration@.len() == 0
    &&& c.ssa_hints.wf()
    &&& forall|kind: SsaHint| #[trigger] c.ssa_hints.set_of(kind).len() == 0
}

/// The state of lowering the bodies of a module's functions.
pub struct HirToMirContext {
    pub builder: IrBuilder,
    /// The register that holds each variable at this point of the body.
    pub symbol_map: Vec<(SymbolId, IrId)>,
    /// The function each symbol of this module became.
    pub function_map: Vec<(SymbolId, IrFunctionId)>,
    /// The functions of modules lowered before, by symbol.
    pub external_function_map: Vec<(SymbolId, IrFunctionId)>,
    /// The loops being lowered, innermost last.
    pub loop_stack: Vec<LoopContext>,
    pub errors: Vec<LoweringError>,
    pub ssa_hints: SsaOptimizationHints,
    /// The class (or structure type) and index of each field symbol.
    pub field_index_map: Vec<(SymbolId, (TypeId, u32))>,
    /// The index of each field of an aliased anonymous structure, by the
    /// alias and the field's interned name.
    pub typedef_field_map: Vec<((TypeId, u32), u32)>,
    /// The accessors of each property with custom ones.
    pub property_access_map: Vec<(SymbolId, PropertyAccessInfo)>,
    /// The constructor of each class, by type.
    pub constructor_map: Vec<(TypeId, IrFunctionId)>,
    /// The constructor of each class, by qualified (or simple) name.
    pub constructor_name_map: Vec<(String, IrFunctionId)>,
    /// How many lambdas were generated so far: it numbers their names.
    pub lambda_counter: u32,
    /// The enums met so far, by symbol, with their runtime type id, name
    /// and variant names, for runtime type information.
    pub enums_for_registration: Vec<(SymbolId, (u32, String, Vec<String>))>,
}

impl HirToMirContext {
    /// A context for lowering into a new module.
    pub fn new(module_name: String, source_file: String) -> (r: HirToMirContext)
        ensures
            is_fresh_context(r, module_name, source_file),
    {
        HirToMirContext {
            builder: IrBuilder::new(module_name, source_file),
            symbol_map: Vec::new(),
            function_map: Vec::new(),
            external_function_map: Vec::new(),
            loop_stack: Vec::new(),
            errors: Vec::new(),
            ssa_hints: SsaOptimizationHints::new(),
            field_index_map: Vec::new(),
            typedef_field_map: Vec::new(),
            property_access_map: Vec::new(),
            constructor_map: Vec::new(),
            constructor_name_map: Vec::new(),
            lambda_counter: 0,
            enums_for_registration: Vec::new(),
        }
    }

    /// The function `symbol` names: one of this module, else one lowered
    /// before.
    pub fn get_function_id(&self, symbol: SymbolId) -> (r: Option<IrFunctionId>)
        ensures
            r == match fn_of(self.function_map@, symbol) {
                Some(f) => Some(f),
                None => fn_of(self.external_function_map@, symbol),
            },
    {
        match lookup_function(&self.function_map, symbol) {
            Some(f) => Some(f),
            None => lookup_function(&self.external_function_map, symbol),
        }
    }

    /// Records an error.
    pub fn add_error(&mut self, msg: &str, location: IrSourceLocation)
        ensures
            final(self).errors@.len() == old(self).errors@.len() + 1,
            final(self).errors@.drop_last() == old(self).errors@,
            final(self).errors@.last().message@ == msg@,
            final(self).errors@.last().location == location,
            *final(self) == (HirToMirContext { errors: final(self).errors, ..*old(self) }),
    {
        self.errors.push(LoweringError { message: msg.to_owned(), location });
        proof {
            assert(self.errors@.drop_last() =~= old(self).errors@);
        }
    }

    /// Whether the block being built already ends (its terminator is not
    /// the `Unreachable` a new block starts with); false when no block is
    /// being built.
    pub fn is_terminated(&self) -> (r: bool)
        ensures
            r == (self.builder.has_block() && !(self.builder.block().terminator is Unreachable)),
    {
        let block_id = match self.builder.current_block() {
            Some(id) => id,
            None => return false,
        };
        match self.builder.current_function() {
            Some(func) => match func.cfg.get_block(block_id) {
                Some(block) => !matches!(block.terminator, IrTerminator::Unreachable),
                None => false,
            },
            None => false,
        }
    }

    /// Ends the block being built with a return of nothing, unless it ends
    /// already.
    pub fn ensure_terminator(&mut self)
        ensures
            *final(self) == (HirToMirContext { builder: final(self).builder, ..*old(self) }),
            if old(self).builder.has_block() && !(old(self).builder.block().terminator is Unreachable) {
                final(self).builder == old(self).builder
            } else {
                terminates(
                    old(self).builder,
                    final(self).builder,
                    if old(self).builder.has_block() { Some(()) } else { None },
                    IrTerminator::Return { value: None },
                )
            },
    {
        if !self.is_terminated() {
            let _ = self.builder.build_return(None);
        }
    }

    /// Lowers `continue`: a jump to the condition of the loop it continues,
    /// or an error when it stands in no such loop.
    pub fn lower_continue(&mut self, label: Option<SymbolId>)
        ensures
            crate::body_lowering::frame_kept(*old(self), *final(self)),
            continue_lowered(*old(self), *final(self), label),
    {
        let target = match find_loop_context(&self.loop_stack, label) {
            Some(ctx) => Some(ctx.continue_block),
            None => None,
        };
        match target {
            Some(block) => {
                let _ = self.builder.build_branch(block);
            },
            None => {
                self.add_error("Continue outside of loop", IrSourceLocation::unknown());
            },
        }
    }

    /// Lowers `break`: each exit phi node of the loop it leaves gets the
    /// variable's register now as the value coming from this block, then a
    /// jump to the loop's exit; an error when it stands in no such loop.
    pub fn lower_break(&mut self, label: Option<SymbolId>)
        requires
            loop_target(old(self).loop_stack@, label) >= 0 ==> old(self).builder.cur_block() is Some,
        ensures
            crate::body_lowering::frame_kept(*old(self), *final(self)),
            break_lowered(*old(self), *final(self), label),
    {
        let t = find_loop_index(&self.loop_stack, label);
        match t {
            None => {
                self.add_error("Break outside of loop", IrSourceLocation::unknown());
            },
            Some(t) => {
                let break_block = self.loop_stack[t].break_block;
                let current_block = match self.builder.current_block() {
                    Some(b) => b,
                    None => {
                        return;
                    },
                };
                let ghost b0 = self.builder;
                let ghost edges = break_edges(self.loop_stack@[t as int].exit_phi_nodes@, self.symbol_map@);
                let ghost mut steps: Seq<IrBuilder> = seq![self.builder];
                let ghost mut rs: Seq<Option<()>> = Seq::empty();
                let n = self.loop_stack[t].exit_phi_nodes.len();
                let mut k: usize = 0;
                while k < n
                    invariant
                        *self == (HirToMirContext { builder: self.builder, ..*old(self) }),
                        self.builder.cur_block() == old(self).builder.cur_block(),
                        t < self.loop_stack@.len(),
                        n == self.loop_stack@[t as int].exit_phi_nodes@.len(),
                        edges == break_edges(self.loop_stack@[t as int].exit_phi_nodes@, self.symbol_map@),
                        k <= n,
                        incoming_chain(steps, rs, break_block, current_block, edges.take(k as int)),
                        steps[0] == b0,
                        steps.last() == self.builder,
                    decreases n - k,
                {
                    let (symbol_id, exit_phi_reg) = self.loop_stack[t].exit_phi_nodes[k];
                    let current_value = match lookup_register(&self.symbol_map, symbol_id) {
                        Some(reg) => reg,
                        None => exit_phi_reg,
                    };
                    let ghost mid = self.builder;
                    let r = self.builder.add_phi_incoming(break_block, exit_phi_reg, current_block, current_value);
                    proof {
                        let e0 = edges.take(k as int);
                        let e1 = edges.take(k + 1);
                        let s0 = steps;
                        let r0 = rs;
                        steps = steps.push(self.builder);
                        rs = rs.push(r);
                        assert(e1[k as int] == (exit_phi_reg, current_value));
                        assert forall|j: int| 0 <= j < e1.len() implies incoming_added(
                            steps[j],
                            steps[j + 1],
                            #[trigger] rs[j],
                            break_block,
                            e1[j].0,
                            current_block,
                            e1[j].1,
                        ) by {
                            if j < k {
                                assert(r0[j] == rs[j]);
                                assert(e0[j] == e1[j]);
                                assert(s0[j] == steps[j]);
                                assert(s0[j + 1] == steps[j + 1]);
                            } else {
                                assert(steps[j] == mid);
                            }
                        }
                    }
                    k = k + 1;
                }
                proof {
                    assert(edges.take(n as int) =~= edges);
                }
                let ghost mid = self.builder;
                let r = self.builder.build_branch(break_block);
                proof {
                    assert(incoming_chain(steps, rs, break_block, current_block, edges));
                    assert(incomings_added(b0, mid, break_block, current_block, edges));
                    assert(terminates(mid, self.builder, r, IrTerminator::Branch { target: break_block }));
                }
            },
        }
    }
}

/// The names of type parameters `tps`, in order.
pub open spec fn type_param_names(tps: Seq<HirTypeParam>) -> Seq<Seq<char>> {
    tps.map_values(|t: HirTypeParam| param_name(t.name, t.raw))
}

/// `sig` is the signature of `func` as a method of a generic class with
/// type parameters `class_tps`: the class's type parameters come before the
/// method's own; the rest as for a module function.
pub open spec fn is_hir_signature_with(
    sig: IrFunctionSignature,
    types: Seq<(TypeId, TypeKind)>,
    func: HirFunction,
    class_tps: Seq<HirTypeParam>,
) -> bool {
    &&& sig.type_params@.map_values(|t: String| t@) == type_param_names(class_tps) + type_param_names(func.type_params@)
    &&& sig.parameters@.len() == func.params@.len()
    &&& forall|i: int| 0 <= i < func.params@.len() ==> {
        let p = #[trigger] sig.parameters@[i];
        &&& p.name@ == func.params@[i].name@
        &&& p.ty@ == conversion(types, func.params@[i].ty)
        &&& p.reg == IrId(0)
        &&& !p.by_ref
    }
    &&& sig.return_type@ == conversion(types, func.return_type)
    &&& sig.calling_convention == if func.is_extern { CallingConvention::C } else { CallingConvention::Haxe }
    &&& !sig.can_throw
}

/// Appends the names of `tps` to `names`.
pub(crate) fn push_type_param_names(names: &mut Vec<String>, tps: &Vec<HirTypeParam>)
    ensures
        final(names)@.map_values(|t: String| t@) == old(names)@.map_values(|t: String| t@) + type_param_names(tps@),
{
    let ghost n0 = names@.map_values(|t: String| t@);
    let mut i: usize = 0;
    while i < tps.len()
        invariant
            i <= tps@.len(),
            names@.map_values(|t: String| t@) == n0 + type_param_names(tps@.take(i as int)),
        decreases tps@.len() - i,
    {
        let ghost before = names@;
        names.push(type_param_name(&tps[i].name, tps[i].raw));
        proof {
            assert(type_param_names(tps@.take(i + 1)) =~= type_param_names(tps@.take(i as int)).push(
                param_name(tps@[i as int].name, tps@[i as int].raw),
            ));
            assert(names@.map_values(|t: String| t@) =~= before.map_values(|t: String| t@).push(names@.last()@));
        }
        i = i + 1;
    }
    proof {
        assert(tps@.take(tps@.len() as int) =~= tps@);
    }
}

/// The signature of `func` as a method of a generic class with type
/// parameters `class_type_params`, its types converted with `table`.
pub fn build_function_signature_with_class_type_params(
    table: &TypeTable,
    func: &HirFunction,
    class_type_params: &Vec<HirTypeParam>,
) -> (r: IrFunctionSignature)
    requires
        signature_converts(table.types@, *func),
    ensures
        is_hir_signature_with(r, table.types@, *func, class_type_params@),
{
    let base = build_function_signature(table, func);
    let mut type_params: Vec<String> = Vec::new();
    push_type_param_names(&mut type_params, class_type_params);
    push_type_param_names(&mut type_params, &func.type_params);
    proof {
        assert(Seq::<String>::empty().map_values(|t: String| t@) =~= Seq::<Seq<char>>::empty());
        assert(Seq::<Seq<char>>::empty() + type_param_names(class_type_params@) =~= type_param_names(class_type_params@));
    }
    IrFunctionSignature {
        parameters: base.parameters,
        return_type: base.return_type,
        calling_convention: base.calling_convention,
        can_throw: base.can_throw,
        type_params,
    }
}

/// The implicit first parameter of an instance method.
pub open spec fn is_this_param(p: IrParameter) -> bool {
    &&& p.name@ == "this"@
    &&& p.ty@ == void_ptr()
    &&& p.reg == IrId(0)
    &&& !p.by_ref
}

/// `f` is the function that registering method `func` of a class with type
/// parameters `class_tps` creates under `symbol_id` with id `id`: its
/// parameters in the first registers, an implicit `this` first when
/// `this_type` is given.
pub open spec fn is_registered_method(
    f: crate::functions::IrFunction,
    id: IrFunctionId,
    symbol_id: SymbolId,
    types: Seq<(TypeId, TypeKind)>,
    func: HirFunction,
    this_type: Option<TypeId>,
    class_tps: Seq<HirTypeParam>,
) -> bool {
    let sig = f.signature;
    let off: int = if this_type is Some { 1 } else { 0 };
    &&& f.id == id
    &&& f.symbol_id == symbol_id
    &&& f.name@ == function_name(func, symbol_id)
    &&& sig.type_params@.map_values(|t: String| t@) == type_param_names(class_tps) + type_param_names(func.type_params@)
    &&& sig.parameters@.len() == func.params@.len() + off
    &&& this_type is Some ==> {
        &&& sig.parameters@[0].name@ == "this"@
        &&& sig.parameters@[0].ty@ == void_ptr()
        &&& sig.parameters@[0].reg == IrId(0)
        &&& !sig.parameters@[0].by_ref
    }
    &&& forall|i: int| 0 <= i < func.params@.len() ==> {
        let p = #[trigger] sig.parameters@[i + off];
        &&& p.name@ == func.params@[i].name@
        &&& p.ty@ == conversion(types, func.params@[i].ty)
        &&& p.reg == IrId((i + off) as u32)
        &&& !p.by_ref
    }
    &&& sig.return_type@ == conversion(types, func.return_type)
    &&& sig.calling_convention == if func.is_extern { CallingConvention::C } else { CallingConvention::Haxe }
    &&& !sig.can_throw
    &&& f.cfg.blocks@.len() == 1
}

impl HirToMirContext {
    /// Registers method (or function) `func` of a class with type
    /// parameters `class_type_params` under `symbol_id`, without lowering
    /// its body: an instance method (`this_type` given) gets an implicit
    /// `this` pointer first. The new function is recorded in the function
    /// map, and no function is left being built.
    pub fn register_function_signature_with_class_type_params(
        &mut self,
        table: &TypeTable,
        symbol_id: SymbolId,
        hir_func: &HirFunction,
        this_type: Option<TypeId>,
        class_type_params: &Vec<HirTypeParam>,
    )
        requires
            old(self).builder.the_module().next_function_id < u32::MAX,
            hir_func.params@.len() + 1 < u32::MAX,
            signature_converts(table.types@, *hir_func),
        ensures
            ({
                let m0 = old(self).builder.the_module();
                let m1 = final(self).builder.the_module();
                let id = IrFunctionId(m0.next_function_id);
                &&& m1 == (IrModule { functions: m1.functions, next_function_id: m1.next_function_id, ..m0 })
                &&& m1.next_function_id == m0.next_function_id + 1
                &&& m1.functions@.len() == m0.functions@.len() + 1
                &&& m1.functions@.drop_last() == m0.functions@
                &&& is_registered_method(m1.functions@.last(), id, symbol_id, table.types@, *hir_func, this_type, class_type_params@)
                &&& m0.wf() ==> m1.wf()
                &&& final(self).builder.cur_fn() is None
                &&& final(self).builder.cur_block() is None
                &&& final(self).builder.source_location() == old(self).builder.source_location()
                &&& forall|s: SymbolId|
                    #[trigger] crate::type_metadata::map_get(final(self).function_map@, s) == if s == symbol_id {
                        Some(id)
                    } else {
                        crate::type_metadata::map_get(old(self).function_map@, s)
                    }
                &&& *final(self) == (HirToMirContext {
                    builder: final(self).builder,
                    function_map: final(self).function_map,
                    ..*old(self)
                })
            }),
    {
        let mut signature = build_function_signature_with_class_type_params(table, hir_func, class_type_params);
        let ghost base = signature;
        if this_type.is_some() {
            signature.parameters.insert(
                0,
                IrParameter { name: "this".to_owned(), ty: void_ptr_type(), reg: IrId::new(0), by_ref: false },
            );
        }
        let name = function_name_of(hir_func, symbol_id);
        let func_id = self.builder.start_function(symbol_id, name, signature);
        crate::type_metadata::insert_function(&mut self.function_map, symbol_id, func_id);
        self.builder.finish_function();
        proof {
            let f = self.builder.the_module().functions@.last();
            let off: int = if this_type is Some { 1 } else { 0 };
            assert forall|i: int| 0 <= i < hir_func.params@.len() implies {
                let p = #[trigger] f.signature.parameters@[i + off];
                &&& p.name@ == hir_func.params@[i].name@
                &&& p.ty@ == conversion(table.types@, hir_func.params@[i].ty)
                &&& p.reg == IrId((i + off) as u32)
                &&& !p.by_ref
            } by {
                assert(signature.parameters@[i + off] == base.parameters@[i]);
            }
        }
    }
}

/// The function `sym` names in `map`, by the first entry for it.
pub(crate) fn lookup_function(map: &Vec<(SymbolId, IrFunctionId)>, sym: SymbolId) -> (r: Option<IrFunctionId>)
    ensures
        r == fn_of(map@, sym),
{
    let ghost p = fn_entry(sym);
    let mut i: usize = 0;
    while i < map.len()
        invariant
            i <= map@.len(),
            p == fn_entry(sym),
            forall|k: int| 0 <= k < i ==> !p(#[trigger] map@[k]),
        decreases map@.len() - i,
    {
        if map[i].0 == sym {
            proof { lemma_first_where(map@, p, i as int); }
            return Some(map[i].1);
        }
        i = i + 1;
    }
    proof { lemma_first_where_none(map@, p); }
    None
}

/// The register `sym` is held in, by the first entry for it.
fn lookup_register(map: &Vec<(SymbolId, IrId)>, sym: SymbolId) -> (r: Option<IrId>)
    ensures
        r == reg_of(map@, sym),
{
    let ghost p = reg_entry(sym);
    let mut i: usize = 0;
    while i < map.len()
        invariant
            i <= map@.len(),
            p == reg_entry(sym),
            forall|k: int| 0 <= k < i ==> !p(#[trigger] map@[k]),
        decreases map@.len() - i,
    {
        if map[i].0 == sym {
            proof { lemma_first_where(map@, p, i as int); }
            return Some(map[i].1);
        }
        i = i + 1;
    }
    proof { lemma_first_where_none(map@, p); }
    None
}

} // verus!
