//! Lowering function bodies to SSA form: expressions to instructions,
//! statements to blocks, loops to headers whose phi nodes carry the
//! variables the loop uses.
//!
//! Each lowering function is specified by a relation between the lowering
//! state before and after, which says, kind by kind, what is emitted and in
//! which order: the sub-expressions first, then the instruction of the node.
//! The relations name the intermediate states; lowering gives up with
//! `None` when the register or block counter of the function is about to
//! run out.

use vstd::prelude::*;
use crate::builder::{emits, terminates, IrBuilder};
use crate::hir::{HirBinaryOp, HirExpr, HirExprKind, HirLiteral, HirUnaryOp, TypeId, TypeKind, TypeTable};
use crate::ids::{IrFunctionId, IrId};
use crate::statements::{expr_size, exprs_size, lemma_exprs_size, seen};
use crate::instructions::IrInstruction;
use crate::lowering::{
    conversion, convert_binary_op_to_mir, convert_type, convert_unary_op, converts, fn_of, mir_binary_op, HirToMirContext,
    MirBinaryOp,
};
use crate::module::{pool_has, IrModule};
use crate::type_metadata::{insert_by_symbol, map_get};
use crate::types::{BinaryOp, IrSourceLocation, IrType, IrValue, TypeModel, UnaryOp};

verus! {

// ---------------------------------------------------------------------------
// Steps of lowering
// ---------------------------------------------------------------------------

/// Every type of the table converts (no type is defined through itself).
pub open spec fn table_converts(types: Seq<(TypeId, TypeKind)>) -> bool {
    forall|id: TypeId| converts(types, id)
}

/// Only the builder differs between `a` and `b`.
pub open spec fn keeps(a: HirToMirContext, b: HirToMirContext) -> bool {
    b == (HirToMirContext { builder: b.builder, ..a })
}

/// `b` is `a` after the builder emitted `mk(dest)`, giving `r`.
pub open spec fn step(a: HirToMirContext, b: HirToMirContext, r: Option<IrId>, mk: spec_fn(IrId) -> IrInstruction) -> bool {
    keeps(a, b) && emits(a.builder, b.builder, r, mk)
}

/// Lowering gave up: nothing changed and nothing came back.
pub open spec fn stop(a: HirToMirContext, b: HirToMirContext, r: Option<IrId>) -> bool {
    r is None && b == a
}

/// Names an intermediate state and value (a trigger for the relations).
pub open spec fn at(m: HirToMirContext, x: Option<IrId>) -> bool {
    true
}

/// Names two intermediate states and values.
pub open spec fn at2(m1: HirToMirContext, x: Option<IrId>, m2: HirToMirContext, y: Option<IrId>) -> bool {
    true
}

/// Names an IR type.
pub open spec fn at_ty(t: IrType) -> bool {
    true
}

/// The function being built can take a few more registers and blocks.
pub open spec fn room(c: HirToMirContext) -> bool {
    &&& c.builder.has_fn() ==> c.builder.func().next_reg_id + 4 <= u32::MAX
    &&& c.builder.has_fn() ==> c.builder.func().cfg.next_block_id + 4 <= u32::MAX
    &&& c.builder.the_module().string_pool.strings@.len() < u32::MAX
}

/// `b` has the loops of `a` on its stack, and builds a block if `a` did:
/// what every lowering of an expression or a statement keeps.
pub open spec fn frame_kept(a: HirToMirContext, b: HirToMirContext) -> bool {
    &&& b.loop_stack@ == a.loop_stack@
    &&& a.builder.cur_block() is Some ==> b.builder.cur_block() is Some
}

/// `b` is `a` with error `msg` (without location) recorded.
pub open spec fn error_added(a: HirToMirContext, b: HirToMirContext, msg: Seq<char>) -> bool {
    &&& b == (HirToMirContext { errors: b.errors, ..a })
    &&& b.errors@.len() == a.errors@.len() + 1
    &&& b.errors@.drop_last() == a.errors@
    &&& b.errors@.last().message@ == msg
    &&& b.errors@.last().location == IrSourceLocation::unknown_spec()
}

/// `b` is `a` with variable `sym` now held in register `reg`.
pub open spec fn rebound(a: HirToMirContext, b: HirToMirContext, sym: crate::ids::SymbolId, reg: IrId) -> bool {
    &&& b == (HirToMirContext { symbol_map: b.symbol_map, ..a })
    &&& forall|s: crate::ids::SymbolId|
        #[trigger] map_get(b.symbol_map@, s) == if s == sym {
            Some(reg)
        } else {
            map_get(a.symbol_map@, s)
        }
}

// ---------------------------------------------------------------------------
// What lowering an expression does
// ---------------------------------------------------------------------------

/// The constant an integer literal of type `t` becomes: the value
/// truncated to an integer type, nothing for other types.
pub open spec fn int_const(value: i64, t: TypeModel) -> Option<IrValue> {
    match t {
        TypeModel::I8 => Some(IrValue::I8(value as i8)),
        TypeModel::I16 => Some(IrValue::I16(value as i16)),
        TypeModel::I32 => Some(IrValue::I32(value as i32)),
        TypeModel::I64 => Some(IrValue::I64(value)),
        TypeModel::U8 => Some(IrValue::U8(value as u8)),
        TypeModel::U16 => Some(IrValue::U16(value as u16)),
        TypeModel::U32 => Some(IrValue::U32(value as u32)),
        TypeModel::U64 => Some(IrValue::U64(value as u64)),
        _ => None,
    }
}

proof fn lemma_int_const(value: i64, t: IrType)
    ensures
        crate::builder::int_value(value, t) == int_const(value, t@),
{
}

/// An integer type.
pub open spec fn is_int_model(t: TypeModel) -> bool {
    t is I8 || t is I16 || t is I32 || t is I64 || t is U8 || t is U16 || t is U32 || t is U64
}

/// `b` is `a` after a string constant `s` was made: `s` pooled, then the
/// constant emitted.
pub open spec fn string_step(a: HirToMirContext, b: HirToMirContext, r: Option<IrId>, s: String) -> bool {
    &&& keeps(a, b)
    &&& exists|mid: IrBuilder|
        {
            &&& crate::builder::same_context(a.builder, mid)
            &&& #[trigger] mid.the_module() == (IrModule { string_pool: mid.the_module().string_pool, ..a.builder.the_module() })
            &&& crate::builder::pool_added(a.builder.the_module().string_pool, mid.the_module().string_pool, s)
            &&& emits(mid, b.builder, r, |d: IrId| IrInstruction::Const { dest: d, value: IrValue::String(s) })
        }
}

/// What lowering a literal of type `ty` does.
pub open spec fn literal_lowered(
    types: Seq<(TypeId, TypeKind)>,
    a: HirToMirContext,
    b: HirToMirContext,
    lit: HirLiteral,
    ty: TypeId,
    r: Option<IrId>,
) -> bool {
    match lit {
        HirLiteral::Regex => r is None && error_added(a, b, "Regex literals not yet supported in MIR"@),
        _ => if !room(a) {
            stop(a, b, r)
        } else {
            match lit {
                HirLiteral::Int(i) => match int_const(i, conversion(types, ty)) {
                    Some(v) => step(a, b, r, |d: IrId| IrInstruction::Const { dest: d, value: v }),
                    None => stop(a, b, r),
                },
                HirLiteral::Bool(v) => step(a, b, r, |d: IrId| IrInstruction::Const { dest: d, value: IrValue::Bool(v) }),
                HirLiteral::String(s) => string_step(a, b, r, s),
                HirLiteral::Regex => false,
            }
        },
    }
}

/// An increment or decrement.
pub open spec fn is_step_op(op: HirUnaryOp) -> bool {
    op is PreIncr || op is PreDecr || op is PostIncr || op is PostDecr
}

/// What the unary operator `op` does to the operand's value `v`, once the
/// operand is lowered: an increment or decrement adds or subtracts a
/// constant 1, rebinds the variable it was applied to and gives the old
/// value (post) or the new one (pre); any other operator is one `UnOp`.
pub open spec fn unary_lowered(
    m: HirToMirContext,
    b: HirToMirContext,
    op: HirUnaryOp,
    operand: HirExprKind,
    v: IrId,
    r: Option<IrId>,
) -> bool {
    if !room(m) {
        stop(m, b, r)
    } else if is_step_op(op) {
        exists|m2: HirToMirContext, one: Option<IrId>, m3: HirToMirContext, nv: Option<IrId>|
            #![trigger at2(m2, one, m3, nv)]
            step(m, m2, one, |d: IrId| IrInstruction::Const { dest: d, value: IrValue::I32(1) }) && match one {
                None => stop(m2, b, r),
                Some(o) => step(
                    m2,
                    m3,
                    nv,
                    |d: IrId|
                        IrInstruction::BinOp {
                            dest: d,
                            op: if op is PreIncr || op is PostIncr {
                                BinaryOp::Add
                            } else {
                                BinaryOp::Sub
                            },
                            left: v,
                            right: o,
                        },
                ) && match nv {
                    None => stop(m3, b, r),
                    Some(n) => {
                        &&& r == Some(if op is PostIncr || op is PostDecr { v } else { n })
                        &&& match operand {
                            HirExprKind::Variable { symbol } => rebound(m3, b, symbol, n),
                            _ => b == m3,
                        }
                    },
                },
            }
    } else {
        step(
            m,
            b,
            r,
            |d: IrId|
                IrInstruction::UnOp {
                    dest: d,
                    op: if op is Not || op is BitNot {
                        UnaryOp::Not
                    } else {
                        UnaryOp::Neg
                    },
                    operand: v,
                },
        )
    }
}

/// Converting an integer operand of a division to `F64`: a `Cast` for an
/// integer type, the operand itself otherwise.
pub open spec fn division_cast(
    types: Seq<(TypeId, TypeKind)>,
    a: HirToMirContext,
    b: HirToMirContext,
    src: IrId,
    ty: TypeId,
    out: Option<IrId>,
) -> bool {
    if is_int_model(conversion(types, ty)) {
        exists|ft: IrType|
            #![trigger at_ty(ft)]
            ft@ == conversion(types, ty) && step(
                a,
                b,
                out,
                |d: IrId| IrInstruction::Cast { dest: d, src, from_ty: ft, to_ty: IrType::F64 },
            )
    } else {
        b == a && out == Some(src)
    }
}

/// The instruction a binary operator becomes on operands `l` and `rv`.
pub open spec fn binary_inst(op: HirBinaryOp, l: IrId, rv: IrId) -> spec_fn(IrId) -> IrInstruction {
    match mir_binary_op(op) {
        MirBinaryOp::Binary(bop) => |d: IrId| IrInstruction::BinOp { dest: d, op: bop, left: l, right: rv },
        MirBinaryOp::Compare(cop) => |d: IrId| IrInstruction::Cmp { dest: d, op: cop, left: l, right: rv },
    }
}

/// What a (non-logical) binary operator does to the operands' values, once
/// both are lowered: a division first converts integer operands to `F64`;
/// then one `BinOp` or `Cmp`.
pub open spec fn binary_lowered(
    types: Seq<(TypeId, TypeKind)>,
    m: HirToMirContext,
    b: HirToMirContext,
    op: HirBinaryOp,
    lt: TypeId,
    rt: TypeId,
    l: IrId,
    rv: IrId,
    r: Option<IrId>,
) -> bool {
    if !room(m) {
        stop(m, b, r)
    } else if op is Div {
        exists|m1: HirToMirContext, x: Option<IrId>, m2: HirToMirContext, y: Option<IrId>|
            #![trigger at2(m1, x, m2, y)]
            division_cast(types, m, m1, l, lt, x) && match x {
                None => stop(m1, b, r),
                Some(l2) => division_cast(types, m1, m2, rv, rt, y) && match y {
                    None => stop(m2, b, r),
                    Some(r2) => step(m2, b, r, binary_inst(op, l2, r2)),
                },
            }
    } else {
        step(m, b, r, binary_inst(op, l, rv))
    }
}

/// What lowering expression `e` does, from state `a` to state `b`, giving
/// `r`. Sub-expressions are lowered left to right; when one gives nothing,
/// so does `e`, and nothing after it is emitted.
pub open spec fn expr_lowered(
    types: Seq<(TypeId, TypeKind)>,
    a: HirToMirContext,
    b: HirToMirContext,
    e: HirExpr,
    r: Option<IrId>,
) -> bool
    decreases expr_size(e),
{
    match e.kind {
        HirExprKind::Literal(lit) => literal_lowered(types, a, b, lit, e.ty, r),
        HirExprKind::Null => if room(a) {
            step(a, b, r, |d: IrId| IrInstruction::Const { dest: d, value: IrValue::Null })
        } else {
            stop(a, b, r)
        },
        HirExprKind::Variable { symbol } => b == a && r == map_get(a.symbol_map@, symbol),
        HirExprKind::Unary { op, operand } => exists|m: HirToMirContext, x: Option<IrId>|
            #![trigger at(m, x)]
            expr_lowered(types, a, m, *operand, x) && match x {
                None => stop(m, b, r),
                Some(v) => unary_lowered(m, b, op, operand.kind, v, r),
            },
        HirExprKind::Binary { op, lhs, rhs } => if op is And || op is Or {
            crate::conditional::logic_lowered(types, a, b, op is And, *lhs, *rhs, r)
        } else {
            exists|m1: HirToMirContext, x: Option<IrId>, m2: HirToMirContext, y: Option<IrId>|
            #![trigger at2(m1, x, m2, y)]
            expr_lowered(types, a, m1, *lhs, x) && match x {
                None => stop(m1, b, r),
                Some(l) => expr_lowered(types, m1, m2, *rhs, y) && match y {
                    None => stop(m2, b, r),
                    Some(rv) => binary_lowered(types, m2, b, op, lhs.ty, rhs.ty, l, rv, r),
                },
            }
        },
        HirExprKind::Call { callee, args } => exists|w: (HirToMirContext, Seq<IrId>, Vec<IrId>, HirToMirContext, Option<IrId>)|
            #![trigger seen(w)]
            args_lowered(types, a, w.0, args@, w.1) && w.2@ == w.1 && match call_target(a, callee.kind) {
                Some(fid) => if room(w.0) {
                    step(w.0, b, r, |d: IrId| IrInstruction::CallDirect { dest: Some(d), func_id: fid, args: w.2 })
                } else {
                    stop(w.0, b, r)
                },
                None => expr_lowered(types, w.0, w.3, *callee, w.4) && match w.4 {
                    None => stop(w.3, b, r),
                    Some(p) => if room(w.3) {
                        step(w.3, b, r, |d: IrId| IrInstruction::CallIndirect { dest: Some(d), func_ptr: p, args: w.2 })
                    } else {
                        stop(w.3, b, r)
                    },
                },
            },
        HirExprKind::Block(blk) => r is None && crate::statements::block_lowered(types, a, b, blk),
        HirExprKind::Cast { expr, target } => exists|w: (HirToMirContext, Option<IrId>, IrType, IrType)|
            #![trigger seen(w)]
            expr_lowered(types, a, w.0, *expr, w.1) && match w.1 {
                None => stop(w.0, b, r),
                Some(v) => if room(w.0) {
                    &&& w.2@ == conversion(types, expr.ty)
                    &&& w.3@ == conversion(types, target)
                    &&& step(w.0, b, r, |d: IrId| IrInstruction::Cast { dest: d, src: v, from_ty: w.2, to_ty: w.3 })
                } else {
                    stop(w.0, b, r)
                },
            },
        HirExprKind::If { condition, then_expr, else_expr } => crate::conditional::cond_lowered(
            types,
            a,
            b,
            *condition,
            *then_expr,
            *else_expr,
            r,
        ),
        HirExprKind::Field { object, field } => exists|w: (HirToMirContext, Option<IrId>)|
            #![trigger seen(w)]
            expr_lowered(types, a, w.0, *object, w.1) && match w.1 {
                None => stop(w.0, b, r),
                Some(o) => crate::field_access::field_read(types, w.0, b, o, field, e.ty, r),
            },
    }
}

/// The function a call of `callee` goes to directly: the one a variable
/// names, in this module or a module lowered before.
pub open spec fn call_target(a: HirToMirContext, callee: HirExprKind) -> Option<IrFunctionId> {
    match callee {
        HirExprKind::Variable { symbol } => match fn_of(a.function_map@, symbol) {
            Some(f) => Some(f),
            None => fn_of(a.external_function_map@, symbol),
        },
        _ => None,
    }
}

/// Lowering the arguments `es` of a call, in order; `regs` are the values
/// of those that gave one.
pub open spec fn args_lowered(
    types: Seq<(TypeId, TypeKind)>,
    a: HirToMirContext,
    b: HirToMirContext,
    es: Seq<HirExpr>,
    regs: Seq<IrId>,
) -> bool
    decreases exprs_size(es),
{
    if es.len() == 0 {
        b == a && regs.len() == 0
    } else {
        exists|w: (HirToMirContext, Option<IrId>, Seq<IrId>)|
            #![trigger seen(w)]
            {
                &&& args_lowered(types, a, w.0, es.drop_last(), w.2)
                &&& expr_lowered(types, w.0, b, es.last(), w.1)
                &&& regs == match w.1 {
                    Some(v) => w.2.push(v),
                    None => w.2,
                }
            }
    }
}

impl HirToMirContext {
    /// Whether the function being built can take a few more registers and
    /// blocks.
    pub fn has_room(&self) -> (r: bool)
        ensures
            r == room(*self),
    {
        let pool_ok = self.builder.module.string_pool.strings.len() < 4294967295usize;
        match self.builder.current_function() {
            Some(f) => pool_ok && f.next_reg_id <= 4294967291u32 && f.cfg.next_block_id <= 4294967291u32,
            None => pool_ok,
        }
    }

    pub(crate) fn emit_error(&mut self, msg: &str)
        ensures
            crate::body_lowering::frame_kept(*old(self), *final(self)),
            error_added(*old(self), *final(self), msg@),
    {
        self.add_error(msg, IrSourceLocation::unknown());
    }

    /// Lowers a literal of type `ty`.
    pub fn lower_literal(&mut self, table: &TypeTable, lit: &HirLiteral, ty: TypeId) -> (r: Option<IrId>)
        requires
            table_converts(table.types@),
        ensures
            crate::body_lowering::frame_kept(*old(self), *final(self)),
            literal_lowered(table.types@, *old(self), *final(self), *lit, ty, r),
    {
        if let HirLiteral::Regex = lit {
            self.emit_error("Regex literals not yet supported in MIR");
            return None;
        }
        if !self.has_room() {
            return None;
        }
        match lit {
            HirLiteral::Int(i) => {
                proof { assert(converts(table.types@, ty)); }
                let ir_type = convert_type(table, ty);
                proof { lemma_int_const(*i, ir_type); }
                self.builder.build_int(*i, ir_type)
            },
            HirLiteral::Bool(v) => self.builder.build_bool(*v),
            HirLiteral::String(s) => self.builder.build_string(s.clone()),
            HirLiteral::Regex => None,
        }
    }

    fn lower_unary_op(&mut self, op: HirUnaryOp, operand: &HirExprKind, v: IrId) -> (r: Option<IrId>)
        ensures
            crate::body_lowering::frame_kept(*old(self), *final(self)),
            unary_lowered(*old(self), *final(self), op, *operand, v, r),
    {
        if !self.has_room() {
            return None;
        }
        let ghost m = *self;
        match op {
            HirUnaryOp::PreIncr | HirUnaryOp::PreDecr | HirUnaryOp::PostIncr | HirUnaryOp::PostDecr => {
                let one = self.builder.build_const(IrValue::I32(1));
                let ghost m2 = *self;
                let o = match one {
                    Some(o) => o,
                    None => {
                        proof { assert(at2(m2, one, m2, None)); }
                        return None;
                    },
                };
                let is_increment = match op {
                    HirUnaryOp::PreIncr | HirUnaryOp::PostIncr => true,
                    _ => false,
                };
                let bop = if is_increment { BinaryOp::Add } else { BinaryOp::Sub };
                let nv = self.builder.build_binop(bop, v, o);
                let ghost m3 = *self;
                let n = match nv {
                    Some(n) => n,
                    None => {
                        proof { assert(at2(m2, one, m3, nv)); }
                        return None;
                    },
                };
                if let HirExprKind::Variable { symbol } = operand {
                    insert_by_symbol(&mut self.symbol_map, *symbol, n);
                }
                proof { assert(at2(m2, one, m3, nv)); }
                match op {
                    HirUnaryOp::PostIncr | HirUnaryOp::PostDecr => Some(v),
                    _ => Some(n),
                }
            },
            _ => self.builder.build_unop(convert_unary_op(op), v),
        }
    }

    fn division_operand(&mut self, table: &TypeTable, src: IrId, ty: TypeId) -> (out: Option<IrId>)
        requires
            table_converts(table.types@),
            old(self).builder.has_fn() ==> old(self).builder.func().next_reg_id < u32::MAX,
        ensures
            crate::body_lowering::frame_kept(*old(self), *final(self)),
            division_cast(table.types@, *old(self), *final(self), src, ty, out),
    {
        proof { assert(converts(table.types@, ty)); }
        let t = convert_type(table, ty);
        let is_int = match t {
            IrType::I8 | IrType::I16 | IrType::I32 | IrType::I64 | IrType::U8 | IrType::U16 | IrType::U32
            | IrType::U64 => true,
            _ => false,
        };
        if is_int {
            let ghost ft = t;
            let r = self.builder.build_cast(src, t, IrType::F64);
            proof { assert(at_ty(ft)); }
            r
        } else {
            Some(src)
        }
    }

    fn lower_binary_op(
        &mut self,
        table: &TypeTable,
        op: HirBinaryOp,
        lt: TypeId,
        rt: TypeId,
        l: IrId,
        rv: IrId,
    ) -> (r: Option<IrId>)
        requires
            table_converts(table.types@),
        ensures
            crate::body_lowering::frame_kept(*old(self), *final(self)),
            binary_lowered(table.types@, *old(self), *final(self), op, lt, rt, l, rv, r),
    {
        if !self.has_room() {
            return None;
        }
        let mut left = l;
        let mut right = rv;
        if let HirBinaryOp::Div = op {
            let ghost m = *self;
            let x = self.division_operand(table, l, lt);
            let ghost m1 = *self;
            left = match x {
                Some(v) => v,
                None => {
                    proof { assert(at2(m1, x, m1, None)); }
                    return None;
                },
            };
            let y = self.division_operand(table, rv, rt);
            let ghost m2 = *self;
            right = match y {
                Some(v) => v,
                None => {
                    proof { assert(at2(m1, x, m2, y)); }
                    return None;
                },
            };
            let res = match convert_binary_op_to_mir(op) {
                MirBinaryOp::Binary(bop) => self.builder.build_binop(bop, left, right),
                MirBinaryOp::Compare(cop) => self.builder.build_cmp(cop, left, right),
            };
            proof { assert(at2(m1, x, m2, y)); }
            return res;
        }
        match convert_binary_op_to_mir(op) {
            MirBinaryOp::Binary(bop) => self.builder.build_binop(bop, left, right),
            MirBinaryOp::Compare(cop) => self.builder.build_cmp(cop, left, right),
        }
    }

    /// Lowers expression `expr`, giving the register that holds its value.
    pub fn lower_expression(&mut self, table: &TypeTable, expr: &HirExpr) -> (r: Option<IrId>)
        requires
            table_converts(table.types@),
        ensures
            crate::body_lowering::frame_kept(*old(self), *final(self)),
            expr_lowered(table.types@, *old(self), *final(self), *expr, r),
        decreases expr_size(*expr),
    {
        let ghost a = *self;
        match &expr.kind {
            HirExprKind::Literal(lit) => self.lower_literal(table, lit, expr.ty),
            HirExprKind::Null => {
                if !self.has_room() {
                    return None;
                }
                self.builder.build_null()
            },
            HirExprKind::Variable { symbol } => crate::type_metadata::lookup_symbol(&self.symbol_map, *symbol),
            HirExprKind::Unary { op, operand } => {
                let x = self.lower_expression(table, operand);
                let ghost m = *self;
                proof { assert(at(m, x)); }
                match x {
                    None => None,
                    Some(v) => self.lower_unary_op(*op, &operand.kind, v),
                }
            },
            HirExprKind::Binary { op, lhs, rhs } => {
                match op {
                    HirBinaryOp::And => return self.lower_logical(table, true, lhs, rhs),
                    HirBinaryOp::Or => return self.lower_logical(table, false, lhs, rhs),
                    _ => {},
                }
                let x = self.lower_expression(table, lhs);
                let ghost m1 = *self;
                let l = match x {
                    None => {
                        proof { assert(at2(m1, x, m1, None)); }
                        return None;
                    },
                    Some(l) => l,
                };
                let y = self.lower_expression(table, rhs);
                let ghost m2 = *self;
                proof { assert(at2(m1, x, m2, y)); }
                match y {
                    None => None,
                    Some(rv) => self.lower_binary_op(table, *op, lhs.ty, rhs.ty, l, rv),
                }
            },
            HirExprKind::Call { callee, args } => {
                let target = match &callee.kind {
                    HirExprKind::Variable { symbol } => self.get_function_id(*symbol),
                    _ => None,
                };
                let mut regs: Vec<IrId> = Vec::new();
                let mut i: usize = 0;
                while i < args.len()
                    invariant
                        i <= args@.len(),
                        table_converts(table.types@),
                        args_lowered(table.types@, a, *self, args@.take(i as int), regs@),
                        frame_kept(a, *self),
                        a == *old(self),
                        expr.kind is Call,
                        expr.kind->Call_args == *args,
                        target == call_target(a, callee.kind),
                    decreases args@.len() - i,
                {
                    let ghost m = *self;
                    let ghost before = regs@;
                    proof {
                        assert(args@.take(i + 1).drop_last() =~= args@.take(i as int));
                        assert(args@.take(i + 1).last() == args@[i as int]);
                        lemma_exprs_size(args@, i as int);
                    }
                    let x = self.lower_expression(table, &args[i]);
                    if let Some(v) = x {
                        regs.push(v);
                    }
                    proof {
                        assert(seen((m, x, before)));
                    }
                    i = i + 1;
                }
                proof {
                    assert(args@.take(args@.len() as int) =~= args@);
                }
                let ghost m0 = *self;
                let ghost gregs = regs;
                match target {
                    Some(fid) => {
                        proof {
                            assert(seen((m0, regs@, gregs, m0, None::<IrId>)));
                        }
                        if !self.has_room() {
                            return None;
                        }
                        self.builder.build_call_direct(fid, regs, IrType::Void)
                    },
                    None => {
                        let p = self.lower_expression(table, callee);
                        let ghost m3 = *self;
                        proof {
                            assert(seen((m0, regs@, gregs, m3, p)));
                        }
                        let fp = match p {
                            Some(fp) => fp,
                            None => return None,
                        };
                        if !self.has_room() {
                            return None;
                        }
                        self.builder.build_call_indirect(fp, regs, IrType::Void)
                    },
                }
            },
            HirExprKind::Block(blk) => {
                self.lower_block(table, blk);
                None
            },
            HirExprKind::Cast { expr: inner, target } => {
                let x = self.lower_expression(table, inner);
                let ghost m = *self;
                let v = match x {
                    Some(v) => v,
                    None => {
                        proof {
                            assert(seen((m, x, IrType::Void, IrType::Void)));
                        }
                        return None;
                    },
                };
                if !self.has_room() {
                    proof {
                        assert(seen((m, x, IrType::Void, IrType::Void)));
                    }
                    return None;
                }
                proof {
                    assert(converts(table.types@, inner.ty));
                    assert(converts(table.types@, *target));
                }
                let from_ty = convert_type(table, inner.ty);
                let to_ty = convert_type(table, *target);
                let ghost gf = from_ty;
                let ghost gt = to_ty;
                let r = self.builder.build_cast(v, from_ty, to_ty);
                proof {
                    assert(seen((m, x, gf, gt)));
                }
                r
            },
            HirExprKind::If { condition, then_expr, else_expr } => self.lower_conditional(
                table,
                condition,
                then_expr,
                else_expr,
            ),
            HirExprKind::Field { object, field } => {
                let x = self.lower_expression(table, object);
                let ghost m = *self;
                proof {
                    assert(seen((m, x)));
                }
                match x {
                    None => None,
                    Some(o) => self.lower_field_access(table, o, *field, object.ty, expr.ty),
                }
            },
        }
    }
}

} // verus!
