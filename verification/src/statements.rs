//! Lowering statements: assignments and declarations rebind variables to
//! registers, control flow becomes blocks, and the variables a loop uses
//! are carried around it by phi nodes.

use vstd::prelude::*;
use crate::body_lowering::{error_added, expr_lowered, keeps, rebound, room, step, stop, table_converts};
use crate::builder::{
    emits, fn_replaced, incoming_added, labelled_block_added, phi_added, same_context, same_module_but_fn, terminates, IrBuilder,
};
use crate::blocks::is_fresh_block;

use crate::functions::{IrFunction, IrLocal};
use crate::hir::{HirBinaryOp, HirBlock, HirExpr, HirExprKind, HirLValue, HirPattern, HirStatement, TypeId, TypeKind, TypeTable};
use crate::ids::{IrBlockId, IrId, SymbolId};
use crate::instructions::{IrInstruction, IrTerminator};
use crate::variable_uses::{expr_refs, grows_by, stmts_mods, stmts_refs};
use crate::lowering::{LoopContext, incoming_chain, incomings_added, break_lowered, continue_lowered, find_loop_context, loop_target, conversion, convert_binary_op, convert_type, converts, mir_binary_op, HirToMirContext, MirBinaryOp};
use crate::text::{decimal, push_decimal};
use crate::type_metadata::{insert_by_symbol, lookup_symbol, map_get};
use crate::types::{BinaryOp, IrSourceLocation, IrType, TypeModel};

verus! {

// ---------------------------------------------------------------------------
// Sizes of bodies (what lowering recurses on)
// ---------------------------------------------------------------------------

/// The size of an expression: its nodes, blocks included.
pub open spec fn expr_size(e: HirExpr) -> nat
    decreases e,
{
    match e.kind {
        HirExprKind::Binary { lhs, rhs, .. } => 1 + expr_size(*lhs) + expr_size(*rhs),
        HirExprKind::Unary { operand, .. } => 1 + expr_size(*operand),
        HirExprKind::Call { callee, args } => 1 + expr_size(*callee) + exprs_size(args@),
        HirExprKind::Block(blk) => 1 + block_size(blk),
        HirExprKind::Field { object, .. } => 1 + expr_size(*object),
        HirExprKind::Cast { expr, .. } => 1 + expr_size(*expr),
        HirExprKind::If { condition, then_expr, else_expr } => 1 + expr_size(*condition) + expr_size(*then_expr)
            + expr_size(*else_expr),
        _ => 1,
    }
}

pub open spec fn exprs_size(es: Seq<HirExpr>) -> nat
    decreases es,
{
    if es.len() == 0 {
        0
    } else {
        1 + exprs_size(es.drop_last()) + expr_size(es.last())
    }
}

pub open spec fn block_size(blk: HirBlock) -> nat
    decreases blk,
{
    1 + stmts_size(blk.statements@) + match blk.expr {
        Some(e) => expr_size(*e),
        None => 0,
    }
}

pub open spec fn stmts_size(ss: Seq<HirStatement>) -> nat
    decreases ss,
{
    if ss.len() == 0 {
        0
    } else {
        1 + stmts_size(ss.drop_last()) + stmt_size(ss.last())
    }
}

pub open spec fn stmt_size(s: HirStatement) -> nat
    decreases s,
{
    1 + match s {
        HirStatement::Let { init, .. } => match init {
            Some(e) => expr_size(e),
            None => 0,
        },
        HirStatement::Expr(e) => expr_size(e),
        HirStatement::Assign { rhs, .. } => expr_size(rhs),
        HirStatement::Return(v) => match v {
            Some(e) => expr_size(e),
            None => 0,
        },
        HirStatement::If { condition, then_branch, else_branch } => expr_size(condition) + block_size(then_branch)
            + match else_branch {
            Some(eb) => block_size(eb),
            None => 0,
        },
        HirStatement::While { condition, body, .. } => expr_size(condition) + block_size(body),
        HirStatement::DoWhile { body, condition, .. } => expr_size(condition) + block_size(body),
        HirStatement::Label { block, .. } => block_size(block),
        _ => 0,
    }
}

/// An element of a list is no larger than the list.
pub proof fn lemma_exprs_size(es: Seq<HirExpr>, i: int)
    requires
        0 <= i < es.len(),
    ensures
        expr_size(es[i]) < exprs_size(es),
    decreases es.len(),
{
    if i < es.len() - 1 {
        lemma_exprs_size(es.drop_last(), i);
    }
}

/// A statement of a list is no larger than the list.
pub proof fn lemma_stmts_size(ss: Seq<HirStatement>, i: int)
    requires
        0 <= i < ss.len(),
    ensures
        stmt_size(ss[i]) < stmts_size(ss),
    decreases ss.len(),
{
    if i < ss.len() - 1 {
        lemma_stmts_size(ss.drop_last(), i);
    }
}

/// Names a witness of the relations below (a trigger).
pub open spec fn seen<A>(x: A) -> bool {
    true
}

/// The latest local recorded for register `r`.
pub open spec fn local_of(locals: Seq<(IrId, IrLocal)>, r: IrId) -> Option<IrLocal>
    decreases locals.len(),
{
    if locals.len() == 0 {
        None
    } else if locals.last().0 == r {
        Some(locals.last().1)
    } else {
        local_of(locals.drop_last(), r)
    }
}

/// The latest local recorded for register `r`.
pub fn find_local(locals: &Vec<(IrId, IrLocal)>, r: IrId) -> (l: Option<&IrLocal>)
    ensures
        match l {
            Some(x) => local_of(locals@, r) == Some(*x),
            None => local_of(locals@, r) is None,
        },
{
    let mut i: usize = locals.len();
    proof {
        assert(locals@.take(locals@.len() as int) =~= locals@);
    }
    while i > 0
        invariant
            i <= locals@.len(),
            local_of(locals@, r) == local_of(locals@.take(i as int), r),
        decreases i,
    {
        proof {
            assert(locals@.take(i as int).drop_last() =~= locals@.take(i - 1));
        }
        if locals[i - 1].0 == r {
            return Some(&locals[i - 1].1);
        }
        i = i - 1;
    }
    None
}

/// `b` is `a` with a local recorded, last, for register `reg` in the
/// function being built; nothing changes without one.
pub open spec fn local_pushed(
    a: IrBuilder,
    b: IrBuilder,
    reg: IrId,
    name: Seq<char>,
    ty: TypeModel,
    mutable: bool,
    loc: IrSourceLocation,
) -> bool {
    if a.has_fn() {
        let nf = b.the_module().functions@[a.fpos()];
        let e = nf.locals@.last();
        &&& fn_replaced(a, b, nf)
        &&& nf == (IrFunction { locals: nf.locals, ..a.func() })
        &&& nf.locals@.len() == a.func().locals@.len() + 1
        &&& nf.locals@.drop_last() == a.func().locals@
        &&& e.0 == reg
        &&& e.1.name@ == name
        &&& e.1.ty@ == ty
        &&& e.1.mutable == mutable
        &&& e.1.source_location == loc
    } else {
        b == a
    }
}

/// The type a variable's new register is recorded with: that of the local
/// of the register that held it before, else a pointer to `Void`.
pub open spec fn carried_type(c: HirToMirContext, old_reg: Option<IrId>) -> TypeModel {
    match old_reg {
        Some(r) => match local_of(c.builder.func().locals@, r) {
            Some(l) => l.ty@,
            None => crate::lowering::void_ptr(),
        },
        None => crate::lowering::void_ptr(),
    }
}

/// The name of the local a write to variable `sym` records for `v`.
pub open spec fn written_name(sym: SymbolId, v: IrId) -> Seq<char> {
    "var_"@ + decimal(sym.0 as nat) + "_v"@ + decimal(v.0 as nat)
}

/// What writing `v` to `lv` does: the variable is now held in `v`; when
/// `v` has no local yet, one is recorded, mutable, with the type of the
/// variable's previous register.
pub open spec fn lvalue_written(a: HirToMirContext, b: HirToMirContext, lv: HirLValue, v: IrId) -> bool {
    match lv {
        HirLValue::Variable(sym) => exists|m: HirToMirContext|
            #![trigger seen(m)]
            rebound(a, m, sym, v) && if a.builder.has_fn() && local_of(a.builder.func().locals@, v) is None {
                &&& b == (HirToMirContext { builder: b.builder, ..m })
                &&& local_pushed(
                    m.builder,
                    b.builder,
                    v,
                    written_name(sym, v),
                    carried_type(a, map_get(a.symbol_map@, sym)),
                    true,
                    IrSourceLocation::unknown_spec(),
                )
            } else {
                b == m
            },
    }
}

/// What binding `v` to pattern `p` does: a variable is rebound, each
/// element of a tuple is extracted and bound in turn; constructor and
/// array patterns are refused with an error.
pub open spec fn pattern_bound(a: HirToMirContext, b: HirToMirContext, p: HirPattern, v: IrId) -> bool
    decreases p,
{
    match p {
        HirPattern::Variable { symbol, .. } => rebound(a, b, symbol, v),
        HirPattern::Tuple(ps) => elems_bound(a, b, ps@, v),
        HirPattern::Constructor { .. } => error_added(a, b, "Constructor patterns not yet supported in MIR lowering"@),
        HirPattern::Array { .. } => error_added(a, b, "Array patterns not yet supported in MIR lowering"@),
        _ => b == a,
    }
}

/// Binding the elements of the tuple `v` to `ps`, in order: element `i`
/// is extracted, then bound to `ps[i]`.
pub open spec fn elems_bound(a: HirToMirContext, b: HirToMirContext, ps: Seq<HirPattern>, v: IrId) -> bool
    decreases ps,
{
    if ps.len() == 0 {
        b == a
    } else {
        exists|w: (HirToMirContext, Vec<u32>, HirToMirContext, Option<IrId>)|
            #![trigger seen(w)]
            elems_bound(a, w.0, ps.drop_last(), v) && if !room(w.0) {
                b == w.0
            } else {
                &&& w.1@ == seq![(ps.len() - 1) as u32]
                &&& step(w.0, w.2, w.3, |d: IrId| IrInstruction::ExtractValue { dest: d, aggregate: v, indices: w.1 })
                &&& match w.3 {
                    None => b == w.2,
                    Some(e) => pattern_bound(w.2, b, ps.last(), e),
                }
            }
    }
}

/// The type a declared variable's local gets: the declared (or initial)
/// type, converted.
pub open spec fn declared_bound(
    types: Seq<(TypeId, TypeKind)>,
    a: HirToMirContext,
    b: HirToMirContext,
    p: HirPattern,
    v: IrId,
    ty: TypeId,
    mutable: bool,
) -> bool {
    match p {
        HirPattern::Variable { symbol, name } => exists|m: HirToMirContext|
            #![trigger seen(m)]
            {
                &&& rebound(a, m, symbol, v)
                &&& b == (HirToMirContext { builder: b.builder, ..m })
                &&& local_pushed(
                    m.builder,
                    b.builder,
                    v,
                    name@,
                    conversion(types, ty),
                    mutable,
                    IrSourceLocation::unknown_spec(),
                )
            },
        _ => pattern_bound(a, b, p, v),
    }
}

/// `b` is `a` after the block being built got the terminator `term`.
pub open spec fn ended(a: HirToMirContext, b: HirToMirContext, term: IrTerminator) -> bool {
    &&& keeps(a, b)
    &&& terminates(a.builder, b.builder, if a.builder.has_block() { Some(()) } else { None }, term)
}

/// `b` is `a` with `blk` as the block being built.
pub open spec fn switched(a: HirToMirContext, b: HirToMirContext, blk: IrBlockId) -> bool {
    b == (HirToMirContext { builder: IrBuilder { current_block: Some(blk), ..a.builder }, ..a })
}

/// The arithmetic operator of a compound assignment.
pub open spec fn arith_op(op: HirBinaryOp) -> BinaryOp {
    match mir_binary_op(op) {
        MirBinaryOp::Binary(b) => b,
        MirBinaryOp::Compare(_) => BinaryOp::Add,
    }
}

/// The name of the local recorded for the result `d` of a compound
/// assignment.
pub open spec fn binop_name(d: IrId) -> Seq<char> {
    "_binop"@ + decimal(d.0 as nat)
}

/// What a compound assignment `lhs op= ...` does once the right side gave
/// `rv`: the variable's register and `rv` are combined, the result is
/// recorded as a local of the right side's type, then written to `lhs`.
pub open spec fn compound_assigned(
    types: Seq<(TypeId, TypeKind)>,
    m: HirToMirContext,
    b: HirToMirContext,
    lhs: HirLValue,
    op: HirBinaryOp,
    rty: TypeId,
    rv: IrId,
) -> bool {
    match lhs {
        HirLValue::Variable(sym) => match map_get(m.symbol_map@, sym) {
            None => b == m,
            Some(l) => if !room(m) {
                b == m
            } else {
                exists|w: (HirToMirContext, Option<IrId>, HirToMirContext)|
                    #![trigger seen(w)]
                    step(m, w.0, w.1, |d: IrId| IrInstruction::BinOp { dest: d, op: arith_op(op), left: l, right: rv })
                        && match w.1 {
                        None => b == w.0,
                        Some(d) => {
                            &&& keeps(w.0, w.2)
                            &&& local_pushed(
                                w.0.builder,
                                w.2.builder,
                                d,
                                binop_name(d),
                                conversion(types, rty),
                                false,
                                IrSourceLocation::unknown_spec(),
                            )
                            &&& lvalue_written(w.2, b, lhs, d)
                        },
                    }
            },
        },
    }
}

/// The label of the block a labelled statement opens.
pub open spec fn label_name(sym: SymbolId) -> Seq<char> {
    "label_"@ + decimal(sym.0 as nat)
}

/// The block being built already ends.
pub open spec fn is_ended(c: HirToMirContext) -> bool {
    c.builder.has_block() && !(c.builder.block().terminator is Unreachable)
}

/// `b` is `a` with the loop (`cont`, `brk`, `label`) pushed, with no exit
/// phis yet.
pub open spec fn loop_pushed(a: HirToMirContext, b: HirToMirContext, cont: IrBlockId, brk: IrBlockId, label: Option<SymbolId>) -> bool {
    let top = b.loop_stack@.last();
    &&& b == (HirToMirContext { loop_stack: b.loop_stack, ..a })
    &&& b.loop_stack@.len() == a.loop_stack@.len() + 1
    &&& b.loop_stack@.drop_last() == a.loop_stack@
    &&& top.continue_block == cont
    &&& top.break_block == brk
    &&& top.label == label
    &&& top.exit_phi_nodes@.len() == 0
}

/// `b` is `a` with the exit phis of the innermost loop set to `exits`.
pub open spec fn exits_set(a: HirToMirContext, b: HirToMirContext, exits: Seq<(SymbolId, IrId)>) -> bool {
    if a.loop_stack@.len() > 0 {
        let t = a.loop_stack@.last();
        let u = b.loop_stack@.last();
        &&& b == (HirToMirContext { loop_stack: b.loop_stack, ..a })
        &&& b.loop_stack@.len() == a.loop_stack@.len()
        &&& b.loop_stack@.drop_last() == a.loop_stack@.drop_last()
        &&& u.continue_block == t.continue_block
        &&& u.break_block == t.break_block
        &&& u.label == t.label
        &&& u.exit_phi_nodes@ == exits
    } else {
        b == a
    }
}

/// `b` is `a` with the innermost loop popped.
pub open spec fn loop_popped(a: HirToMirContext, b: HirToMirContext) -> bool {
    &&& b == (HirToMirContext { loop_stack: b.loop_stack, ..a })
    &&& b.loop_stack@ == if a.loop_stack@.len() > 0 {
        a.loop_stack@.drop_last()
    } else {
        a.loop_stack@
    }
}

/// The witnesses of lowering a loop: the states in turn, the variables
/// the loop refers to, its header phis, its exit phis and the value of
/// its condition.
pub type LoopTrace = (Seq<HirToMirContext>, Seq<SymbolId>, Seq<LoopPhi>, Seq<(SymbolId, IrId)>, Option<IrId>);

/// `b` is `a` after the three blocks of a loop were made, in order.
pub open spec fn three_created(st: Seq<HirToMirContext>, first: IrBlockId) -> bool {
    &&& st.len() >= 4
    &&& created(st[0], st[1], first)
    &&& created(st[1], st[2], IrBlockId((first.0 + 1) as u32))
    &&& created(st[2], st[3], IrBlockId((first.0 + 2) as u32))
}

/// What lowering `while condition { body }` does.
///
/// Three blocks are made: the condition block `c`, the body and the exit.
/// The block being built jumps to `c`; there each variable the loop
/// refers to that was bound before it (and is no parameter) gets a phi
/// node, with its register coming from the block before the loop, and is
/// held in that phi. With the loop pushed, the condition is lowered; the
/// exit gets a phi per header phi, coming from where the condition ended,
/// and these are the loop's exit phis; the condition branches to the body
/// or the exit. The body is lowered; each header phi gets the variable's
/// register at the end of the body coming from there, which jumps back to
/// `c` unless it ended already. The loop is popped, lowering goes on in
/// the exit block, and each variable is held in its exit phi.
pub open spec fn while_lowered(
    types: Seq<(TypeId, TypeKind)>,
    a: HirToMirContext,
    b: HirToMirContext,
    condition: HirExpr,
    body: HirBlock,
    label: Option<SymbolId>,
) -> bool
    decreases expr_size(condition) + block_size(body),
{
    if !room(a) || !a.builder.has_fn() {
        b == a
    } else {
        exists|w: LoopTrace|
            #![trigger seen(w)]
            {
                let st = w.0;
                let c = IrBlockId(a.builder.func().cfg.next_block_id);
                let bb = IrBlockId((c.0 + 1) as u32);
                let ex = IrBlockId((c.0 + 2) as u32);
                &&& st.len() == 18
                &&& st[0] == a
                &&& three_created(st, c)
                &&& match st[3].builder.cur_block() {
                    None => b == st[3],
                    Some(entry) => {
                        let cend = match st[8].builder.cur_block() {
                            Some(x) => x,
                            None => c,
                        };
                        &&& grows_by(Seq::empty(), w.1, expr_refs(condition).union(stmts_refs(body.statements@)))
                        &&& ended(st[3], st[4], IrTerminator::Branch { target: c })
                        &&& switched(st[4], st[5], c)
                        &&& header_phis(st[5], st[6], c, entry, carried_vars(st[3], w.1, true), w.2)
                        &&& loop_pushed(st[6], st[7], c, ex, label)
                        &&& expr_lowered(types, st[7], st[8], condition, w.4)
                        &&& exit_phis(st[8], st[9], ex, cend, w.2, w.3)
                        &&& exits_set(st[9], st[10], w.3)
                        &&& match w.4 {
                            Some(cv) => ended(st[10], st[11], IrTerminator::CondBranch { condition: cv, true_target: bb, false_target: ex }),
                            None => st[11] == st[10],
                        }
                        &&& switched(st[11], st[12], bb)
                        &&& block_lowered(types, st[12], st[13], body)
                        &&& match st[13].builder.cur_block() {
                            None => b == st[13],
                            Some(bend) => {
                                &&& keeps(st[13], st[14])
                                &&& incomings_added(st[13].builder, st[14].builder, c, bend, back_edges(st[13].symbol_map@, w.2))
                                &&& if is_ended(st[14]) {
                                    st[15] == st[14]
                                } else {
                                    ended(st[14], st[15], IrTerminator::Branch { target: c })
                                }
                                &&& loop_popped(st[15], st[16])
                                &&& switched(st[16], st[17], ex)
                                &&& rebound_all(st[17], b, w.3)
                            },
                        }
                    },
                }
            }
    }
}

/// What lowering `do { body } while condition` does.
///
/// Three blocks are made: the body `bb`, the condition block and the exit.
/// The block being built jumps to `bb`, where the variables the loop
/// refers to get phi nodes as for `while`. With the loop pushed, the body
/// is lowered and jumps to the condition block unless it ended already;
/// there the condition is lowered. The exit gets a phi per variable still
/// bound, with its register then, coming from where the condition ended;
/// these are the loop's exit phis. Each header phi gets the variable's
/// register then coming from there, and the condition branches back to
/// `bb` or to the exit. The loop is popped, lowering goes on in the exit
/// block, and each variable is held in its exit phi.
pub open spec fn do_while_lowered(
    types: Seq<(TypeId, TypeKind)>,
    a: HirToMirContext,
    b: HirToMirContext,
    body: HirBlock,
    condition: HirExpr,
    label: Option<SymbolId>,
) -> bool
    decreases expr_size(condition) + block_size(body),
{
    if !room(a) || !a.builder.has_fn() {
        b == a
    } else {
        exists|w: LoopTrace|
            #![trigger seen(w)]
            {
                let st = w.0;
                let bb = IrBlockId(a.builder.func().cfg.next_block_id);
                let c = IrBlockId((bb.0 + 1) as u32);
                let ex = IrBlockId((bb.0 + 2) as u32);
                &&& st.len() == 18
                &&& st[0] == a
                &&& three_created(st, bb)
                &&& match st[3].builder.cur_block() {
                    None => b == st[3],
                    Some(entry) => {
                        let cend = match st[11].builder.cur_block() {
                            Some(x) => x,
                            None => c,
                        };
                        &&& grows_by(Seq::empty(), w.1, stmts_refs(body.statements@).union(expr_refs(condition)))
                        &&& ended(st[3], st[4], IrTerminator::Branch { target: bb })
                        &&& switched(st[4], st[5], bb)
                        &&& header_phis(st[5], st[6], bb, entry, carried_vars(st[3], w.1, true), w.2)
                        &&& loop_pushed(st[6], st[7], c, ex, label)
                        &&& block_lowered(types, st[7], st[8], body)
                        &&& match st[8].builder.cur_block() {
                            None => loop_popped(st[8], b),
                            Some(_) => {
                                &&& if is_ended(st[8]) {
                                    st[9] == st[8]
                                } else {
                                    ended(st[8], st[9], IrTerminator::Branch { target: c })
                                }
                                &&& switched(st[9], st[10], c)
                                &&& expr_lowered(types, st[10], st[11], condition, w.4)
                                &&& exit_phis(st[11], st[12], ex, cend, current_values(st[11].symbol_map@, w.2), w.3)
                                &&& exits_set(st[12], st[13], w.3)
                                &&& keeps(st[13], st[14])
                                &&& incomings_added(st[13].builder, st[14].builder, bb, cend, back_edges(st[13].symbol_map@, w.2))
                                &&& match w.4 {
                                    Some(cv) => ended(
                                        st[14],
                                        st[15],
                                        IrTerminator::CondBranch { condition: cv, true_target: bb, false_target: ex },
                                    ),
                                    None => st[15] == st[14],
                                }
                                &&& loop_popped(st[15], st[16])
                                &&& switched(st[16], st[17], ex)
                                &&& rebound_all(st[17], b, w.3)
                            },
                        }
                    },
                }
            }
    }
}

/// The value each variable of `vars` has at the end of a branch: its
/// register then, when the branch reaches the merge (`reaches`) and the
/// variable is bound; its register before the branch otherwise.
pub open spec fn branch_values(symbols: Seq<(SymbolId, IrId)>, vars: Seq<LoopVar>, reaches: bool) -> Seq<IrId> {
    Seq::new(
        vars.len(),
        |k: int|
            if reaches {
                match map_get(symbols, vars[k].0) {
                    Some(r) => r,
                    None => vars[k].1,
                }
            } else {
                vars[k].1
            },
    )
}

/// The phi nodes the merge block of a conditional gets: for each variable
/// (in order) whose values at the ends of the two branches differ, and
/// when some branch reaches the merge, a phi with the value of each branch
/// that reaches it; the phi is recorded as a local and the variable is
/// held in it.
pub open spec fn merge_phis(
    a: HirToMirContext,
    b: HirToMirContext,
    merge: IrBlockId,
    vars: Seq<LoopVar>,
    tv: Seq<IrId>,
    ev: Seq<IrId>,
    tend: Option<IrBlockId>,
    eend: Option<IrBlockId>,
) -> bool
    decreases vars.len(),
{
    if vars.len() == 0 {
        b == a
    } else {
        let k = vars.len() - 1;
        let v = vars.last();
        exists|m: HirToMirContext|
            #![trigger seen(m)]
            merge_phis(a, m, merge, vars.drop_last(), tv, ev, tend, eend) && if tv[k] == ev[k] || (tend is None && eend is None)
                || !room(m) {
                b == m
            } else {
                exists|w: (IrType, IrBuilder, Option<IrId>, IrBuilder, Option<()>, IrBuilder, Option<()>, HirToMirContext)|
                    #![trigger seen(w)]
                    {
                        &&& w.0@ == v.3
                        &&& phi_added(m.builder, w.1, w.2, merge, w.0)
                        &&& match w.2 {
                            None => keeps(m, b) && b.builder == w.1,
                            Some(d) => {
                                &&& match tend {
                                    Some(tb) => incoming_added(w.1, w.3, w.4, merge, d, tb, tv[k]),
                                    None => w.3 == w.1,
                                }
                                &&& match eend {
                                    Some(eb) => incoming_added(w.3, w.5, w.6, merge, d, eb, ev[k]),
                                    None => w.5 == w.3,
                                }
                                &&& keeps(m, w.7)
                                &&& local_pushed(w.5, w.7.builder, d, v.2 + "_phi"@, v.3, true, v.4)
                                &&& rebound(w.7, b, v.0, d)
                            },
                        }
                    }
            }
    }
}

/// The witnesses of lowering a conditional: the states in turn, the
/// variables its branches modify, the condition's value and where each
/// branch ends when it reaches the merge.
pub type IfTrace = (Seq<HirToMirContext>, Seq<SymbolId>, Option<IrId>, Option<IrBlockId>, Option<IrBlockId>);

/// The variables the statements of both branches declare or assign.
pub open spec fn branch_mods(then_branch: HirBlock, else_branch: Option<HirBlock>) -> Set<SymbolId> {
    stmts_mods(then_branch.statements@).union(
        match else_branch {
            Some(eb) => stmts_mods(eb.statements@),
            None => Set::empty(),
        },
    )
}

/// What lowering `if condition { then } else { else }` does.
///
/// Blocks are made for the then branch, the merge and, when there is an
/// else branch, for it (else the merge stands for it). The condition is
/// lowered; when it gives a value, it branches to the two. Each branch is
/// lowered in its block and jumps to the merge unless it ended already.
/// Lowering goes on in the merge, where each variable the branches modify,
/// bound before with a local, gets a phi as `merge_phis` says; without an
/// else branch the block before the conditional reaches the merge with the
/// variables' registers from before.
pub open spec fn if_lowered(
    types: Seq<(TypeId, TypeKind)>,
    a: HirToMirContext,
    b: HirToMirContext,
    condition: HirExpr,
    then_branch: HirBlock,
    else_branch: Option<HirBlock>,
) -> bool
    decreases expr_size(condition) + block_size(then_branch) + match else_branch {
        Some(eb) => block_size(eb),
        None => 0,
    },
{
    if !room(a) || !a.builder.has_fn() {
        b == a
    } else {
        exists|w: IfTrace|
            #![trigger seen(w)]
            {
                let st = w.0;
                let t = IrBlockId(a.builder.func().cfg.next_block_id);
                let mg = IrBlockId((t.0 + 1) as u32);
                let el = if else_branch is Some {
                    IrBlockId((t.0 + 2) as u32)
                } else {
                    mg
                };
                &&& st.len() == 13
                &&& st[0] == a
                &&& created(st[0], st[1], t)
                &&& created(st[1], st[2], mg)
                &&& if else_branch is Some {
                    created(st[2], st[3], el)
                } else {
                    st[3] == st[2]
                }
                &&& match st[3].builder.cur_block() {
                    None => b == st[3],
                    Some(entry) => {
                        let vs = carried_vars(st[3], w.1, false);
                        &&& grows_by(Seq::empty(), w.1, branch_mods(then_branch, else_branch))
                        &&& expr_lowered(types, st[3], st[4], condition, w.2)
                        &&& match w.2 {
                            None => b == st[4],
                            Some(cv) => {
                                &&& ended(st[4], st[5], IrTerminator::CondBranch { condition: cv, true_target: t, false_target: el })
                                &&& switched(st[5], st[6], t)
                                &&& block_lowered(types, st[6], st[7], then_branch)
                                &&& if is_ended(st[7]) {
                                    st[8] == st[7] && w.3 is None
                                } else {
                                    w.3 == st[7].builder.cur_block() && ended(st[7], st[8], IrTerminator::Branch { target: mg })
                                }
                                &&& match else_branch {
                                    Some(eb) => {
                                        &&& switched(st[8], st[9], el)
                                        &&& block_lowered(types, st[9], st[10], eb)
                                        &&& if is_ended(st[10]) {
                                            st[11] == st[10] && w.4 is None
                                        } else {
                                            w.4 == st[10].builder.cur_block() && ended(st[10], st[11], IrTerminator::Branch { target: mg })
                                        }
                                    },
                                    None => st[11] == st[8] && w.4 == Some(entry),
                                }
                                &&& switched(st[11], st[12], mg)
                                &&& merge_phis(
                                    st[12],
                                    b,
                                    mg,
                                    vs,
                                    branch_values(st[8].symbol_map@, vs, w.3 is Some),
                                    branch_values(st[11].symbol_map@, vs, else_branch is Some && w.4 is Some),
                                    w.3,
                                    w.4,
                                )
                            },
                        }
                    },
                }
            }
    }
}

/// What lowering statement `s` does, from state `a` to state `b`.
pub open spec fn stmt_lowered(types: Seq<(TypeId, TypeKind)>, a: HirToMirContext, b: HirToMirContext, s: HirStatement) -> bool
    decreases stmt_size(s),
{
    match s {
        HirStatement::Let { pattern, type_hint, init, is_mutable } => match init {
            None => b == a,
            Some(e) => exists|w: (HirToMirContext, Option<IrId>)|
                #![trigger seen(w)]
                expr_lowered(types, a, w.0, e, w.1) && match w.1 {
                    None => b == w.0,
                    Some(v) => declared_bound(
                        types,
                        w.0,
                        b,
                        pattern,
                        v,
                        match type_hint {
                            Some(t) => t,
                            None => e.ty,
                        },
                        is_mutable,
                    ),
                },
        },
        HirStatement::Expr(e) => exists|x: Option<IrId>| #![trigger seen(x)] expr_lowered(types, a, b, e, x),
        HirStatement::Assign { lhs, rhs, op } => exists|w: (HirToMirContext, Option<IrId>)|
            #![trigger seen(w)]
            expr_lowered(types, a, w.0, rhs, w.1) && match w.1 {
                None => b == w.0,
                Some(rv) => match op {
                    None => lvalue_written(w.0, b, lhs, rv),
                    Some(bop) => compound_assigned(types, w.0, b, lhs, bop, rhs.ty, rv),
                },
            },
        HirStatement::Return(value) => match value {
            None => ended(a, b, IrTerminator::Return { value: None }),
            Some(e) => exists|w: (HirToMirContext, Option<IrId>)|
                #![trigger seen(w)]
                expr_lowered(types, a, w.0, e, w.1) && ended(w.0, b, IrTerminator::Return { value: w.1 }),
        },
        HirStatement::Break(label) => if loop_target(a.loop_stack@, label) >= 0 && a.builder.cur_block() is None {
            b == a
        } else {
            break_lowered(a, b, label)
        },
        HirStatement::Continue(label) => continue_lowered(a, b, label),
        HirStatement::Label { symbol, block } => if !room(a) {
            b == a
        } else {
            exists|w: (String, HirToMirContext, Option<IrBlockId>, HirToMirContext, HirToMirContext)|
                #![trigger seen(w)]
                {
                    &&& w.0@ == label_name(symbol)
                    &&& keeps(a, w.1)
                    &&& labelled_block_added(a.builder, w.1.builder, w.2, w.0)
                    &&& match w.2 {
                        None => b == w.1,
                        Some(blk) => {
                            &&& ended(w.1, w.3, IrTerminator::Branch { target: blk })
                            &&& switched(w.3, w.4, blk)
                            &&& block_lowered(types, w.4, b, block)
                        },
                    }
                }
        },
        HirStatement::If { condition, then_branch, else_branch } => if_lowered(types, a, b, condition, then_branch, else_branch),
        HirStatement::While { condition, body, label } => while_lowered(types, a, b, condition, body, label),
        HirStatement::DoWhile { body, condition, label } => do_while_lowered(types, a, b, body, condition, label),
    }
}

/// What lowering the statements `ss`, in order, does.
pub open spec fn stmts_lowered(types: Seq<(TypeId, TypeKind)>, a: HirToMirContext, b: HirToMirContext, ss: Seq<HirStatement>) -> bool
    decreases stmts_size(ss),
{
    if ss.len() == 0 {
        b == a
    } else {
        exists|m: HirToMirContext|
            #![trigger seen(m)]
            stmts_lowered(types, a, m, ss.drop_last()) && stmt_lowered(types, m, b, ss.last())
    }
}

/// What lowering a block does: its statements, then the expression that
/// ends it, if any.
pub open spec fn block_lowered(types: Seq<(TypeId, TypeKind)>, a: HirToMirContext, b: HirToMirContext, blk: HirBlock) -> bool
    decreases block_size(blk),
{
    exists|w: (HirToMirContext, Option<IrId>)|
        #![trigger seen(w)]
        stmts_lowered(types, a, w.0, blk.statements@) && match blk.expr {
            None => b == w.0,
            Some(e) => expr_lowered(types, w.0, b, *e, w.1),
        }
}

// ---------------------------------------------------------------------------
// Pieces of loops
// ---------------------------------------------------------------------------

/// `b` is `a` after a fresh block `id` was added to the function being built.
pub open spec fn created(a: HirToMirContext, b: HirToMirContext, id: IrBlockId) -> bool {
    let f0 = a.builder.func();
    let nf = b.builder.func();
    &&& keeps(a, b)
    &&& a.builder.has_fn()
    &&& b.builder.has_fn()
    &&& id == IrBlockId(f0.cfg.next_block_id)
    &&& same_context(a.builder, b.builder)
    &&& same_module_but_fn(a.builder.the_module(), b.builder.the_module(), a.builder.fpos())
    &&& b.builder.fpos() == a.builder.fpos()
    &&& nf == (IrFunction { cfg: nf.cfg, ..f0 })
    &&& nf.cfg.entry_block == f0.cfg.entry_block
    &&& nf.cfg.next_block_id == f0.cfg.next_block_id + 1
    &&& nf.cfg.blocks@.drop_last() == f0.cfg.blocks@
    &&& nf.cfg.blocks@.len() == f0.cfg.blocks@.len() + 1
    &&& is_fresh_block(nf.cfg.blocks@.last(), id)
}

/// A variable carried around a loop: the variable, its register before the
/// loop, and the name, type and location of that register's local.
pub type LoopVar = (SymbolId, IrId, Seq<char>, TypeModel, IrSourceLocation);

pub open spec fn loop_var_view(e: (SymbolId, IrId, String, IrType, IrSourceLocation)) -> LoopVar {
    (e.0, e.1, e.2@, e.3@, e.4)
}

/// Register `reg` holds a parameter of the function being built.
pub open spec fn is_param_reg(c: HirToMirContext, reg: IrId) -> bool {
    exists|k: int|
        0 <= k < c.builder.func().signature.parameters@.len() && #[trigger] c.builder.func().signature.parameters@[k].reg
            == reg
}

/// The variables of `vars`, in order, that control flow carries: those
/// bound to a register that has a local (and, with `skip_params`, holds no
/// parameter).
pub open spec fn carried_vars(c: HirToMirContext, vars: Seq<SymbolId>, skip_params: bool) -> Seq<LoopVar>
    decreases vars.len(),
{
    if vars.len() == 0 {
        Seq::empty()
    } else {
        let rest = carried_vars(c, vars.drop_last(), skip_params);
        let s = vars.last();
        match map_get(c.symbol_map@, s) {
            Some(reg) => if c.builder.has_fn() && !(skip_params && is_param_reg(c, reg)) {
                match local_of(c.builder.func().locals@, reg) {
                    Some(l) => rest.push((s, reg, l.name@, l.ty@, l.source_location)),
                    None => rest,
                }
            } else {
                rest
            },
            None => rest,
        }
    }
}

/// A phi node made by a loop: the variable, the phi's register, its type.
pub type LoopPhi = (SymbolId, IrId, TypeModel);

pub open spec fn loop_phi_view(e: (SymbolId, IrId, IrType)) -> LoopPhi {
    (e.0, e.1, e.2@)
}

/// `b` is `a` after a phi node of type `ty` was added to block `blk` with
/// `value` coming from `from`, and its register recorded as a local.
pub open spec fn phi_made(
    a: HirToMirContext,
    b: HirToMirContext,
    blk: IrBlockId,
    from: IrBlockId,
    value: IrId,
    ty: TypeModel,
    name: Seq<char>,
    mutable: bool,
    loc: IrSourceLocation,
    out: Option<IrId>,
) -> bool {
    if !room(a) {
        b == a && out is None
    } else {
        exists|w: (IrType, IrBuilder, Option<IrId>, IrBuilder, Option<()>)|
            #![trigger seen(w)]
            {
                &&& w.0@ == ty
                &&& keeps(a, b)
                &&& phi_added(a.builder, w.1, w.2, blk, w.0)
                &&& match w.2 {
                    None => out is None && b.builder == w.1,
                    Some(d) => {
                        &&& out == Some(d)
                        &&& incoming_added(w.1, w.3, w.4, blk, d, from, value)
                        &&& local_pushed(w.3, b.builder, d, name, ty, mutable, loc)
                    },
                }
            }
    }
}

/// The phi nodes a loop header gets: one per carried variable, in order,
/// with the variable's register coming from `from`; each variable is then
/// held in its phi. `phis` are those made.
pub open spec fn header_phis(
    a: HirToMirContext,
    b: HirToMirContext,
    blk: IrBlockId,
    from: IrBlockId,
    vars: Seq<LoopVar>,
    phis: Seq<LoopPhi>,
) -> bool
    decreases vars.len(),
{
    if vars.len() == 0 {
        b == a && phis.len() == 0
    } else {
        let v = vars.last();
        exists|w: (HirToMirContext, Option<IrId>, HirToMirContext)|
            #![trigger seen(w)]
            phi_made(w.0, w.2, blk, from, v.1, v.3, v.2 + "_phi"@, true, v.4, w.1) && match w.1 {
                None => header_phis(a, w.0, blk, from, vars.drop_last(), phis) && b == w.2,
                Some(d) => {
                    &&& phis.len() > 0
                    &&& phis.last() == (v.0, d, v.3)
                    &&& header_phis(a, w.0, blk, from, vars.drop_last(), phis.drop_last())
                    &&& rebound(w.2, b, v.0, d)
                },
            }
    }
}

/// The name of the local of an exit phi of variable `sym`.
pub open spec fn exit_name(sym: SymbolId) -> Seq<char> {
    "loop_exit_"@ + decimal(sym.0 as nat)
}

/// The phi nodes a loop exit gets: one per entry (variable, value, type),
/// in order, with the value coming from `from`. `exits` are those made
/// (variable, phi).
pub open spec fn exit_phis(
    a: HirToMirContext,
    b: HirToMirContext,
    blk: IrBlockId,
    from: IrBlockId,
    entries: Seq<LoopPhi>,
    exits: Seq<(SymbolId, IrId)>,
) -> bool
    decreases entries.len(),
{
    if entries.len() == 0 {
        b == a && exits.len() == 0
    } else {
        let v = entries.last();
        exists|w: (HirToMirContext, Option<IrId>)|
            #![trigger seen(w)]
            phi_made(w.0, b, blk, from, v.1, v.2, exit_name(v.0), false, IrSourceLocation::unknown_spec(), w.1)
                && match w.1 {
                None => exit_phis(a, w.0, blk, from, entries.drop_last(), exits),
                Some(d) => {
                    &&& exits.len() > 0
                    &&& exits.last() == (v.0, d)
                    &&& exit_phis(a, w.0, blk, from, entries.drop_last(), exits.drop_last())
                },
            }
    }
}

/// The values a loop's phis get back from the end of its body: each
/// variable's register then, or the phi itself when it has none.
pub open spec fn back_edges(symbols: Seq<(SymbolId, IrId)>, phis: Seq<LoopPhi>) -> Seq<(IrId, IrId)> {
    Seq::new(
        phis.len(),
        |k: int|
            (
                phis[k].1,
                match map_get(symbols, phis[k].0) {
                    Some(r) => r,
                    None => phis[k].1,
                },
            ),
    )
}

/// The variables of `phis` that are bound, with their registers now.
pub open spec fn current_values(symbols: Seq<(SymbolId, IrId)>, phis: Seq<LoopPhi>) -> Seq<LoopPhi>
    decreases phis.len(),
{
    if phis.len() == 0 {
        Seq::empty()
    } else {
        let rest = current_values(symbols, phis.drop_last());
        let p = phis.last();
        match map_get(symbols, p.0) {
            Some(r) => rest.push((p.0, r, p.2)),
            None => rest,
        }
    }
}

/// `b` is `a` with each variable of `binds` held, in turn, in its register.
pub open spec fn rebound_all(a: HirToMirContext, b: HirToMirContext, binds: Seq<(SymbolId, IrId)>) -> bool
    decreases binds.len(),
{
    if binds.len() == 0 {
        b == a
    } else {
        exists|m: HirToMirContext|
            #![trigger seen(m)]
            rebound_all(a, m, binds.drop_last()) && rebound(m, b, binds.last().0, binds.last().1)
    }
}

impl HirToMirContext {
    pub(crate) fn new_block(&mut self) -> (r: Option<IrBlockId>)
        requires
            old(self).builder.has_fn() ==> old(self).builder.func().cfg.next_block_id < u32::MAX,
        ensures
            crate::body_lowering::frame_kept(*old(self), *final(self)),
            match r {
                Some(id) => created(*old(self), *final(self), id),
                None => !old(self).builder.has_fn() && *final(self) == *old(self),
            },
    {
        let ghost b0 = self.builder;
        let r = self.builder.create_block();
        proof {
            if r is Some {
                let nf = self.builder.the_module().functions@[b0.fpos()];
                crate::module::lemma_fn_pos_ids(b0.the_module().functions@, self.builder.the_module().functions@, b0.cur_fn()->0);
                assert(self.builder.fpos() == b0.fpos());
            }
        }
        r
    }

    fn is_param_register(&self, reg: IrId) -> (r: bool)
        requires
            self.builder.has_fn(),
        ensures
            r == is_param_reg(*self, reg),
    {
        match self.builder.current_function() {
            Some(f) => {
                let mut k: usize = 0;
                while k < f.signature.parameters.len()
                    invariant
                        k <= f.signature.parameters@.len(),
                        *f == self.builder.func(),
                        forall|j: int| 0 <= j < k ==> f.signature.parameters@[j].reg != reg,
                    decreases f.signature.parameters@.len() - k,
                {
                    if f.signature.parameters[k].reg == reg {
                        return true;
                    }
                    k = k + 1;
                }
                false
            },
            None => false,
        }
    }

    fn collect_carried_vars(&self, vars: &Vec<SymbolId>, skip_params: bool) -> (r: Vec<(SymbolId, IrId, String, IrType, IrSourceLocation)>)
        ensures
            r@.map_values(|e| loop_var_view(e)) == carried_vars(*self, vars@, skip_params),
    {
        let mut out: Vec<(SymbolId, IrId, String, IrType, IrSourceLocation)> = Vec::new();
        let mut i: usize = 0;
        while i < vars.len()
            invariant
                i <= vars@.len(),
                out@.map_values(|e| loop_var_view(e)) == carried_vars(*self, vars@.take(i as int), skip_params),
            decreases vars@.len() - i,
        {
            proof {
                assert(vars@.take(i + 1).drop_last() =~= vars@.take(i as int));
            }
            let ghost before = out@;
            let s = vars[i];
            if let Some(reg) = lookup_symbol(&self.symbol_map, s) {
                if let Some(f) = self.builder.current_function() {
                    if !(skip_params && self.is_param_register(reg)) {
                        if let Some(l) = find_local(&f.locals, reg) {
                            out.push((s, reg, l.name.clone(), l.ty.clone(), l.source_location));
                            proof {
                                assert(out@.map_values(|e| loop_var_view(e)) =~= before.map_values(|e| loop_var_view(e)).push(
                                    loop_var_view(out@.last()),
                                ));
                            }
                        }
                    }
                }
            }
            i = i + 1;
        }
        proof {
            assert(vars@.take(vars@.len() as int) =~= vars@);
        }
        out
    }

    fn make_header_phis(
        &mut self,
        blk: IrBlockId,
        from: IrBlockId,
        vars: &Vec<(SymbolId, IrId, String, IrType, IrSourceLocation)>,
    ) -> (phis: Vec<(SymbolId, IrId, IrType)>)
        ensures
            crate::body_lowering::frame_kept(*old(self), *final(self)),
            header_phis(*old(self), *final(self), blk, from, vars@.map_values(|e| loop_var_view(e)), phis@.map_values(|e| loop_phi_view(e))),
    {
        let ghost a = *self;
        let ghost vs = vars@.map_values(|e| loop_var_view(e));
        let mut phis: Vec<(SymbolId, IrId, IrType)> = Vec::new();
        let mut i: usize = 0;
        while i < vars.len()
            invariant
                i <= vars@.len(),
                vs == vars@.map_values(|e| loop_var_view(e)),
                crate::body_lowering::frame_kept(a, *self),
                a == *old(self),
                header_phis(a, *self, blk, from, vs.take(i as int), phis@.map_values(|e| loop_phi_view(e))),
            decreases vars@.len() - i,
        {
            let ghost m = *self;
            let ghost before = phis@.map_values(|e| loop_phi_view(e));
            proof {
                assert(vs.take(i + 1).drop_last() =~= vs.take(i as int));
                assert(vs.take(i + 1).last() == vs[i as int]);
            }
            let mut name = vars[i].2.clone();
            name.append("_phi");
            let out = self.make_phi(blk, from, vars[i].1, vars[i].3.clone(), name, true, vars[i].4);
            let ghost m2 = *self;
            match out {
                Some(d) => {
                    insert_by_symbol(&mut self.symbol_map, vars[i].0, d);
                    phis.push((vars[i].0, d, vars[i].3.clone()));
                    proof {
                        assert(phis@.map_values(|e| loop_phi_view(e)).drop_last() =~= before);
                    }
                },
                None => {},
            }
            proof {
                assert(seen((m, out, m2)));
            }
            i = i + 1;
        }
        proof {
            assert(vs.take(vars@.len() as int) =~= vs);
        }
        phis
    }

    fn make_exit_phis(&mut self, blk: IrBlockId, from: IrBlockId, entries: &Vec<(SymbolId, IrId, IrType)>) -> (exits: Vec<(SymbolId, IrId)>)
        ensures
            crate::body_lowering::frame_kept(*old(self), *final(self)),
            exit_phis(*old(self), *final(self), blk, from, entries@.map_values(|e| loop_phi_view(e)), exits@),
    {
        let ghost a = *self;
        let ghost es = entries@.map_values(|e| loop_phi_view(e));
        let mut exits: Vec<(SymbolId, IrId)> = Vec::new();
        let mut i: usize = 0;
        while i < entries.len()
            invariant
                i <= entries@.len(),
                es == entries@.map_values(|e| loop_phi_view(e)),
                crate::body_lowering::frame_kept(a, *self),
                a == *old(self),
                exit_phis(a, *self, blk, from, es.take(i as int), exits@),
            decreases entries@.len() - i,
        {
            let ghost m = *self;
            let ghost before = exits@;
            proof {
                assert(es.take(i + 1).drop_last() =~= es.take(i as int));
                assert(es.take(i + 1).last() == es[i as int]);
            }
            let mut name = String::new();
            name.append("loop_exit_");
            push_decimal(&mut name, entries[i].0.0 as usize);
            let out = self.make_phi(blk, from, entries[i].1, entries[i].2.clone(), name, false, IrSourceLocation::unknown());
            if let Some(d) = out {
                exits.push((entries[i].0, d));
                proof {
                    assert(exits@.drop_last() =~= before);
                }
            }
            proof {
                assert(seen((m, out)));
            }
            i = i + 1;
        }
        proof {
            assert(es.take(entries@.len() as int) =~= es);
        }
        exits
    }

    fn add_incomings(&mut self, blk: IrBlockId, from: IrBlockId, edges: &Vec<(IrId, IrId)>)
        ensures
            crate::body_lowering::frame_kept(*old(self), *final(self)),
            keeps(*old(self), *final(self)),
            incomings_added(old(self).builder, final(self).builder, blk, from, edges@),
    {
        let ghost b0 = self.builder;
        let ghost mut steps: Seq<IrBuilder> = seq![self.builder];
        let ghost mut rs: Seq<Option<()>> = Seq::empty();
        let mut k: usize = 0;
        while k < edges.len()
            invariant
                *self == (HirToMirContext { builder: self.builder, ..*old(self) }),
                self.builder.cur_block() == old(self).builder.cur_block(),
                k <= edges@.len(),
                incoming_chain(steps, rs, blk, from, edges@.take(k as int)),
                steps[0] == b0,
                steps.last() == self.builder,
            decreases edges@.len() - k,
        {
            let ghost mid = self.builder;
            let r = self.builder.add_phi_incoming(blk, edges[k].0, from, edges[k].1);
            proof {
                let e0 = edges@.take(k as int);
                let e1 = edges@.take(k + 1);
                let s0 = steps;
                let r0 = rs;
                steps = steps.push(self.builder);
                rs = rs.push(r);
                assert forall|j: int| 0 <= j < e1.len() implies incoming_added(
                    steps[j],
                    steps[j + 1],
                    #[trigger] rs[j],
                    blk,
                    e1[j].0,
                    from,
                    e1[j].1,
                ) by {
                    if j < k {
                        assert(r0[j] == rs[j]);
                        assert(e0[j] == e1[j]);
                        assert(s0[j] == steps[j]);
                        assert(s0[j + 1] == steps[j + 1]);
                    } else {
                        assert(steps[j] == mid);
                    }
                }
            }
            k = k + 1;
        }
        proof {
            assert(edges@.take(edges@.len() as int) =~= edges@);
            assert(incoming_chain(steps, rs, blk, from, edges@));
        }
    }

    fn back_edge_list(&self, phis: &Vec<(SymbolId, IrId, IrType)>) -> (r: Vec<(IrId, IrId)>)
        ensures
            r@ == back_edges(self.symbol_map@, phis@.map_values(|e| loop_phi_view(e))),
    {
        let ghost ps = phis@.map_values(|e| loop_phi_view(e));
        let mut r: Vec<(IrId, IrId)> = Vec::new();
        let mut k: usize = 0;
        while k < phis.len()
            invariant
                k <= phis@.len(),
                ps == phis@.map_values(|e| loop_phi_view(e)),
                r@ =~= back_edges(self.symbol_map@, ps).take(k as int),
            decreases phis@.len() - k,
        {
            let v = match lookup_symbol(&self.symbol_map, phis[k].0) {
                Some(x) => x,
                None => phis[k].1,
            };
            r.push((phis[k].1, v));
            k = k + 1;
        }
        r
    }

    fn current_value_list(&self, phis: &Vec<(SymbolId, IrId, IrType)>) -> (r: Vec<(SymbolId, IrId, IrType)>)
        ensures
            r@.map_values(|e| loop_phi_view(e)) == current_values(self.symbol_map@, phis@.map_values(|e| loop_phi_view(e))),
    {
        let ghost ps = phis@.map_values(|e| loop_phi_view(e));
        let mut r: Vec<(SymbolId, IrId, IrType)> = Vec::new();
        let mut k: usize = 0;
        while k < phis.len()
            invariant
                k <= phis@.len(),
                ps == phis@.map_values(|e| loop_phi_view(e)),
                r@.map_values(|e| loop_phi_view(e)) == current_values(self.symbol_map@, ps.take(k as int)),
            decreases phis@.len() - k,
        {
            let ghost before = r@.map_values(|e| loop_phi_view(e));
            proof {
                assert(ps.take(k + 1).drop_last() =~= ps.take(k as int));
                assert(ps.take(k + 1).last() == ps[k as int]);
            }
            if let Some(x) = lookup_symbol(&self.symbol_map, phis[k].0) {
                r.push((phis[k].0, x, phis[k].2.clone()));
                proof {
                    assert(r@.map_values(|e| loop_phi_view(e)) =~= before.push(loop_phi_view(r@.last())));
                }
            }
            k = k + 1;
        }
        proof {
            assert(ps.take(phis@.len() as int) =~= ps);
        }
        r
    }

    pub(crate) fn rebind_all(&mut self, binds: &Vec<(SymbolId, IrId)>)
        ensures
            crate::body_lowering::frame_kept(*old(self), *final(self)),
            rebound_all(*old(self), *final(self), binds@),
    {
        let ghost a = *self;
        let mut k: usize = 0;
        while k < binds.len()
            invariant
                k <= binds@.len(),
                crate::body_lowering::frame_kept(a, *self),
                a == *old(self),
                rebound_all(a, *self, binds@.take(k as int)),
            decreases binds@.len() - k,
        {
            let ghost m = *self;
            proof {
                assert(binds@.take(k + 1).drop_last() =~= binds@.take(k as int));
                assert(binds@.take(k + 1).last() == binds@[k as int]);
                assert(seen(m));
            }
            insert_by_symbol(&mut self.symbol_map, binds[k].0, binds[k].1);
            k = k + 1;
        }
        proof {
            assert(binds@.take(binds@.len() as int) =~= binds@);
        }
    }

    pub(crate) fn copy_binds(v: &Vec<(SymbolId, IrId)>) -> (r: Vec<(SymbolId, IrId)>)
        ensures
            r@ == v@,
    {
        let mut r: Vec<(SymbolId, IrId)> = Vec::new();
        let mut k: usize = 0;
        while k < v.len()
            invariant
                k <= v@.len(),
                r@ =~= v@.take(k as int),
            decreases v@.len() - k,
        {
            r.push(v[k]);
            k = k + 1;
        }
        r
    }

    fn set_exit_phis(&mut self, exits: Vec<(SymbolId, IrId)>)
        ensures
            exits_set(*old(self), *final(self), exits@),
    {
        if self.loop_stack.len() > 0 {
            let top = self.loop_stack.pop();
            match top {
                Some(t) => {
                    let ghost mid = self.loop_stack@;
                    self.loop_stack.push(LoopContext { exit_phi_nodes: exits, ..t });
                    proof {
                        assert(mid =~= old(self).loop_stack@.drop_last());
                        assert(self.loop_stack@.drop_last() =~= mid);
                    }
                },
                None => {},
            }
        }
    }

    fn pop_loop(&mut self)
        ensures
            loop_popped(*old(self), *final(self)),
    {
        let _ = self.loop_stack.pop();
    }

    /// Lowers `while condition { body }`, with `label` if it has one.
    pub fn lower_while_loop(&mut self, table: &TypeTable, condition: &HirExpr, body: &HirBlock, label: Option<SymbolId>)
        requires
            table_converts(table.types@),
        ensures
            crate::body_lowering::frame_kept(*old(self), *final(self)),
            while_lowered(table.types@, *old(self), *final(self), *condition, *body, label),
        decreases expr_size(*condition) + block_size(*body),
    {
        let ghost a = *self;
        if !self.has_room() || self.builder.current_function().is_none() {
            return;
        }
        let ghost c = IrBlockId(a.builder.func().cfg.next_block_id);
        let cond_block = match self.new_block() {
            Some(x) => x,
            None => return,
        };
        let ghost s1 = *self;
        let body_block = match self.new_block() {
            Some(x) => x,
            None => return,
        };
        let ghost s2 = *self;
        let exit_block = match self.new_block() {
            Some(x) => x,
            None => return,
        };
        let ghost s3 = *self;
        let entry_block = match self.builder.current_block() {
            Some(x) => x,
            None => {
                proof {
                    let st = seq![a, s1, s2, s3, s3, s3, s3, s3, s3, s3, s3, s3, s3, s3, s3, s3, s3, s3];
                    assert(three_created(st, c));
                    assert(seen((st, Seq::<SymbolId>::empty(), Seq::<LoopPhi>::empty(), Seq::<(SymbolId, IrId)>::empty(), None::<IrId>)));
                }
                return;
            },
        };
        let mut vars: Vec<SymbolId> = Vec::new();
        crate::variable_uses::collect_referenced_variables_in_expr(condition, &mut vars);
        let ghost v1 = vars@;
        crate::variable_uses::collect_referenced_variables_in_block(body, &mut vars);
        proof {
            crate::variable_uses::lemma_grows_trans(
                Seq::empty(),
                v1,
                vars@,
                expr_refs(*condition),
                stmts_refs(body.statements@),
            );
        }
        let lv = self.collect_carried_vars(&vars, true);
        let _ = self.builder.build_branch(cond_block);
        let ghost s4 = *self;
        self.builder.switch_to_block(cond_block);
        let ghost s5 = *self;
        proof {
            assert(s5.builder == (IrBuilder { current_block: Some(cond_block), ..s4.builder }));
        }
        let phis = self.make_header_phis(cond_block, entry_block, &lv);
        let ghost s6 = *self;
        self.loop_stack.push(LoopContext { continue_block: cond_block, break_block: exit_block, label, exit_phi_nodes: Vec::new() });
        let ghost s7 = *self;
        proof {
            assert(s7.loop_stack@.drop_last() =~= s6.loop_stack@);
        }
        let cond_result = self.lower_expression(table, condition);
        let ghost s8 = *self;
        let cond_end = match self.builder.current_block() {
            Some(x) => x,
            None => cond_block,
        };
        let exits = self.make_exit_phis(exit_block, cond_end, &phis);
        let ghost s9 = *self;
        let exits_copy = Self::copy_binds(&exits);
        self.set_exit_phis(exits);
        let ghost s10 = *self;
        if let Some(cv) = cond_result {
            let _ = self.builder.build_cond_branch(cv, body_block, exit_block);
        }
        let ghost s11 = *self;
        self.builder.switch_to_block(body_block);
        let ghost s12 = *self;
        proof {
            assert(s12.builder == (IrBuilder { current_block: Some(body_block), ..s11.builder }));
        }
        self.lower_block(table, body);
        let ghost s13 = *self;
        let body_end = match self.builder.current_block() {
            Some(x) => x,
            None => {
                proof {
                    let st = seq![a, s1, s2, s3, s4, s5, s6, s7, s8, s9, s10, s11, s12, s13, s13, s13, s13, s13];
                    assert(three_created(st, c));
                    assert(seen((st, vars@, phis@.map_values(|e| loop_phi_view(e)), exits_copy@, cond_result)));
                }
                return;
            },
        };
        let edges = self.back_edge_list(&phis);
        self.add_incomings(cond_block, body_end, &edges);
        let ghost s14 = *self;
        if !self.is_terminated() {
            let _ = self.builder.build_branch(cond_block);
        }
        let ghost s15 = *self;
        self.pop_loop();
        let ghost s16 = *self;
        self.builder.switch_to_block(exit_block);
        let ghost s17 = *self;
        proof {
            assert(s17.builder == (IrBuilder { current_block: Some(exit_block), ..s16.builder }));
        }
        self.rebind_all(&exits_copy);
        proof {
            let st = seq![a, s1, s2, s3, s4, s5, s6, s7, s8, s9, s10, s11, s12, s13, s14, s15, s16, s17];
            assert(three_created(st, c));
            assert(seen((st, vars@, phis@.map_values(|e| loop_phi_view(e)), exits_copy@, cond_result)));
        }
    }

    /// Lowers `do { body } while condition`, with `label` if it has one.
    pub fn lower_do_while_loop(&mut self, table: &TypeTable, body: &HirBlock, condition: &HirExpr, label: Option<SymbolId>)
        requires
            table_converts(table.types@),
        ensures
            crate::body_lowering::frame_kept(*old(self), *final(self)),
            do_while_lowered(table.types@, *old(self), *final(self), *body, *condition, label),
        decreases expr_size(*condition) + block_size(*body),
    {
        let ghost a = *self;
        if !self.has_room() || self.builder.current_function().is_none() {
            return;
        }
        let ghost bb = IrBlockId(a.builder.func().cfg.next_block_id);
        let body_block = match self.new_block() {
            Some(x) => x,
            None => return,
        };
        let ghost s1 = *self;
        let cond_block = match self.new_block() {
            Some(x) => x,
            None => return,
        };
        let ghost s2 = *self;
        let exit_block = match self.new_block() {
            Some(x) => x,
            None => return,
        };
        let ghost s3 = *self;
        let entry_block = match self.builder.current_block() {
            Some(x) => x,
            None => {
                proof {
                    let st = seq![a, s1, s2, s3, s3, s3, s3, s3, s3, s3, s3, s3, s3, s3, s3, s3, s3, s3];
                    assert(three_created(st, bb));
                    assert(seen((st, Seq::<SymbolId>::empty(), Seq::<LoopPhi>::empty(), Seq::<(SymbolId, IrId)>::empty(), None::<IrId>)));
                }
                return;
            },
        };
        let mut vars: Vec<SymbolId> = Vec::new();
        crate::variable_uses::collect_referenced_variables_in_block(body, &mut vars);
        let ghost v1 = vars@;
        crate::variable_uses::collect_referenced_variables_in_expr(condition, &mut vars);
        proof {
            crate::variable_uses::lemma_grows_trans(
                Seq::empty(),
                v1,
                vars@,
                stmts_refs(body.statements@),
                expr_refs(*condition),
            );
        }
        let lv = self.collect_carried_vars(&vars, true);
        let _ = self.builder.build_branch(body_block);
        let ghost s4 = *self;
        self.builder.switch_to_block(body_block);
        let ghost s5 = *self;
        proof {
            assert(s5.builder == (IrBuilder { current_block: Some(body_block), ..s4.builder }));
        }
        let phis = self.make_header_phis(body_block, entry_block, &lv);
        let ghost s6 = *self;
        self.loop_stack.push(LoopContext { continue_block: cond_block, break_block: exit_block, label, exit_phi_nodes: Vec::new() });
        let ghost s7 = *self;
        proof {
            assert(s7.loop_stack@.drop_last() =~= s6.loop_stack@);
        }
        self.lower_block(table, body);
        let ghost s8 = *self;
        if self.builder.current_block().is_none() {
            self.pop_loop();
            proof {
                let st = seq![a, s1, s2, s3, s4, s5, s6, s7, s8, s8, s8, s8, s8, s8, s8, s8, s8, s8];
                assert(three_created(st, bb));
                assert(seen((st, vars@, phis@.map_values(|e| loop_phi_view(e)), Seq::<(SymbolId, IrId)>::empty(), None::<IrId>)));
            }
            return;
        }
        if !self.is_terminated() {
            let _ = self.builder.build_branch(cond_block);
        }
        let ghost s9 = *self;
        self.builder.switch_to_block(cond_block);
        let ghost s10 = *self;
        proof {
            assert(s10.builder == (IrBuilder { current_block: Some(cond_block), ..s9.builder }));
        }
        let cond_result = self.lower_expression(table, condition);
        let ghost s11 = *self;
        let cond_end = match self.builder.current_block() {
            Some(x) => x,
            None => cond_block,
        };
        let entries = self.current_value_list(&phis);
        let exits = self.make_exit_phis(exit_block, cond_end, &entries);
        let ghost s12 = *self;
        let exits_copy = Self::copy_binds(&exits);
        self.set_exit_phis(exits);
        let ghost s13 = *self;
        let edges = self.back_edge_list(&phis);
        self.add_incomings(body_block, cond_end, &edges);
        let ghost s14 = *self;
        if let Some(cv) = cond_result {
            let _ = self.builder.build_cond_branch(cv, body_block, exit_block);
        }
        let ghost s15 = *self;
        self.pop_loop();
        let ghost s16 = *self;
        self.builder.switch_to_block(exit_block);
        let ghost s17 = *self;
        proof {
            assert(s17.builder == (IrBuilder { current_block: Some(exit_block), ..s16.builder }));
        }
        self.rebind_all(&exits_copy);
        proof {
            let st = seq![a, s1, s2, s3, s4, s5, s6, s7, s8, s9, s10, s11, s12, s13, s14, s15, s16, s17];
            assert(three_created(st, bb));
            assert(seen((st, vars@, phis@.map_values(|e| loop_phi_view(e)), exits_copy@, cond_result)));
        }
    }

    fn branch_value_list(&self, vs: &Vec<(SymbolId, IrId, String, IrType, IrSourceLocation)>, reaches: bool) -> (r: Vec<IrId>)
        ensures
            r@ == branch_values(self.symbol_map@, vs@.map_values(|e| loop_var_view(e)), reaches),
    {
        let ghost sv = vs@.map_values(|e| loop_var_view(e));
        let mut r: Vec<IrId> = Vec::new();
        let mut k: usize = 0;
        while k < vs.len()
            invariant
                k <= vs@.len(),
                sv == vs@.map_values(|e| loop_var_view(e)),
                r@ =~= branch_values(self.symbol_map@, sv, reaches).take(k as int),
            decreases vs@.len() - k,
        {
            let v = if reaches {
                match lookup_symbol(&self.symbol_map, vs[k].0) {
                    Some(x) => x,
                    None => vs[k].1,
                }
            } else {
                vs[k].1
            };
            r.push(v);
            k = k + 1;
        }
        r
    }

    fn make_merge_phis(
        &mut self,
        merge: IrBlockId,
        vs: &Vec<(SymbolId, IrId, String, IrType, IrSourceLocation)>,
        tv: &Vec<IrId>,
        ev: &Vec<IrId>,
        tend: Option<IrBlockId>,
        eend: Option<IrBlockId>,
    )
        requires
            tv@.len() == vs@.len(),
            ev@.len() == vs@.len(),
        ensures
            crate::body_lowering::frame_kept(*old(self), *final(self)),
            merge_phis(*old(self), *final(self), merge, vs@.map_values(|e| loop_var_view(e)), tv@, ev@, tend, eend),
    {
        let ghost a = *self;
        let ghost sv = vs@.map_values(|e| loop_var_view(e));
        let mut i: usize = 0;
        while i < vs.len()
            invariant
                i <= vs@.len(),
                tv@.len() == vs@.len(),
                ev@.len() == vs@.len(),
                sv == vs@.map_values(|e| loop_var_view(e)),
                crate::body_lowering::frame_kept(a, *self),
                a == *old(self),
                merge_phis(a, *self, merge, sv.take(i as int), tv@, ev@, tend, eend),
            decreases vs@.len() - i,
        {
            let ghost m = *self;
            proof {
                assert(sv.take(i + 1).drop_last() =~= sv.take(i as int));
                assert(sv.take(i + 1).last() == sv[i as int]);
                assert(seen(m));
            }
            if tv[i] == ev[i] || (tend.is_none() && eend.is_none()) || !self.has_room() {
            } else {
                let t = vs[i].3.clone();
                let lt = t.clone();
                let ghost tt = t;
                let p = self.builder.build_phi(merge, t);
                let ghost b1 = self.builder;
                match p {
                    None => {
                        proof {
                            assert(seen((tt, b1, p, b1, None::<()>, b1, None::<()>, *self)));
                        }
                    },
                    Some(d) => {
                        let u1 = match tend {
                            Some(tb) => self.builder.add_phi_incoming(merge, d, tb, tv[i]),
                            None => None,
                        };
                        let ghost b3 = self.builder;
                        let u2 = match eend {
                            Some(eb) => self.builder.add_phi_incoming(merge, d, eb, ev[i]),
                            None => None,
                        };
                        let ghost b5 = self.builder;
                        let mut name = vs[i].2.clone();
                        name.append("_phi");
                        self.push_local(d, name, lt, true, vs[i].4);
                        let ghost m7 = *self;
                        insert_by_symbol(&mut self.symbol_map, vs[i].0, d);
                        proof {
                            assert(seen((tt, b1, p, b3, u1, b5, u2, m7)));
                        }
                    },
                }
            }
            i = i + 1;
        }
        proof {
            assert(sv.take(vs@.len() as int) =~= sv);
        }
    }

    /// Lowers `if condition { then_branch } else { else_branch }`.
    pub fn lower_if_statement(
        &mut self,
        table: &TypeTable,
        condition: &HirExpr,
        then_branch: &HirBlock,
        else_branch: Option<&HirBlock>,
    )
        requires
            table_converts(table.types@),
        ensures
            crate::body_lowering::frame_kept(*old(self), *final(self)),
            if_lowered(
                table.types@,
                *old(self),
                *final(self),
                *condition,
                *then_branch,
                match else_branch {
                    Some(x) => Some(*x),
                    None => None,
                },
            ),
        decreases expr_size(*condition) + block_size(*then_branch) + match else_branch {
            Some(eb) => block_size(*eb),
            None => 0,
        },
    {
        let ghost a = *self;
        let ghost eo: Option<HirBlock> = match else_branch {
            Some(x) => Some(*x),
            None => None,
        };
        if !self.has_room() || self.builder.current_function().is_none() {
            return;
        }
        let then_block = match self.new_block() {
            Some(x) => x,
            None => return,
        };
        let ghost s1 = *self;
        let merge_block = match self.new_block() {
            Some(x) => x,
            None => return,
        };
        let ghost s2 = *self;
        let else_block = match else_branch {
            Some(_) => match self.new_block() {
                Some(x) => x,
                None => return,
            },
            None => merge_block,
        };
        let ghost s3 = *self;
        let entry_block = match self.builder.current_block() {
            Some(x) => x,
            None => {
                proof {
                    let st = seq![a, s1, s2, s3, s3, s3, s3, s3, s3, s3, s3, s3, s3];
                    assert(seen((st, Seq::<SymbolId>::empty(), None::<IrId>, None::<IrBlockId>, None::<IrBlockId>)));
                }
                return;
            },
        };
        let mut vars: Vec<SymbolId> = Vec::new();
        crate::variable_uses::find_modified_variables_in_statements(&then_branch.statements, &mut vars);
        let ghost v1 = vars@;
        match else_branch {
            Some(eb) => {
                crate::variable_uses::find_modified_variables_in_statements(&eb.statements, &mut vars);
                proof {
                    crate::variable_uses::lemma_grows_trans(
                        Seq::empty(),
                        v1,
                        vars@,
                        stmts_mods(then_branch.statements@),
                        stmts_mods(eb.statements@),
                    );
                }
            },
            None => {
                proof {
                    assert(branch_mods(*then_branch, eo) =~= stmts_mods(then_branch.statements@));
                }
            },
        }
        let vs = self.collect_carried_vars(&vars, false);
        let x = self.lower_expression(table, condition);
        let ghost s4 = *self;
        let cv = match x {
            Some(cv) => cv,
            None => {
                proof {
                    let st = seq![a, s1, s2, s3, s4, s4, s4, s4, s4, s4, s4, s4, s4];
                    assert(seen((st, vars@, x, None::<IrBlockId>, None::<IrBlockId>)));
                }
                return;
            },
        };
        let _ = self.builder.build_cond_branch(cv, then_block, else_block);
        let ghost s5 = *self;
        self.builder.switch_to_block(then_block);
        let ghost s6 = *self;
        proof {
            assert(s6.builder == (IrBuilder { current_block: Some(then_block), ..s5.builder }));
        }
        self.lower_block(table, then_branch);
        let ghost s7 = *self;
        let tend = if !self.is_terminated() {
            let cur = self.builder.current_block();
            let _ = self.builder.build_branch(merge_block);
            cur
        } else {
            None
        };
        let ghost s8 = *self;
        let tv = self.branch_value_list(&vs, tend.is_some());
        let ghost s9;
        let ghost s10;
        let eend = match else_branch {
            Some(eb) => {
                self.builder.switch_to_block(else_block);
                proof {
                    s9 = *self;
                    assert(s9.builder == (IrBuilder { current_block: Some(else_block), ..s8.builder }));
                }
                self.lower_block(table, eb);
                proof {
                    s10 = *self;
                }
                if !self.is_terminated() {
                    let cur = self.builder.current_block();
                    let _ = self.builder.build_branch(merge_block);
                    cur
                } else {
                    None
                }
            },
            None => {
                proof {
                    s9 = s8;
                    s10 = s8;
                }
                Some(entry_block)
            },
        };
        let ghost s11 = *self;
        let ev = self.branch_value_list(&vs, else_branch.is_some() && eend.is_some());
        self.builder.switch_to_block(merge_block);
        let ghost s12 = *self;
        proof {
            assert(s12.builder == (IrBuilder { current_block: Some(merge_block), ..s11.builder }));
        }
        self.make_merge_phis(merge_block, &vs, &tv, &ev, tend, eend);
        proof {
            let st = seq![a, s1, s2, s3, s4, s5, s6, s7, s8, s9, s10, s11, s12];
            assert(seen((st, vars@, x, tend, eend)));
        }
    }

    fn make_phi(
        &mut self,
        blk: IrBlockId,
        from: IrBlockId,
        value: IrId,
        ty: IrType,
        name: String,
        mutable: bool,
        loc: IrSourceLocation,
    ) -> (out: Option<IrId>)
        ensures
            crate::body_lowering::frame_kept(*old(self), *final(self)),
            phi_made(*old(self), *final(self), blk, from, value, ty@, name@, mutable, loc, out),
    {
        if !self.has_room() {
            return None;
        }
        let ghost a = *self;
        let ghost t = ty;
        let lt = ty.clone();
        let p = self.builder.build_phi(blk, ty);
        let ghost b1 = self.builder;
        match p {
            Some(d) => {
                let u = self.builder.add_phi_incoming(blk, d, from, value);
                let ghost b3 = self.builder;
                self.push_local(d, name, lt, mutable, loc);
                proof {
                    assert(seen((t, b1, p, b3, u)));
                }
                Some(d)
            },
            None => {
                proof {
                    assert(seen((t, b1, p, b1, None::<()>)));
                }
                None
            },
        }
    }

    /// Lowers the statements of `block`, then the expression that ends it.
    pub fn lower_block(&mut self, table: &TypeTable, block: &HirBlock)
        requires
            table_converts(table.types@),
        ensures
            crate::body_lowering::frame_kept(*old(self), *final(self)),
            block_lowered(table.types@, *old(self), *final(self), *block),
        decreases block_size(*block),
    {
        let ghost a = *self;
        let mut i: usize = 0;
        while i < block.statements.len()
            invariant
                i <= block.statements@.len(),
                table_converts(table.types@),
                crate::body_lowering::frame_kept(a, *self),
                a == *old(self),
                stmts_lowered(table.types@, a, *self, block.statements@.take(i as int)),
            decreases block.statements@.len() - i,
        {
            let ghost m = *self;
            proof {
                assert(block.statements@.take(i + 1).drop_last() =~= block.statements@.take(i as int));
                assert(block.statements@.take(i + 1).last() == block.statements@[i as int]);
                assert(seen(m));
                lemma_stmts_size(block.statements@, i as int);
            }
            self.lower_statement(table, &block.statements[i]);
            i = i + 1;
        }
        proof {
            assert(block.statements@.take(block.statements@.len() as int) =~= block.statements@);
        }
        let ghost m = *self;
        match &block.expr {
            Some(e) => {
                let x = self.lower_expression(table, e);
                proof {
                    assert(seen((m, x)));
                }
            },
            None => {
                proof {
                    assert(seen((m, None::<IrId>)));
                }
            },
        }
    }

    /// Lowers statement `stmt`.
    pub fn lower_statement(&mut self, table: &TypeTable, stmt: &HirStatement)
        requires
            table_converts(table.types@),
        ensures
            crate::body_lowering::frame_kept(*old(self), *final(self)),
            stmt_lowered(table.types@, *old(self), *final(self), *stmt),
        decreases stmt_size(*stmt),
    {
        let ghost a = *self;
        match stmt {
            HirStatement::Let { pattern, type_hint, init, is_mutable } => {
                if let Some(e) = init {
                    let x = self.lower_expression(table, e);
                    let ghost m = *self;
                    proof {
                        assert(seen((m, x)));
                    }
                    if let Some(v) = x {
                        let ty = match type_hint {
                            Some(t) => *t,
                            None => e.ty,
                        };
                        self.bind_pattern_with_type(table, pattern, v, ty, *is_mutable);
                    }
                }
            },
            HirStatement::Expr(e) => {
                let x = self.lower_expression(table, e);
                proof {
                    assert(seen(x));
                }
            },
            HirStatement::Assign { lhs, rhs, op } => {
                let x = self.lower_expression(table, rhs);
                let ghost m = *self;
                proof {
                    assert(seen((m, x)));
                }
                if let Some(rv) = x {
                    match op {
                        None => self.lower_lvalue_write(lhs, rv),
                        Some(bop) => self.lower_compound_assign(table, lhs, *bop, rhs.ty, rv),
                    }
                }
            },
            HirStatement::Return(value) => {
                match value {
                    None => {
                        let _ = self.builder.build_return(None);
                    },
                    Some(e) => {
                        let x = self.lower_expression(table, e);
                        let ghost m = *self;
                        proof {
                            assert(seen((m, x)));
                        }
                        let _ = self.builder.build_return(x);
                    },
                }
            },
            HirStatement::Break(label) => {
                let found = find_loop_context(&self.loop_stack, *label).is_some();
                if found && self.builder.current_block().is_none() {
                    return;
                }
                self.lower_break(*label);
            },
            HirStatement::Continue(label) => self.lower_continue(*label),
            HirStatement::Label { symbol, block } => {
                if !self.has_room() {
                    return;
                }
                let mut name = String::new();
                name.append("label_");
                push_decimal(&mut name, symbol.0 as usize);
                let ghost gname = name;
                let id = self.builder.create_block_with_label(name);
                let ghost m1 = *self;
                match id {
                    Some(blk) => {
                        let _ = self.builder.build_branch(blk);
                        let ghost m3 = *self;
                        self.builder.switch_to_block(blk);
                        let ghost m4 = *self;
                        proof {
                            assert(m4.builder == (IrBuilder { current_block: Some(blk), ..m3.builder }));
                        }
                        self.lower_block(table, block);
                        proof {
                            assert(seen((gname, m1, id, m3, m4)));
                        }
                    },
                    None => {
                        proof {
                            assert(seen((gname, m1, id, m1, m1)));
                        }
                    },
                }
            },
            HirStatement::If { condition, then_branch, else_branch } => {
                let eb = match else_branch {
                    Some(x) => Some(x),
                    None => None,
                };
                self.lower_if_statement(table, condition, then_branch, eb)
            },
            HirStatement::While { condition, body, label } => self.lower_while_loop(table, condition, body, *label),
            HirStatement::DoWhile { body, condition, label } => self.lower_do_while_loop(table, body, condition, *label),
        }
    }

    fn lower_compound_assign(&mut self, table: &TypeTable, lhs: &HirLValue, op: HirBinaryOp, rty: TypeId, rv: IrId)
        requires
            table_converts(table.types@),
        ensures
            crate::body_lowering::frame_kept(*old(self), *final(self)),
            compound_assigned(table.types@, *old(self), *final(self), *lhs, op, rty, rv),
    {
        match lhs {
            HirLValue::Variable(sym) => {
                let l = match lookup_symbol(&self.symbol_map, *sym) {
                    Some(l) => l,
                    None => return,
                };
                if !self.has_room() {
                    return;
                }
                let x = self.builder.build_binop(convert_binary_op(op), l, rv);
                let ghost m1 = *self;
                match x {
                    Some(d) => {
                        proof {
                            assert(converts(table.types@, rty));
                        }
                        let t = convert_type(table, rty);
                        let mut name = String::new();
                        name.append("_binop");
                        push_decimal(&mut name, d.0 as usize);
                        self.push_local(d, name, t, false, IrSourceLocation::unknown());
                        let ghost m2 = *self;
                        self.lower_lvalue_write(lhs, d);
                        proof {
                            assert(seen((m1, x, m2)));
                        }
                    },
                    None => {
                        proof {
                            assert(seen((m1, x, m1)));
                        }
                    },
                }
            },
        }
    }

    pub(crate) fn push_local(&mut self, reg: IrId, name: String, ty: IrType, mutable: bool, loc: IrSourceLocation)
        ensures
            crate::body_lowering::frame_kept(*old(self), *final(self)),
            keeps(*old(self), *final(self)),
            local_pushed(old(self).builder, final(self).builder, reg, name@, ty@, mutable, loc),
    {
        let ghost b0 = self.builder;
        match self.builder.current_function_mut() {
            Some(f) => {
                let ghost l0 = f.locals@;
                f.locals.push((reg, IrLocal { name, ty, mutable, source_location: loc }));
                proof {
                    assert(f.locals@.drop_last() =~= l0);
                }
            },
            None => {},
        }
    }

    /// Writes `value` to `lvalue`.
    pub fn lower_lvalue_write(&mut self, lvalue: &HirLValue, value: IrId)
        ensures
            crate::body_lowering::frame_kept(*old(self), *final(self)),
            lvalue_written(*old(self), *final(self), *lvalue, value),
    {
        match lvalue {
            HirLValue::Variable(symbol) => {
                let old_reg = lookup_symbol(&self.symbol_map, *symbol);
                insert_by_symbol(&mut self.symbol_map, *symbol, value);
                let ghost m = *self;
                proof {
                    assert(seen(m));
                }
                let ty = match self.builder.current_function() {
                    Some(f) => match find_local(&f.locals, value) {
                        Some(_) => None,
                        None => {
                            let carried = match old_reg {
                                Some(r) => match find_local(&f.locals, r) {
                                    Some(l) => Some(l.ty.clone()),
                                    None => None,
                                },
                                None => None,
                            };
                            match carried {
                                Some(t) => Some(t),
                                None => Some(crate::lowering::void_ptr_type()),
                            }
                        },
                    },
                    None => None,
                };
                if let Some(t) = ty {
                    let mut name = String::new();
                    name.append("var_");
                    push_decimal(&mut name, symbol.0 as usize);
                    name.append("_v");
                    push_decimal(&mut name, value.0 as usize);
                    self.push_local(value, name, t, true, IrSourceLocation::unknown());
                }
            },
        }
    }

    /// Binds `value` to `pattern`.
    pub fn bind_pattern(&mut self, pattern: &HirPattern, value: IrId)
        ensures
            crate::body_lowering::frame_kept(*old(self), *final(self)),
            pattern_bound(*old(self), *final(self), *pattern, value),
        decreases pattern,
    {
        match pattern {
            HirPattern::Variable { symbol, .. } => {
                insert_by_symbol(&mut self.symbol_map, *symbol, value);
            },
            HirPattern::Tuple(ps) => {
                let ghost a = *self;
                let mut i: usize = 0;
                while i < ps.len()
                    invariant
                        i <= ps@.len(),
                        elems_bound(a, *self, ps@.take(i as int), value),
                        crate::body_lowering::frame_kept(a, *self),
                        a == *old(self),
                        *pattern is Tuple,
                        pattern->Tuple_0 == *ps,
                    decreases ps@.len() - i,
                {
                    let ghost m = *self;
                    proof {
                        assert(ps@.take(i + 1).drop_last() =~= ps@.take(i as int));
                        assert(ps@.take(i + 1).last() == ps@[i as int]);
                    }
                    if self.has_room() {
                        let mut idx: Vec<u32> = Vec::new();
                        idx.push(i as u32);
                        proof {
                            assert(idx@ =~= seq![i as u32]);
                        }
                        let ghost gidx = idx;
                        let x = self.builder.build_extract_value(value, idx);
                        let ghost m2 = *self;
                        if let Some(e) = x {
                            proof {
                                assert(decreases_to!(*pattern => pattern->Tuple_0));
                                assert(decreases_to!(*ps => ps@));
                                assert(decreases_to!(ps@ => ps@[i as int]));
                            }
                            self.bind_pattern(&ps[i], e);
                        }
                        proof {
                            assert(seen((m, gidx, m2, x)));
                        }
                    } else {
                        proof {
                            assert(seen((m, vstd::pervasive::arbitrary::<Vec<u32>>(), m, None::<IrId>)));
                        }
                    }
                    i = i + 1;
                }
                proof {
                    assert(ps@.take(ps@.len() as int) =~= ps@);
                }
            },
            HirPattern::Constructor { .. } => {
                self.emit_error("Constructor patterns not yet supported in MIR lowering");
            },
            HirPattern::Array { .. } => {
                self.emit_error("Array patterns not yet supported in MIR lowering");
            },
            _ => {},
        }
    }

    /// Binds `value` to the pattern of a declaration whose type is `ty`.
    pub fn bind_pattern_with_type(
        &mut self,
        table: &TypeTable,
        pattern: &HirPattern,
        value: IrId,
        ty: TypeId,
        is_mutable: bool,
    )
        requires
            table_converts(table.types@),
        ensures
            crate::body_lowering::frame_kept(*old(self), *final(self)),
            declared_bound(table.types@, *old(self), *final(self), *pattern, value, ty, is_mutable),
    {
        match pattern {
            HirPattern::Variable { symbol, name } => {
                insert_by_symbol(&mut self.symbol_map, *symbol, value);
                let ghost m = *self;
                proof {
                    assert(seen(m));
                    assert(converts(table.types@, ty));
                }
                let t = convert_type(table, ty);
                self.push_local(value, name.clone(), t, is_mutable, IrSourceLocation::unknown());
            },
            _ => self.bind_pattern(pattern, value),
        }
    }
}

} // verus!

