//! Conditional expressions: the condition branches to a block for each
//! arm, and the arms join in a merge block whose phi nodes give the value
//! of the expression and of each variable an arm rebound.

use vstd::prelude::*;
use crate::body_lowering::{expr_lowered, frame_kept, keeps, rebound, room, stop, table_converts};
use crate::builder::{incoming_added, phi_added, IrBuilder};
use crate::hir::{HirExpr, TypeId, TypeKind, TypeTable};
use crate::ids::{IrBlockId, IrId, SymbolId};
use crate::instructions::IrTerminator;
use crate::lowering::HirToMirContext;
use crate::statements::{
    ended, expr_size, find_local, is_ended, local_of, local_pushed, seen, switched, three_created,
};
use crate::type_metadata::{insert_by_symbol, lookup_symbol, map_get};
use crate::types::IrType;

verus! {

/// Variable `x` is bound in `after`, to another register than in `before`.
pub open spec fn changed_in(before: Seq<(SymbolId, IrId)>, after: Seq<(SymbolId, IrId)>, x: SymbolId) -> bool {
    &&& exists|i: int| 0 <= i < after.len() && #[trigger] after[i].0 == x
    &&& map_get(before, x) != map_get(after, x)
}

/// `mods` lists, once each, the variables that either arm rebound.
pub open spec fn is_changed_list(
    mods: Seq<SymbolId>,
    before: Seq<(SymbolId, IrId)>,
    thenm: Seq<(SymbolId, IrId)>,
    elsem: Seq<(SymbolId, IrId)>,
) -> bool {
    &&& mods.no_duplicates()
    &&& forall|x: SymbolId| #[trigger] mods.contains(x) <==> (changed_in(before, thenm, x) || changed_in(before, elsem, x))
}

/// The first of two optional registers that is there.
pub open spec fn or_reg(a: Option<IrId>, b: Option<IrId>) -> Option<IrId> {
    if a is Some {
        a
    } else {
        b
    }
}

/// What merging variable `x` does at the merge block `mg`: when its
/// register (before, or else after an arm) has a local, and each arm that
/// reaches the merge has a value for it, a phi of the local's type takes
/// the value of each arm that reaches the merge (its register after the
/// arm, else before), is recorded as a local, and holds the variable.
pub open spec fn var_merged(
    m: HirToMirContext,
    b: HirToMirContext,
    mg: IrBlockId,
    x: SymbolId,
    before: Seq<(SymbolId, IrId)>,
    thenm: Seq<(SymbolId, IrId)>,
    elsem: Seq<(SymbolId, IrId)>,
    tt: bool,
    et: bool,
    tend: IrBlockId,
    eend: IrBlockId,
) -> bool {
    let br = map_get(before, x);
    let tr = map_get(thenm, x);
    let er = map_get(elsem, x);
    let look = or_reg(br, or_reg(tr, er));
    let sample = or_reg(tr, or_reg(er, br));
    let locals = m.builder.func().locals@;
    if !m.builder.has_fn() || look is None || local_of(locals, look->0) is None || (!tt && or_reg(tr, br) is None) || (
    !et && or_reg(er, br) is None) || !room(m) {
        b == m
    } else {
        let ty = local_of(locals, look->0)->0.ty;
        exists|w: (IrType, IrBuilder, Option<IrId>, IrBuilder, Option<()>, IrBuilder, Option<()>, HirToMirContext)|
            #![trigger seen(w)]
            {
                &&& w.0@ == ty@
                &&& phi_added(m.builder, w.1, w.2, mg, w.0)
                &&& match w.2 {
                    None => keeps(m, b) && b.builder == w.1,
                    Some(d) => {
                        &&& if !tt {
                            incoming_added(w.1, w.3, w.4, mg, d, tend, or_reg(tr, br)->0)
                        } else {
                            w.3 == w.1
                        }
                        &&& if !et {
                            incoming_added(w.3, w.5, w.6, mg, d, eend, or_reg(er, br)->0)
                        } else {
                            w.5 == w.3
                        }
                        &&& keeps(m, w.7)
                        &&& match local_of(locals, sample->0) {
                            Some(l) => local_pushed(w.5, w.7.builder, d, l.name@ + "_phi"@, ty@, true, l.source_location),
                            None => w.7.builder == w.5,
                        }
                        &&& rebound(w.7, b, x, d)
                    },
                }
            }
    }
}

/// Merging the variables of `mods`, in order.
pub open spec fn vars_merged(
    a: HirToMirContext,
    b: HirToMirContext,
    mg: IrBlockId,
    mods: Seq<SymbolId>,
    before: Seq<(SymbolId, IrId)>,
    thenm: Seq<(SymbolId, IrId)>,
    elsem: Seq<(SymbolId, IrId)>,
    tt: bool,
    et: bool,
    tend: IrBlockId,
    eend: IrBlockId,
) -> bool
    decreases mods.len(),
{
    if mods.len() == 0 {
        b == a
    } else {
        exists|m: HirToMirContext|
            #![trigger seen(m)]
            vars_merged(a, m, mg, mods.drop_last(), before, thenm, elsem, tt, et, tend, eend) && var_merged(
                m,
                b,
                mg,
                mods.last(),
                before,
                thenm,
                elsem,
                tt,
                et,
                tend,
                eend,
            )
    }
}

/// The witnesses of lowering a conditional expression: the states in
/// turn, the values of the condition and of the arms, the variables the
/// arms rebound, and the phi of the result.
pub type CondTrace = (Seq<HirToMirContext>, Option<IrId>, Option<IrId>, Option<IrId>, Seq<SymbolId>, Option<IrId>);

/// What lowering `if condition { then_expr } else { else_expr }` does.
///
/// Blocks are made for the then arm, the else arm and the merge, in that
/// order. The condition is lowered and branches to the arms. Each arm is
/// lowered in its block from the variables as they were before the
/// condition, and jumps to the merge unless it ended already. When some
/// arm reaches the merge, lowering goes on there: the variables the arms
/// rebound are merged (`var_merged`), and when both arms gave a value, an
/// `I32` phi of the value of each arm that reaches the merge is the
/// result. When a step gives nothing, so does the expression.
pub open spec fn cond_lowered(
    types: Seq<(TypeId, TypeKind)>,
    a: HirToMirContext,
    b: HirToMirContext,
    condition: HirExpr,
    then_expr: HirExpr,
    else_expr: HirExpr,
    r: Option<IrId>,
) -> bool
    decreases expr_size(condition) + expr_size(then_expr) + expr_size(else_expr),
{
    if !room(a) || !a.builder.has_fn() {
        stop(a, b, r)
    } else {
        exists|w: CondTrace|
            #![trigger seen(w)]
            {
                let st = w.0;
                let t = IrBlockId(a.builder.func().cfg.next_block_id);
                let el = IrBlockId((t.0 + 1) as u32);
                let mg = IrBlockId((t.0 + 2) as u32);
                let before = st[3].symbol_map@;
                let tt = is_ended(st[7]);
                let et = is_ended(st[11]);
                &&& st.len() == 18
                &&& st[0] == a
                &&& three_created(st, t)
                &&& expr_lowered(types, st[3], st[4], condition, w.1)
                &&& match w.1 {
                    None => stop(st[4], b, r),
                    Some(cv) => if !st[4].builder.has_block() {
                        stop(st[4], b, r)
                    } else {
                        &&& ended(st[4], st[5], IrTerminator::CondBranch { condition: cv, true_target: t, false_target: el })
                        &&& switched(st[5], st[6], t)
                        &&& expr_lowered(types, st[6], st[7], then_expr, w.2)
                        &&& if !tt && !st[7].builder.has_block() {
                            stop(st[7], b, r)
                        } else {
                            &&& if tt {
                                st[8] == st[7]
                            } else {
                                ended(st[7], st[8], IrTerminator::Branch { target: mg })
                            }
                            &&& match st[8].builder.cur_block() {
                                None => stop(st[8], b, r),
                                Some(tend) => {
                                    &&& st[9] == (HirToMirContext { symbol_map: st[9].symbol_map, ..st[8] })
                                    &&& st[9].symbol_map@ == before
                                    &&& switched(st[9], st[10], el)
                                    &&& expr_lowered(types, st[10], st[11], else_expr, w.3)
                                    &&& if !et && !st[11].builder.has_block() {
                                        stop(st[11], b, r)
                                    } else {
                                        &&& if et {
                                            st[12] == st[11]
                                        } else {
                                            ended(st[11], st[12], IrTerminator::Branch { target: mg })
                                        }
                                        &&& match st[12].builder.cur_block() {
                                            None => stop(st[12], b, r),
                                            Some(eend) => if tt && et {
                                                stop(st[12], b, r)
                                            } else {
                                                let thenm = st[8].symbol_map@;
                                                let elsem = st[12].symbol_map@;
                                                &&& switched(st[12], st[13], mg)
                                                &&& is_changed_list(w.4, before, thenm, elsem)
                                                &&& vars_merged(st[13], st[14], mg, w.4, before, thenm, elsem, tt, et, tend, eend)
                                                &&& if w.2 is Some && w.3 is Some {
                                                    if !room(st[14]) {
                                                        stop(st[14], b, r)
                                                    } else {
                                                        &&& keeps(st[14], st[15])
                                                        &&& phi_added(st[14].builder, st[15].builder, w.5, mg, IrType::I32)
                                                        &&& match w.5 {
                                                            None => stop(st[15], b, r),
                                                            Some(res) => {
                                                                &&& r == Some(res)
                                                                &&& keeps(st[15], st[16])
                                                                &&& (if !tt {
                                                                    exists|u: Option<()>| #![trigger seen(u)] incoming_added(st[15].builder, st[16].builder, u, mg, res, tend, w.2->0)
                                                                } else {
                                                                    st[16] == st[15]
                                                                })
                                                                &&& keeps(st[16], b)
                                                                &&& (if !et {
                                                                    exists|u: Option<()>| #![trigger seen(u)] incoming_added(st[16].builder, b.builder, u, mg, res, eend, w.3->0)
                                                                } else {
                                                                    b == st[16]
                                                                })
                                                            },
                                                        }
                                                    }
                                                } else {
                                                    stop(st[14], b, r)
                                                }
                                            },
                                        }
                                    }
                                },
                            }
                        }
                    },
                }
            }
    }
}

fn has_symbol(v: &Vec<SymbolId>, x: SymbolId) -> (r: bool)
    ensures
        r == v@.contains(x),
{
    let mut i: usize = 0;
    while i < v.len()
        invariant
            i <= v@.len(),
            forall|j: int| 0 <= j < i ==> v@[j] != x,
        decreases v@.len() - i,
    {
        if v[i] == x {
            proof {
                assert(v@[i as int] == x);
            }
            return true;
        }
        i = i + 1;
    }
    false
}

fn same_reg(a: Option<IrId>, b: Option<IrId>) -> (r: bool)
    ensures
        r == (a == b),
{
    match (a, b) {
        (Some(x), Some(y)) => x == y,
        (None, None) => true,
        _ => false,
    }
}

fn first_reg(a: Option<IrId>, b: Option<IrId>) -> (r: Option<IrId>)
    ensures
        r == or_reg(a, b),
{
    match a {
        Some(_) => a,
        None => b,
    }
}

/// Adds to `mods` the variables of `after` bound to another register than
/// in `before`, each once.
fn add_changed(mods: &mut Vec<SymbolId>, before: &Vec<(SymbolId, IrId)>, after: &Vec<(SymbolId, IrId)>)
    requires
        old(mods)@.no_duplicates(),
    ensures
        final(mods)@.no_duplicates(),
        forall|x: SymbolId| #[trigger] final(mods)@.contains(x) <==> (old(mods)@.contains(x) || changed_in(before@, after@, x)),
{
    let mut i: usize = 0;
    while i < after.len()
        invariant
            i <= after@.len(),
            mods@.no_duplicates(),
            forall|x: SymbolId|
                #[trigger] mods@.contains(x) <==> (old(mods)@.contains(x) || ((exists|j: int| 0 <= j < i && #[trigger] after@[j].0 == x)
                    && map_get(before@, x) != map_get(after@, x))),
        decreases after@.len() - i,
    {
        let x = after[i].0;
        let changed = !same_reg(lookup_symbol(before, x), lookup_symbol(after, x));
        let ghost m0 = mods@;
        if changed && !has_symbol(mods, x) {
            mods.push(x);
            proof {
                assert forall|y: SymbolId| #[trigger] mods@.contains(y) <==> (m0.contains(y) || y == x) by {
                    if mods@.contains(y) {
                        let k = choose|k: int| 0 <= k < mods@.len() && mods@[k] == y;
                        if k < m0.len() {
                            assert(m0[k] == y);
                        }
                    }
                    if m0.contains(y) {
                        let k = choose|k: int| 0 <= k < m0.len() && m0[k] == y;
                        assert(mods@[k] == y);
                    }
                    if y == x {
                        assert(mods@[m0.len() as int] == y);
                    }
                }
            }
        }
        proof {
            assert forall|y: SymbolId|
                #[trigger] mods@.contains(y) <==> (old(mods)@.contains(y) || ((exists|j: int| 0 <= j < i + 1 && #[trigger] after@[j].0 == y)
                    && map_get(before@, y) != map_get(after@, y))) by {
                if y == x {
                    assert(after@[i as int].0 == y);
                }
                if exists|j: int| 0 <= j < i + 1 && #[trigger] after@[j].0 == y {
                    let j = choose|j: int| 0 <= j < i + 1 && #[trigger] after@[j].0 == y;
                    if j < i {
                    } else {
                        assert(y == x);
                    }
                }
            }
        }
        i = i + 1;
    }
}

/// The witnesses of lowering `&&` or `||`: the states in turn, the values
/// of the left side, of the constant, of the right side and of the
/// result, and what adding each incoming value gave.
pub type LogicTrace = (Seq<HirToMirContext>, Option<IrId>, Option<IrId>, Option<IrId>, Option<IrId>, Option<()>, Option<()>);

/// What lowering `lhs && rhs` (`is_and`) or `lhs || rhs` does: blocks are
/// made to evaluate the right side and to merge. The left side is lowered,
/// then the constant `false` (`true` for `||`); the left side's value
/// branches to the right side's block, or straight to the merge when it
/// decides the result (false for `&&`, true for `||`). The right side is
/// lowered in its block, which jumps to the merge. There a `Bool` phi
/// takes the constant from where the left side ended and the right side's
/// value from where it ended. When a step gives nothing, so does the
/// expression.
pub open spec fn logic_lowered(
    types: Seq<(TypeId, TypeKind)>,
    a: HirToMirContext,
    b: HirToMirContext,
    is_and: bool,
    lhs: HirExpr,
    rhs: HirExpr,
    r: Option<IrId>,
) -> bool
    decreases expr_size(lhs) + expr_size(rhs),
{
    if !room(a) || !a.builder.has_fn() {
        stop(a, b, r)
    } else {
        exists|w: LogicTrace|
            #![trigger seen(w)]
            {
                let st = w.0;
                let ev = IrBlockId(a.builder.func().cfg.next_block_id);
                let mg = IrBlockId((ev.0 + 1) as u32);
                &&& st.len() == 12
                &&& st[0] == a
                &&& crate::statements::created(st[0], st[1], ev)
                &&& crate::statements::created(st[1], st[2], mg)
                &&& expr_lowered(types, st[2], st[3], lhs, w.1)
                &&& match w.1 {
                    None => stop(st[3], b, r),
                    Some(l) => if !room(st[3]) {
                        stop(st[3], b, r)
                    } else {
                        &&& crate::body_lowering::step(
                            st[3],
                            st[4],
                            w.2,
                            |d: IrId| crate::instructions::IrInstruction::Const { dest: d, value: crate::types::IrValue::Bool(!is_and) },
                        )
                        &&& match (w.2, st[4].builder.cur_block()) {
                            (Some(k), Some(lb)) => if !st[4].builder.has_block() {
                                stop(st[4], b, r)
                            } else {
                                &&& ended(
                                    st[4],
                                    st[5],
                                    IrTerminator::CondBranch {
                                        condition: l,
                                        true_target: if is_and { ev } else { mg },
                                        false_target: if is_and { mg } else { ev },
                                    },
                                )
                                &&& switched(st[5], st[6], ev)
                                &&& expr_lowered(types, st[6], st[7], rhs, w.3)
                                &&& match (w.3, st[7].builder.cur_block()) {
                                    (Some(rv), Some(rb)) => if !st[7].builder.has_block() {
                                        stop(st[7], b, r)
                                    } else {
                                        &&& ended(st[7], st[8], IrTerminator::Branch { target: mg })
                                        &&& switched(st[8], st[9], mg)
                                        &&& if !room(st[9]) {
                                            stop(st[9], b, r)
                                        } else {
                                            &&& keeps(st[9], st[10])
                                            &&& phi_added(st[9].builder, st[10].builder, w.4, mg, IrType::Bool)
                                            &&& match w.4 {
                                                None => stop(st[10], b, r),
                                                Some(p) => {
                                                    &&& keeps(st[10], st[11])
                                                    &&& incoming_added(st[10].builder, st[11].builder, w.5, mg, p, lb, k)
                                                    &&& match w.5 {
                                                        None => stop(st[11], b, r),
                                                        Some(_) => {
                                                            &&& keeps(st[11], b)
                                                            &&& incoming_added(st[11].builder, b.builder, w.6, mg, p, rb, rv)
                                                            &&& r == if w.6 is Some { Some(p) } else { None }
                                                        },
                                                    }
                                                },
                                            }
                                        }
                                    },
                                    _ => stop(st[7], b, r),
                                }
                            },
                            _ => stop(st[4], b, r),
                        }
                    },
                }
            }
    }
}

impl HirToMirContext {
    /// Lowers `lhs && rhs` (`is_and`) or `lhs || rhs`, evaluating the right
    /// side only when the left side does not decide the result.
    pub fn lower_logical(&mut self, table: &TypeTable, is_and: bool, lhs: &HirExpr, rhs: &HirExpr) -> (r: Option<IrId>)
        requires
            table_converts(table.types@),
        ensures
            logic_lowered(table.types@, *old(self), *final(self), is_and, *lhs, *rhs, r),
            frame_kept(*old(self), *final(self)),
        decreases expr_size(*lhs) + expr_size(*rhs),
    {
        let ghost a = *self;
        if !self.has_room() || self.builder.current_function().is_none() {
            return None;
        }
        let eval_rhs = match self.new_block() {
            Some(x) => x,
            None => return None,
        };
        let ghost s1 = *self;
        let merge = match self.new_block() {
            Some(x) => x,
            None => return None,
        };
        let ghost s2 = *self;
        let lv = self.lower_expression(table, lhs);
        let ghost s3 = *self;
        let l = match lv {
            Some(l) => l,
            None => {
                proof {
                    let st = seq![a, s1, s2, s3, s3, s3, s3, s3, s3, s3, s3, s3];
                    assert(seen((st, lv, None::<IrId>, None::<IrId>, None::<IrId>, None::<()>, None::<()>)));
                }
                return None;
            },
        };
        if !self.has_room() {
            proof {
                let st = seq![a, s1, s2, s3, s3, s3, s3, s3, s3, s3, s3, s3];
                assert(seen((st, lv, None::<IrId>, None::<IrId>, None::<IrId>, None::<()>, None::<()>)));
            }
            return None;
        }
        let kv = self.builder.build_bool(!is_and);
        let ghost s4 = *self;
        let (k, lb) = match (kv, self.builder.current_block()) {
            (Some(k), Some(lb)) => (k, lb),
            _ => {
                proof {
                    let st = seq![a, s1, s2, s3, s4, s4, s4, s4, s4, s4, s4, s4];
                    assert(seen((st, lv, kv, None::<IrId>, None::<IrId>, None::<()>, None::<()>)));
                }
                return None;
            },
        };
        let (tt, ft) = if is_and { (eval_rhs, merge) } else { (merge, eval_rhs) };
        if self.builder.build_cond_branch(l, tt, ft).is_none() {
            proof {
                let st = seq![a, s1, s2, s3, s4, s4, s4, s4, s4, s4, s4, s4];
                assert(seen((st, lv, kv, None::<IrId>, None::<IrId>, None::<()>, None::<()>)));
            }
            return None;
        }
        let ghost s5 = *self;
        self.builder.switch_to_block(eval_rhs);
        let ghost s6 = *self;
        proof {
            assert(s6.builder == (IrBuilder { current_block: Some(eval_rhs), ..s5.builder }));
        }
        let rv = self.lower_expression(table, rhs);
        let ghost s7 = *self;
        let (rval, rb) = match (rv, self.builder.current_block()) {
            (Some(x), Some(y)) => (x, y),
            _ => {
                proof {
                    let st = seq![a, s1, s2, s3, s4, s5, s6, s7, s7, s7, s7, s7];
                    assert(seen((st, lv, kv, rv, None::<IrId>, None::<()>, None::<()>)));
                }
                return None;
            },
        };
        if self.builder.build_branch(merge).is_none() {
            proof {
                let st = seq![a, s1, s2, s3, s4, s5, s6, s7, s7, s7, s7, s7];
                assert(seen((st, lv, kv, rv, None::<IrId>, None::<()>, None::<()>)));
            }
            return None;
        }
        let ghost s8 = *self;
        self.builder.switch_to_block(merge);
        let ghost s9 = *self;
        proof {
            assert(s9.builder == (IrBuilder { current_block: Some(merge), ..s8.builder }));
        }
        if !self.has_room() {
            proof {
                let st = seq![a, s1, s2, s3, s4, s5, s6, s7, s8, s9, s9, s9];
                assert(seen((st, lv, kv, rv, None::<IrId>, None::<()>, None::<()>)));
            }
            return None;
        }
        let res = self.builder.build_phi(merge, IrType::Bool);
        let ghost s10 = *self;
        let p = match res {
            Some(p) => p,
            None => {
                proof {
                    let st = seq![a, s1, s2, s3, s4, s5, s6, s7, s8, s9, s10, s10];
                    assert(seen((st, lv, kv, rv, res, None::<()>, None::<()>)));
                }
                return None;
            },
        };
        let u1 = self.builder.add_phi_incoming(merge, p, lb, k);
        let ghost s11 = *self;
        if u1.is_none() {
            proof {
                let st = seq![a, s1, s2, s3, s4, s5, s6, s7, s8, s9, s10, s11];
                assert(seen((st, lv, kv, rv, res, u1, None::<()>)));
            }
            return None;
        }
        let u2 = self.builder.add_phi_incoming(merge, p, rb, rval);
        proof {
            let st = seq![a, s1, s2, s3, s4, s5, s6, s7, s8, s9, s10, s11];
            assert(seen((st, lv, kv, rv, res, u1, u2)));
        }
        match u2 {
            Some(_) => Some(p),
            None => None,
        }
    }

    fn merge_var(
        &mut self,
        mg: IrBlockId,
        x: SymbolId,
        before: &Vec<(SymbolId, IrId)>,
        thenm: &Vec<(SymbolId, IrId)>,
        elsem: &Vec<(SymbolId, IrId)>,
        tt: bool,
        et: bool,
        tend: IrBlockId,
        eend: IrBlockId,
    )
        ensures
            var_merged(*old(self), *final(self), mg, x, before@, thenm@, elsem@, tt, et, tend, eend),
            frame_kept(*old(self), *final(self)),
    {
        let br = lookup_symbol(before, x);
        let tr = lookup_symbol(thenm, x);
        let er = lookup_symbol(elsem, x);
        let look = first_reg(br, first_reg(tr, er));
        let sample = first_reg(tr, first_reg(er, br));
        let tv = first_reg(tr, br);
        let ev = first_reg(er, br);
        let (lty, sample_local) = match self.builder.current_function() {
            Some(f) => {
                let lty = match look {
                    Some(r) => match find_local(&f.locals, r) {
                        Some(l) => l.ty.clone(),
                        None => return,
                    },
                    None => return,
                };
                let sl = match sample {
                    Some(sr) => match find_local(&f.locals, sr) {
                        Some(l) => Some((l.name.clone(), l.source_location)),
                        None => None,
                    },
                    None => None,
                };
                (lty, sl)
            },
            None => return,
        };
        if (!tt && tv.is_none()) || (!et && ev.is_none()) || !self.has_room() {
            return;
        }
        let ghost m = *self;
        let t2 = lty.clone();
        let ghost gt = lty;
        let p = self.builder.build_phi(mg, lty);
        let ghost b1 = self.builder;
        match p {
            None => {
                proof {
                    assert(seen((gt, b1, p, b1, None::<()>, b1, None::<()>, *self)));
                }
            },
            Some(d) => {
                let u1 = if !tt {
                    match tv {
                        Some(v) => self.builder.add_phi_incoming(mg, d, tend, v),
                        None => None,
                    }
                } else {
                    None
                };
                let ghost b2 = self.builder;
                let u2 = if !et {
                    match ev {
                        Some(v) => self.builder.add_phi_incoming(mg, d, eend, v),
                        None => None,
                    }
                } else {
                    None
                };
                let ghost b3 = self.builder;
                match sample_local {
                    Some((n, loc)) => {
                        let mut name = n;
                        name.append("_phi");
                        self.push_local(d, name, t2, true, loc);
                    },
                    None => {},
                }
                let ghost m4 = *self;
                insert_by_symbol(&mut self.symbol_map, x, d);
                proof {
                    assert(seen((gt, b1, p, b2, u1, b3, u2, m4)));
                }
            },
        }
    }

    fn merge_vars(
        &mut self,
        mg: IrBlockId,
        mods: &Vec<SymbolId>,
        before: &Vec<(SymbolId, IrId)>,
        thenm: &Vec<(SymbolId, IrId)>,
        elsem: &Vec<(SymbolId, IrId)>,
        tt: bool,
        et: bool,
        tend: IrBlockId,
        eend: IrBlockId,
    )
        ensures
            vars_merged(*old(self), *final(self), mg, mods@, before@, thenm@, elsem@, tt, et, tend, eend),
            frame_kept(*old(self), *final(self)),
    {
        let ghost a = *self;
        let mut i: usize = 0;
        while i < mods.len()
            invariant
                i <= mods@.len(),
                a == *old(self),
                frame_kept(a, *self),
                vars_merged(a, *self, mg, mods@.take(i as int), before@, thenm@, elsem@, tt, et, tend, eend),
            decreases mods@.len() - i,
        {
            let ghost m = *self;
            proof {
                assert(mods@.take(i + 1).drop_last() =~= mods@.take(i as int));
                assert(mods@.take(i + 1).last() == mods@[i as int]);
                assert(seen(m));
            }
            self.merge_var(mg, mods[i], before, thenm, elsem, tt, et, tend, eend);
            i = i + 1;
        }
        proof {
            assert(mods@.take(mods@.len() as int) =~= mods@);
        }
    }

    /// Lowers `if condition { then_expr } else { else_expr }`, giving the
    /// register that holds its value.
    #[verifier::rlimit(60)]
    pub fn lower_conditional(
        &mut self,
        table: &TypeTable,
        condition: &HirExpr,
        then_expr: &HirExpr,
        else_expr: &HirExpr,
    ) -> (r: Option<IrId>)
        requires
            table_converts(table.types@),
        ensures
            cond_lowered(table.types@, *old(self), *final(self), *condition, *then_expr, *else_expr, r),
            frame_kept(*old(self), *final(self)),
        decreases expr_size(*condition) + expr_size(*then_expr) + expr_size(*else_expr),
    {
        let ghost a = *self;
        if !self.has_room() || self.builder.current_function().is_none() {
            return None;
        }
        let ghost t = IrBlockId(a.builder.func().cfg.next_block_id);
        let then_block = match self.new_block() {
            Some(x) => x,
            None => return None,
        };
        let ghost s1 = *self;
        let else_block = match self.new_block() {
            Some(x) => x,
            None => return None,
        };
        let ghost s2 = *self;
        let merge_block = match self.new_block() {
            Some(x) => x,
            None => return None,
        };
        let ghost s3 = *self;
        proof {
            assert(three_created(seq![a, s1, s2, s3], t));
        }
        let before = Self::copy_binds(&self.symbol_map);
        let cv = self.lower_expression(table, condition);
        let ghost s4 = *self;
        let c = match cv {
            Some(c) => c,
            None => {
                proof {
                    let st = seq![a, s1, s2, s3, s4, s4, s4, s4, s4, s4, s4, s4, s4, s4, s4, s4, s4, s4];
                    assert(three_created(st, t));
                    assert(seen((st, cv, None::<IrId>, None::<IrId>, Seq::<SymbolId>::empty(), None::<IrId>)));
                }
                return None;
            },
        };
        if self.builder.build_cond_branch(c, then_block, else_block).is_none() {
            proof {
                let st = seq![a, s1, s2, s3, s4, s4, s4, s4, s4, s4, s4, s4, s4, s4, s4, s4, s4, s4];
                assert(three_created(st, t));
                assert(seen((st, cv, None::<IrId>, None::<IrId>, Seq::<SymbolId>::empty(), None::<IrId>)));
            }
            return None;
        }
        let ghost s5 = *self;
        self.builder.switch_to_block(then_block);
        let ghost s6 = *self;
        proof {
            assert(s6.builder == (IrBuilder { current_block: Some(then_block), ..s5.builder }));
        }
        let tv = self.lower_expression(table, then_expr);
        let ghost s7 = *self;
        let tt = self.is_terminated();
        if !tt {
            if self.builder.build_branch(merge_block).is_none() {
                proof {
                    let st = seq![a, s1, s2, s3, s4, s5, s6, s7, s7, s7, s7, s7, s7, s7, s7, s7, s7, s7];
                    assert(three_created(st, t));
                    assert(seen((st, cv, tv, None::<IrId>, Seq::<SymbolId>::empty(), None::<IrId>)));
                }
                return None;
            }
        }
        let ghost s8 = *self;
        let tend = match self.builder.current_block() {
            Some(x) => x,
            None => {
                proof {
                    let st = seq![a, s1, s2, s3, s4, s5, s6, s7, s8, s8, s8, s8, s8, s8, s8, s8, s8, s8];
                    assert(three_created(st, t));
                    assert(seen((st, cv, tv, None::<IrId>, Seq::<SymbolId>::empty(), None::<IrId>)));
                }
                return None;
            },
        };
        let thenm = Self::copy_binds(&self.symbol_map);
        self.symbol_map = Self::copy_binds(&before);
        let ghost s9 = *self;
        self.builder.switch_to_block(else_block);
        let ghost s10 = *self;
        proof {
            assert(s10.builder == (IrBuilder { current_block: Some(else_block), ..s9.builder }));
        }
        let ev = self.lower_expression(table, else_expr);
        let ghost s11 = *self;
        let et = self.is_terminated();
        if !et {
            if self.builder.build_branch(merge_block).is_none() {
                proof {
                    let st = seq![a, s1, s2, s3, s4, s5, s6, s7, s8, s9, s10, s11, s11, s11, s11, s11, s11, s11];
                    assert(three_created(st, t));
                    assert(seen((st, cv, tv, ev, Seq::<SymbolId>::empty(), None::<IrId>)));
                }
                return None;
            }
        }
        let ghost s12 = *self;
        let eend = match self.builder.current_block() {
            Some(x) => x,
            None => {
                proof {
                    let st = seq![a, s1, s2, s3, s4, s5, s6, s7, s8, s9, s10, s11, s12, s12, s12, s12, s12, s12];
                    assert(three_created(st, t));
                    assert(seen((st, cv, tv, ev, Seq::<SymbolId>::empty(), None::<IrId>)));
                }
                return None;
            },
        };
        if tt && et {
            proof {
                let st = seq![a, s1, s2, s3, s4, s5, s6, s7, s8, s9, s10, s11, s12, s12, s12, s12, s12, s12];
                assert(three_created(st, t));
                assert(seen((st, cv, tv, ev, Seq::<SymbolId>::empty(), None::<IrId>)));
            }
            return None;
        }
        let elsem = Self::copy_binds(&self.symbol_map);
        self.builder.switch_to_block(merge_block);
        let ghost s13 = *self;
        proof {
            assert(s13.builder == (IrBuilder { current_block: Some(merge_block), ..s12.builder }));
        }
        let mut mods: Vec<SymbolId> = Vec::new();
        add_changed(&mut mods, &before, &thenm);
        add_changed(&mut mods, &before, &elsem);
        self.merge_vars(merge_block, &mods, &before, &thenm, &elsem, tt, et, tend, eend);
        let ghost s14 = *self;
        let (tvv, evv) = match (tv, ev) {
            (Some(x), Some(y)) => (x, y),
            _ => {
                proof {
                    let st = seq![a, s1, s2, s3, s4, s5, s6, s7, s8, s9, s10, s11, s12, s13, s14, s14, s14, s14];
                    assert(three_created(st, t));
                    assert(seen((st, cv, tv, ev, mods@, None::<IrId>)));
                }
                return None;
            },
        };
        if !self.has_room() {
            proof {
                let st = seq![a, s1, s2, s3, s4, s5, s6, s7, s8, s9, s10, s11, s12, s13, s14, s14, s14, s14];
                assert(three_created(st, t));
                assert(seen((st, cv, tv, ev, mods@, None::<IrId>)));
            }
            return None;
        }
        let res = self.builder.build_phi(merge_block, IrType::I32);
        let ghost s15 = *self;
        let rr = match res {
            Some(x) => x,
            None => {
                proof {
                    let st = seq![a, s1, s2, s3, s4, s5, s6, s7, s8, s9, s10, s11, s12, s13, s14, s15, s15, s15];
                    assert(three_created(st, t));
                    assert(seen((st, cv, tv, ev, mods@, res)));
                }
                return None;
            },
        };
        if !tt {
            let u = self.builder.add_phi_incoming(merge_block, rr, tend, tvv);
            proof {
                assert(seen(u));
            }
        }
        let ghost s16 = *self;
        if !et {
            let u = self.builder.add_phi_incoming(merge_block, rr, eend, evv);
            proof {
                assert(seen(u));
            }
        }
        proof {
            let st = seq![a, s1, s2, s3, s4, s5, s6, s7, s8, s9, s10, s11, s12, s13, s14, s15, s16, *self];
            assert(three_created(st, t));
            assert(seen((st, cv, tv, ev, mods@, res)));
        }
        Some(rr)
    }
}

} // verus!
