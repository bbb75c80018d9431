//! Testing a value against a pattern: the code that computes whether the
//! value matches, binding the variables the pattern names on the way.

use vstd::prelude::*;
use crate::body_lowering::{literal_lowered, rebound, room, step, stop, table_converts};
use crate::hir::{HirLiteral, HirPattern, TypeId, TypeKind, TypeTable};
use crate::ids::IrId;
use crate::instructions::IrInstruction;
use crate::lowering::HirToMirContext;
use crate::statements::seen;
use crate::type_metadata::insert_by_symbol;
use crate::types::{BinaryOp, CompareOp, IrType, IrValue};

verus! {

/// `b` is `a` after `mk(dest)` was emitted, or nothing changed when the
/// function being built has no registers left.
pub open spec fn emitted(a: HirToMirContext, b: HirToMirContext, r: Option<IrId>, mk: spec_fn(IrId) -> IrInstruction) -> bool {
    if room(a) {
        step(a, b, r, mk)
    } else {
        stop(a, b, r)
    }
}

/// The type a literal of a pattern is lowered with.
pub open spec fn literal_type(lit: HirLiteral) -> TypeId {
    match lit {
        HirLiteral::Bool(_) => TypeId(3),
        HirLiteral::String(_) => TypeId(4),
        _ => TypeId(1),
    }
}

/// `b` is `a` after reading slot `k` of the value `s` as a value of type
/// `ty` (through a pointer of type `pty`), giving `r`.
pub open spec fn slot_read(a: HirToMirContext, b: HirToMirContext, s: IrId, k: i64, pty: IrType, ty: IrType, r: Option<IrId>) -> bool {
    exists|w: (HirToMirContext, Option<IrId>, Vec<IrId>, HirToMirContext, Option<IrId>)|
        #![trigger seen(w)]
        emitted(a, w.0, w.1, |d: IrId| IrInstruction::Const { dest: d, value: IrValue::I64(k) }) && match w.1 {
            None => stop(w.0, b, r),
            Some(c) => {
                &&& w.2@ == seq![c]
                &&& emitted(w.0, w.3, w.4, |d: IrId| IrInstruction::GetElementPtr { dest: d, ptr: s, indices: w.2, ty: pty })
                &&& match w.4 {
                    None => stop(w.3, b, r),
                    Some(p) => emitted(w.3, b, r, |d: IrId| IrInstruction::Load { dest: d, ptr: p, ty }),
                }
            },
        }
}

/// The pointer type of a slot of type `ty`.
pub open spec fn ptr_to(ty: IrType) -> IrType {
    IrType::Ptr(Box::new(ty))
}

/// The tag a constructor pattern compares against: the length of the
/// variant's name.
pub open spec fn variant_tag(variant: String) -> i32 {
    variant@.len() as i32
}

/// What testing `s` against `p` does, giving the register that holds
/// whether it matches: a variable (bound to `s`) or a wildcard matches;
/// a literal is compared with `s`; a constructor compares the tag in slot
/// 0 and then tests its fields; a tuple tests its elements; an array
/// checks its length in slot 0 (exactly, or at least, with a rest
/// pattern) and tests its elements. The tests of parts are combined with
/// `And`, in order; when a step gives nothing, so does the test.
pub open spec fn pattern_tested(
    types: Seq<(TypeId, TypeKind)>,
    a: HirToMirContext,
    b: HirToMirContext,
    s: IrId,
    p: HirPattern,
    r: Option<IrId>,
) -> bool
    decreases p,
{
    match p {
        HirPattern::Variable { symbol, .. } => exists|m: HirToMirContext|
            #![trigger seen(m)]
            rebound(a, m, symbol, s) && emitted(m, b, r, |d: IrId| IrInstruction::Const { dest: d, value: IrValue::Bool(true) }),
        HirPattern::Wildcard => emitted(a, b, r, |d: IrId| IrInstruction::Const { dest: d, value: IrValue::Bool(true) }),
        HirPattern::Literal(lit) => exists|w: (HirToMirContext, Option<IrId>)|
            #![trigger seen(w)]
            literal_lowered(types, a, w.0, lit, literal_type(lit), w.1) && match w.1 {
                None => stop(w.0, b, r),
                Some(v) => emitted(w.0, b, r, |d: IrId| IrInstruction::Cmp { dest: d, op: CompareOp::Eq, left: s, right: v }),
            },
        HirPattern::Constructor { variant, fields } => exists|w: (HirToMirContext, Option<IrId>, HirToMirContext, Option<IrId>, HirToMirContext, Option<IrId>)|
            #![trigger seen(w)]
            slot_read(a, w.0, s, 0, ptr_to(IrType::I32), IrType::I32, w.1) && match w.1 {
                None => stop(w.0, b, r),
                Some(tag) => emitted(
                    w.0,
                    w.2,
                    w.3,
                    |d: IrId| IrInstruction::Const { dest: d, value: IrValue::I32(variant_tag(variant)) },
                ) && match w.3 {
                    None => stop(w.2, b, r),
                    Some(et) => emitted(
                        w.2,
                        w.4,
                        w.5,
                        |d: IrId| IrInstruction::Cmp { dest: d, op: CompareOp::Eq, left: tag, right: et },
                    ) && match w.5 {
                        None => stop(w.4, b, r),
                        Some(tm) => elems_tested(types, w.4, b, s, fields@, 1, tm, r),
                    },
                },
            },
        HirPattern::Tuple(ps) => exists|w: (HirToMirContext, Option<IrId>)|
            #![trigger seen(w)]
            emitted(a, w.0, w.1, |d: IrId| IrInstruction::Const { dest: d, value: IrValue::Bool(true) }) && match w.1 {
                None => stop(w.0, b, r),
                Some(t) => elems_tested(types, w.0, b, s, ps@, 0, t, r),
            },
        HirPattern::Array { elements, rest } => exists|w: (Seq<HirToMirContext>, Seq<Option<IrId>>)|
            #![trigger seen(w)]
            {
                let st = w.0;
                let x = w.1;
                &&& st.len() == 5
                &&& x.len() == 5
                &&& slot_read(a, st[0], s, 0, ptr_to(IrType::I64), IrType::I64, x[0])
                &&& match x[0] {
                    None => stop(st[0], b, r),
                    Some(len) => emitted(
                        st[0],
                        st[1],
                        x[1],
                        |d: IrId| IrInstruction::Const { dest: d, value: IrValue::Bool(true) },
                    ) && match x[1] {
                        None => stop(st[1], b, r),
                        Some(t) => emitted(
                            st[1],
                            st[2],
                            x[2],
                            |d: IrId| IrInstruction::Const { dest: d, value: IrValue::I64(elements@.len() as i64) },
                        ) && match x[2] {
                            None => stop(st[2], b, r),
                            Some(n) => emitted(
                                st[2],
                                st[3],
                                x[3],
                                |d: IrId|
                                    IrInstruction::Cmp {
                                        dest: d,
                                        op: if rest is None {
                                            CompareOp::Eq
                                        } else {
                                            CompareOp::Ge
                                        },
                                        left: len,
                                        right: n,
                                    },
                            ) && match x[3] {
                                None => stop(st[3], b, r),
                                Some(lm) => emitted(
                                    st[3],
                                    st[4],
                                    x[4],
                                    |d: IrId| IrInstruction::BinOp { dest: d, op: BinaryOp::And, left: t, right: lm },
                                ) && match x[4] {
                                    None => stop(st[4], b, r),
                                    Some(acc) => elems_tested(types, st[4], b, s, elements@, 1, acc, r),
                                },
                            },
                        },
                    },
                }
            },
    }
}

/// Testing the parts of `s`, slot `off + i` against `ps[i]` in order,
/// each read as `Any`, and combining each result with the test so far,
/// which starts as `acc`.
pub open spec fn elems_tested(
    types: Seq<(TypeId, TypeKind)>,
    a: HirToMirContext,
    b: HirToMirContext,
    s: IrId,
    ps: Seq<HirPattern>,
    off: int,
    acc: IrId,
    r: Option<IrId>,
) -> bool
    decreases ps,
{
    if ps.len() == 0 {
        b == a && r == Some(acc)
    } else {
        exists|w: (HirToMirContext, Option<IrId>, HirToMirContext, Option<IrId>, HirToMirContext, Option<IrId>)|
            #![trigger seen(w)]
            elems_tested(types, a, w.0, s, ps.drop_last(), off, acc, w.1) && match w.1 {
                None => stop(w.0, b, r),
                Some(before) => slot_read(w.0, w.2, s, (off + ps.len() - 1) as i64, ptr_to(IrType::Any), IrType::Any, w.3)
                    && match w.3 {
                    None => stop(w.2, b, r),
                    Some(v) => pattern_tested(types, w.2, w.4, v, ps.last(), w.5) && match w.5 {
                        None => stop(w.4, b, r),
                        Some(m) => emitted(
                            w.4,
                            b,
                            r,
                            |d: IrId| IrInstruction::BinOp { dest: d, op: BinaryOp::And, left: before, right: m },
                        ),
                    },
                },
            }
    }
}

/// Once testing the parts gave nothing, testing more parts gives nothing
/// and changes nothing more.
proof fn lemma_elems_stopped(
    types: Seq<(TypeId, TypeKind)>,
    a: HirToMirContext,
    b: HirToMirContext,
    s: IrId,
    ps: Seq<HirPattern>,
    off: int,
    acc: IrId,
    k: int,
)
    requires
        0 <= k <= ps.len(),
        elems_tested(types, a, b, s, ps.take(k), off, acc, None),
    ensures
        elems_tested(types, a, b, s, ps, off, acc, None),
    decreases ps.len() - k,
{
    if k < ps.len() {
        let next = ps.take(k + 1);
        assert(next.drop_last() =~= ps.take(k));
        let w = (b, None::<IrId>, b, None::<IrId>, b, None::<IrId>);
        assert(seen(w));
        assert(elems_tested(types, a, b, s, next, off, acc, None));
        lemma_elems_stopped(types, a, b, s, ps, off, acc, k + 1);
    } else {
        assert(ps.take(k) =~= ps);
    }
}

impl HirToMirContext {
    fn emit_const(&mut self, value: IrValue) -> (r: Option<IrId>)
        ensures
            emitted(*old(self), *final(self), r, |d: IrId| IrInstruction::Const { dest: d, value }),
    {
        if !self.has_room() {
            return None;
        }
        self.builder.build_const(value)
    }

    fn emit_compare(&mut self, op: CompareOp, left: IrId, right: IrId) -> (r: Option<IrId>)
        ensures
            emitted(*old(self), *final(self), r, |d: IrId| IrInstruction::Cmp { dest: d, op, left, right }),
    {
        if !self.has_room() {
            return None;
        }
        self.builder.build_cmp(op, left, right)
    }

    fn emit_and(&mut self, left: IrId, right: IrId) -> (r: Option<IrId>)
        ensures
            emitted(*old(self), *final(self), r, |d: IrId| IrInstruction::BinOp { dest: d, op: BinaryOp::And, left, right }),
    {
        if !self.has_room() {
            return None;
        }
        self.builder.build_binop(BinaryOp::And, left, right)
    }

    fn read_slot(&mut self, s: IrId, k: i64, pty: IrType, ty: IrType) -> (r: Option<IrId>)
        ensures
            slot_read(*old(self), *final(self), s, k, pty, ty, r),
    {
        let c = self.emit_const(IrValue::I64(k));
        let ghost m0 = *self;
        let ci = match c {
            Some(ci) => ci,
            None => {
                proof {
                    assert(seen((m0, c, vstd::pervasive::arbitrary::<Vec<IrId>>(), m0, None::<IrId>)));
                }
                return None;
            },
        };
        let mut idx: Vec<IrId> = Vec::new();
        idx.push(ci);
        proof {
            assert(idx@ =~= seq![ci]);
        }
        let ghost gidx = idx;
        let p = if self.has_room() {
            self.builder.build_gep(s, idx, pty)
        } else {
            None
        };
        let ghost m1 = *self;
        proof {
            assert(seen((m0, c, gidx, m1, p)));
        }
        match p {
            Some(pp) => {
                if !self.has_room() {
                    return None;
                }
                self.builder.build_load(pp, ty)
            },
            None => None,
        }
    }

    fn test_elements(&mut self, table: &TypeTable, s: IrId, ps: &Vec<HirPattern>, off: usize, acc: IrId) -> (r: Option<IrId>)
        requires
            table_converts(table.types@),
            off <= 1,
        ensures
            elems_tested(table.types@, *old(self), *final(self), s, ps@, off as int, acc, r),
        decreases ps@, 0int,
    {
        let ghost a = *self;
        let mut cur = acc;
        let mut i: usize = 0;
        while i < ps.len()
            invariant
                i <= ps@.len(),
                table_converts(table.types@),
                off <= 1,
                a == *old(self),
                elems_tested(table.types@, a, *self, s, ps@.take(i as int), off as int, acc, Some(cur)),
            decreases ps@.len() - i,
        {
            let ghost m0 = *self;
            proof {
                assert(ps@.take(i + 1).drop_last() =~= ps@.take(i as int));
                assert(ps@.take(i + 1).last() == ps@[i as int]);
            }
            let k: i64 = (i + off) as i64;
            let v = self.read_slot(s, k, IrType::Ptr(Box::new(IrType::Any)), IrType::Any);
            let ghost m1 = *self;
            let vv = match v {
                Some(vv) => vv,
                None => {
                    proof {
                        assert(seen((m0, Some(cur), m1, v, m1, None::<IrId>)));
                        lemma_elems_stopped(table.types@, a, *self, s, ps@, off as int, acc, i + 1);
                    }
                    return None;
                },
            };
            let t = self.test_pattern(table, vv, &ps[i]);
            let ghost m2 = *self;
            let tm = match t {
                Some(tm) => tm,
                None => {
                    proof {
                        assert(seen((m0, Some(cur), m1, v, m2, t)));
                        lemma_elems_stopped(table.types@, a, *self, s, ps@, off as int, acc, i + 1);
                    }
                    return None;
                },
            };
            let n = self.emit_and(cur, tm);
            proof {
                assert(seen((m0, Some(cur), m1, v, m2, t)));
            }
            match n {
                Some(nn) => cur = nn,
                None => {
                    proof {
                        lemma_elems_stopped(table.types@, a, *self, s, ps@, off as int, acc, i + 1);
                    }
                    return None;
                },
            }
            i = i + 1;
        }
        proof {
            assert(ps@.take(ps@.len() as int) =~= ps@);
        }
        Some(cur)
    }

    fn test_pattern(&mut self, table: &TypeTable, s: IrId, p: &HirPattern) -> (r: Option<IrId>)
        requires
            table_converts(table.types@),
        ensures
            pattern_tested(table.types@, *old(self), *final(self), s, *p, r),
        decreases *p, 1int,
    {
        self.lower_pattern_test(table, s, p)
    }

    /// Tests the value `scrutinee` against `pattern`, giving the register
    /// that holds whether it matches.
    pub fn lower_pattern_test(&mut self, table: &TypeTable, scrutinee: IrId, pattern: &HirPattern) -> (r: Option<IrId>)
        requires
            table_converts(table.types@),
        ensures
            pattern_tested(table.types@, *old(self), *final(self), scrutinee, *pattern, r),
        decreases *pattern, 0int,
    {
        let s = scrutinee;
        match pattern {
            HirPattern::Variable { symbol, .. } => {
                insert_by_symbol(&mut self.symbol_map, *symbol, s);
                let ghost m = *self;
                proof {
                    assert(seen(m));
                }
                self.emit_const(IrValue::Bool(true))
            },
            HirPattern::Wildcard => self.emit_const(IrValue::Bool(true)),
            HirPattern::Literal(lit) => {
                let ty = match lit {
                    HirLiteral::Bool(_) => TypeId(3),
                    HirLiteral::String(_) => TypeId(4),
                    _ => TypeId(1),
                };
                let x = self.lower_literal(table, lit, ty);
                let ghost m = *self;
                proof {
                    assert(seen((m, x)));
                }
                match x {
                    Some(v) => self.emit_compare(CompareOp::Eq, s, v),
                    None => None,
                }
            },
            HirPattern::Constructor { variant, fields } => {
                let tag = self.read_slot(s, 0, IrType::Ptr(Box::new(IrType::I32)), IrType::I32);
                let ghost m0 = *self;
                let tg = match tag {
                    Some(t) => t,
                    None => {
                        proof {
                            assert(seen((m0, tag, m0, None::<IrId>, m0, None::<IrId>)));
                        }
                        return None;
                    },
                };
                let expected = self.emit_const(IrValue::I32(variant.as_str().unicode_len() as i32));
                let ghost m1 = *self;
                let et = match expected {
                    Some(e) => e,
                    None => {
                        proof {
                            assert(seen((m0, tag, m1, expected, m1, None::<IrId>)));
                        }
                        return None;
                    },
                };
                let cm = self.emit_compare(CompareOp::Eq, tg, et);
                let ghost m2 = *self;
                proof {
                    assert(seen((m0, tag, m1, expected, m2, cm)));
                }
                match cm {
                    Some(tm) => {
                        proof {
                            assert(decreases_to!(*pattern => pattern->Constructor_fields));
                            assert(decreases_to!(pattern->Constructor_fields => fields@));
                        }
                        self.test_elements(table, s, fields, 1, tm)
                    },
                    None => None,
                }
            },
            HirPattern::Tuple(ps) => {
                let t = self.emit_const(IrValue::Bool(true));
                let ghost m = *self;
                proof {
                    assert(seen((m, t)));
                }
                match t {
                    Some(tt) => {
                        proof {
                            assert(decreases_to!(*pattern => pattern->Tuple_0));
                            assert(decreases_to!(pattern->Tuple_0 => ps@));
                        }
                        self.test_elements(table, s, ps, 0, tt)
                    },
                    None => None,
                }
            },
            HirPattern::Array { elements, rest } => {
                let ghost st0 = *self;
                let x0 = self.read_slot(s, 0, IrType::Ptr(Box::new(IrType::I64)), IrType::I64);
                let ghost s0 = *self;
                let len = match x0 {
                    Some(l) => l,
                    None => {
                        proof {
                            assert(seen((seq![s0, s0, s0, s0, s0], seq![x0, None, None, None, None])));
                        }
                        return None;
                    },
                };
                let x1 = self.emit_const(IrValue::Bool(true));
                let ghost s1 = *self;
                let t = match x1 {
                    Some(t) => t,
                    None => {
                        proof {
                            assert(seen((seq![s0, s1, s1, s1, s1], seq![x0, x1, None, None, None])));
                        }
                        return None;
                    },
                };
                let x2 = self.emit_const(IrValue::I64(elements.len() as i64));
                let ghost s2 = *self;
                let n = match x2 {
                    Some(n) => n,
                    None => {
                        proof {
                            assert(seen((seq![s0, s1, s2, s2, s2], seq![x0, x1, x2, None, None])));
                        }
                        return None;
                    },
                };
                let op = if rest.is_none() { CompareOp::Eq } else { CompareOp::Ge };
                let x3 = self.emit_compare(op, len, n);
                let ghost s3 = *self;
                let lm = match x3 {
                    Some(lm) => lm,
                    None => {
                        proof {
                            assert(seen((seq![s0, s1, s2, s3, s3], seq![x0, x1, x2, x3, None])));
                        }
                        return None;
                    },
                };
                let x4 = self.emit_and(t, lm);
                let ghost s4 = *self;
                proof {
                    assert(seen((seq![s0, s1, s2, s3, s4], seq![x0, x1, x2, x3, x4])));
                }
                match x4 {
                    Some(acc) => {
                        proof {
                            assert(decreases_to!(*pattern => pattern->Array_elements));
                            assert(decreases_to!(pattern->Array_elements => elements@));
                        }
                        self.test_elements(table, s, elements, 1, acc)
                    },
                    None => None,
                }
            },
        }
    }
}

} // verus!
