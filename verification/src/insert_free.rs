//! Insert-free pass: adds `Free` instructions for heap allocations that do
//! not escape their function.
//!
//! For each function:
//! 1. the allocation sources are the `Alloc` instructions and the direct
//!    calls of `malloc` that define a register;
//! 2. the pointers derived from an allocation are those reached from it by
//!    `GetElementPtr`, `Cast`, `BitCast` and `Copy`;
//! 3. an allocation escapes when it, or a pointer derived from it, is passed
//!    to a call, stored as a value, placed in a struct, stored to a global,
//!    used by a memory copy, flows into a phi node, or is returned;
//! 4. each allocation that neither escapes nor is already freed (by a `Free`
//!    or a call of `free`) gets a `Free` at the end of every returning block
//!    that does not return it.

use vstd::prelude::*;
use crate::blocks::IrBasicBlock;
use crate::functions::IrFunction;
use crate::ids::{IrFunctionId, IrId};
use crate::instructions::{IrInstruction, IrPhiNode, IrTerminator};
use crate::module::IrModule;

verus! {

// ----------------------------------------------------------------------
// Derived pointers
// ----------------------------------------------------------------------

/// The (source, result) pair of an instruction that derives a pointer from
/// another: a GEP, a cast, a bitcast or a copy.
pub open spec fn derive_pair(inst: IrInstruction) -> Option<(IrId, IrId)> {
    match inst {
        IrInstruction::GetElementPtr { dest, ptr, .. } => Some((ptr, dest)),
        IrInstruction::Cast { dest, src, .. } => Some((src, dest)),
        IrInstruction::BitCast { dest, src, .. } => Some((src, dest)),
        IrInstruction::Copy { dest, src } => Some((src, dest)),
        _ => None,
    }
}

/// Some instruction of `blocks` derives `y` from `x`.
pub open spec fn derives(blocks: Seq<IrBasicBlock>, x: IrId, y: IrId) -> bool {
    exists|k: int, m: int|
        0 <= k < blocks.len() && 0 <= m < blocks[k].instructions@.len()
            && #[trigger] derive_pair(blocks[k].instructions@[m]) == Some((x, y))
}

/// `p` is a chain of derivations in `blocks`.
pub open spec fn is_chain(blocks: Seq<IrBasicBlock>, p: Seq<IrId>) -> bool {
    forall|i: int| 0 <= i < p.len() - 1 ==> #[trigger] derives(blocks, p[i], p[i + 1])
}

/// `y` is `a` or is derived from `a` through a chain of derivations.
pub open spec fn derived_from(blocks: Seq<IrBasicBlock>, a: IrId, y: IrId) -> bool {
    exists|p: Seq<IrId>| #[trigger] is_chain(blocks, p) && p.len() >= 1 && p[0] == a && p.last() == y
}

/// `r` is closed under the derivations of `blocks`.
pub open spec fn closed(blocks: Seq<IrBasicBlock>, r: Seq<IrId>) -> bool {
    forall|k: int, m: int|
        0 <= k < blocks.len() && 0 <= m < blocks[k].instructions@.len() ==> #[trigger] closed_at(
            blocks[k].instructions@[m],
            r,
        )
}

pub open spec fn closed_at(inst: IrInstruction, r: Seq<IrId>) -> bool {
    derive_pair(inst) matches Some(pair) ==> (r.contains(pair.0) ==> r.contains(pair.1))
}

proof fn lemma_chain_extend(blocks: Seq<IrBasicBlock>, a: IrId, x: IrId, y: IrId)
    requires
        derived_from(blocks, a, x),
        derives(blocks, x, y),
    ensures
        derived_from(blocks, a, y),
{
    let p = choose|p: Seq<IrId>| #[trigger] is_chain(blocks, p) && p.len() >= 1 && p[0] == a && p.last() == x;
    let q = p.push(y);
    assert forall|i: int| 0 <= i < q.len() - 1 implies #[trigger] derives(blocks, q[i], q[i + 1]) by {
        if i < p.len() - 1 {
            assert(q[i] == p[i] && q[i + 1] == p[i + 1]);
        } else {
            assert(q[i] == x && q[i + 1] == y);
        }
    }
    assert(is_chain(blocks, q));
}

proof fn lemma_chain_self(blocks: Seq<IrBasicBlock>, a: IrId)
    ensures
        derived_from(blocks, a, a),
{
    let p = seq![a];
    assert(is_chain(blocks, p));
}

proof fn lemma_closed_chain(blocks: Seq<IrBasicBlock>, r: Seq<IrId>, p: Seq<IrId>, i: int)
    requires
        closed(blocks, r),
        is_chain(blocks, p),
        p.len() >= 1,
        r.contains(p[0]),
        0 <= i < p.len(),
    ensures
        r.contains(p[i]),
    decreases i,
{
    if i > 0 {
        lemma_closed_chain(blocks, r, p, i - 1);
        let j = i - 1;
        assert(derives(blocks, p[j], p[j + 1]));
        let (k, m) = choose|k: int, m: int|
            0 <= k < blocks.len() && 0 <= m < blocks[k].instructions@.len()
                && #[trigger] derive_pair(blocks[k].instructions@[m]) == Some((p[i - 1], p[i]));
        assert(closed_at(blocks[k].instructions@[m], r));
    }
}

/// A set closed under derivation that holds `a` holds all that is derived from `a`.
proof fn lemma_closed_complete(blocks: Seq<IrBasicBlock>, r: Seq<IrId>, a: IrId, y: IrId)
    requires
        closed(blocks, r),
        r.contains(a),
        derived_from(blocks, a, y),
    ensures
        r.contains(y),
{
    let p = choose|p: Seq<IrId>| #[trigger] is_chain(blocks, p) && p.len() >= 1 && p[0] == a && p.last() == y;
    lemma_closed_chain(blocks, r, p, p.len() - 1);
}

/// The number of instructions of `s` that derive a pointer not yet in `r`.
pub open spec fn pending_insts(s: Seq<IrInstruction>, r: Seq<IrId>) -> nat
    decreases s.len(),
{
    if s.len() == 0 {
        0
    } else {
        pending_insts(s.drop_last(), r) + if derive_pair(s.last()) matches Some(pair) && !r.contains(pair.1) {
            1nat
        } else {
            0nat
        }
    }
}

pub open spec fn pending(blocks: Seq<IrBasicBlock>, r: Seq<IrId>) -> nat
    decreases blocks.len(),
{
    if blocks.len() == 0 {
        0
    } else {
        pending(blocks.drop_last(), r) + pending_insts(blocks.last().instructions@, r)
    }
}

proof fn lemma_pending_insts_mono(s: Seq<IrInstruction>, r: Seq<IrId>, r2: Seq<IrId>)
    requires
        forall|y: IrId| r.contains(y) ==> r2.contains(y),
    ensures
        pending_insts(s, r2) <= pending_insts(s, r),
    decreases s.len(),
{
    if s.len() > 0 {
        lemma_pending_insts_mono(s.drop_last(), r, r2);
    }
}

proof fn lemma_pending_insts_strict(s: Seq<IrInstruction>, r: Seq<IrId>, r2: Seq<IrId>, m: int)
    requires
        forall|y: IrId| r.contains(y) ==> r2.contains(y),
        0 <= m < s.len(),
        derive_pair(s[m]) matches Some(pair) && !r.contains(pair.1) && r2.contains(pair.1),
    ensures
        pending_insts(s, r2) < pending_insts(s, r),
    decreases s.len(),
{
    if m == s.len() - 1 {
        lemma_pending_insts_mono(s.drop_last(), r, r2);
    } else {
        assert(s.drop_last()[m] == s[m]);
        lemma_pending_insts_strict(s.drop_last(), r, r2, m);
    }
}

proof fn lemma_pending_mono(blocks: Seq<IrBasicBlock>, r: Seq<IrId>, r2: Seq<IrId>)
    requires
        forall|y: IrId| r.contains(y) ==> r2.contains(y),
    ensures
        pending(blocks, r2) <= pending(blocks, r),
    decreases blocks.len(),
{
    if blocks.len() > 0 {
        lemma_pending_mono(blocks.drop_last(), r, r2);
        lemma_pending_insts_mono(blocks.last().instructions@, r, r2);
    }
}

proof fn lemma_pending_strict(blocks: Seq<IrBasicBlock>, r: Seq<IrId>, r2: Seq<IrId>, k: int, m: int)
    requires
        forall|y: IrId| r.contains(y) ==> r2.contains(y),
        0 <= k < blocks.len(),
        0 <= m < blocks[k].instructions@.len(),
        derive_pair(blocks[k].instructions@[m]) matches Some(pair) && !r.contains(pair.1) && r2.contains(pair.1),
    ensures
        pending(blocks, r2) < pending(blocks, r),
    decreases blocks.len(),
{
    if k == blocks.len() - 1 {
        lemma_pending_mono(blocks.drop_last(), r, r2);
        lemma_pending_insts_strict(blocks.last().instructions@, r, r2, m);
    } else {
        assert(blocks.drop_last()[k] == blocks[k]);
        lemma_pending_strict(blocks.drop_last(), r, r2, k, m);
        lemma_pending_insts_mono(blocks.last().instructions@, r, r2);
    }
}

fn contains_id(v: &Vec<IrId>, x: IrId) -> (r: bool)
    ensures
        r == v@.contains(x),
{
    let mut i: usize = 0;
    while i < v.len()
        invariant
            i <= v@.len(),
            forall|j: int| 0 <= j < i ==> v@[j] != x,
        decreases v@.len() - i,
    {
        if v[i] == x {
            return true;
        }
        i = i + 1;
    }
    false
}

fn contains_fn_id(v: &Vec<IrFunctionId>, x: IrFunctionId) -> (r: bool)
    ensures
        r == v@.contains(x),
{
    let mut i: usize = 0;
    while i < v.len()
        invariant
            i <= v@.len(),
            forall|j: int| 0 <= j < i ==> v@[j] != x,
        decreases v@.len() - i,
    {
        if v[i] == x {
            return true;
        }
        i = i + 1;
    }
    false
}

/// The pointers derived from `alloc_id` in `function`, `alloc_id` included,
/// each once.
pub fn build_derived_set(alloc_id: IrId, function: &IrFunction) -> (r: Vec<IrId>)
    ensures
        r@.no_duplicates(),
        forall|y: IrId| r@.contains(y) <==> derived_from(function.cfg.blocks@, alloc_id, y),
{
    let ghost blocks = function.cfg.blocks@;
    let mut derived: Vec<IrId> = Vec::new();
    derived.push(alloc_id);
    proof {
        lemma_chain_self(blocks, alloc_id);
        assert(derived@[0] == alloc_id);
    }
    loop
        invariant
            blocks == function.cfg.blocks@,
            derived@.no_duplicates(),
            derived@.contains(alloc_id),
            forall|y: IrId| derived@.contains(y) ==> derived_from(blocks, alloc_id, y),
        ensures
            derived@.no_duplicates(),
            forall|y: IrId| derived@.contains(y) <==> derived_from(blocks, alloc_id, y),
        decreases pending(blocks, derived@),
    {
        let ghost start = derived@;
        let mut changed = false;
        let mut k: usize = 0;
        while k < function.cfg.blocks.len()
            invariant
                blocks == function.cfg.blocks@,
                k <= blocks.len(),
                derived@.no_duplicates(),
                derived@.contains(alloc_id),
                forall|y: IrId| derived@.contains(y) ==> derived_from(blocks, alloc_id, y),
                forall|y: IrId| start.contains(y) ==> derived@.contains(y),
                pending(blocks, derived@) <= pending(blocks, start),
                changed ==> pending(blocks, derived@) < pending(blocks, start),
                !changed ==> derived@ == start,
                !changed ==> forall|k2: int, m2: int|
                    0 <= k2 < k && 0 <= m2 < blocks[k2].instructions@.len() ==> #[trigger] closed_at(
                        blocks[k2].instructions@[m2],
                        derived@,
                    ),
            decreases blocks.len() - k,
        {
            let block = &function.cfg.blocks[k];
            let mut m: usize = 0;
            while m < block.instructions.len()
                invariant
                    blocks == function.cfg.blocks@,
                    k < blocks.len(),
                    *block == blocks[k as int],
                    m <= block.instructions@.len(),
                    derived@.no_duplicates(),
                    derived@.contains(alloc_id),
                    forall|y: IrId| derived@.contains(y) ==> derived_from(blocks, alloc_id, y),
                    forall|y: IrId| start.contains(y) ==> derived@.contains(y),
                    pending(blocks, derived@) <= pending(blocks, start),
                    changed ==> pending(blocks, derived@) < pending(blocks, start),
                    !changed ==> derived@ == start,
                    !changed ==> forall|k2: int, m2: int|
                        (0 <= k2 < k && 0 <= m2 < blocks[k2].instructions@.len()) || (k2 == k && 0 <= m2 < m)
                            ==> #[trigger] closed_at(blocks[k2].instructions@[m2], derived@),
                decreases block.instructions@.len() - m,
            {
                let inst = &block.instructions[m];
                let pair: Option<(IrId, IrId)> = match inst {
                    IrInstruction::GetElementPtr { dest, ptr, .. } => Some((*ptr, *dest)),
                    IrInstruction::Cast { dest, src, .. } => Some((*src, *dest)),
                    IrInstruction::BitCast { dest, src, .. } => Some((*src, *dest)),
                    IrInstruction::Copy { dest, src } => Some((*src, *dest)),
                    _ => None,
                };
                assert(pair == derive_pair(*inst));
                match pair {
                    Some((x, y)) => {
                        if contains_id(&derived, x) && !contains_id(&derived, y) {
                            let ghost before = derived@;
                            derived.push(y);
                            proof {
                                assert(derives(blocks, x, y)) by {
                                    assert(derive_pair(blocks[k as int].instructions@[m as int]) == Some((x, y)));
                                }
                                lemma_chain_extend(blocks, alloc_id, x, y);
                                assert forall|z: IrId| derived@.contains(z) implies derived_from(blocks, alloc_id, z) by {
                                    if z != y {
                                        let w = choose|w: int| 0 <= w < derived@.len() && derived@[w] == z;
                                        assert(before[w] == z);
                                    }
                                }
                                assert forall|z: IrId| before.contains(z) implies derived@.contains(z) by {
                                    let w = choose|w: int| 0 <= w < before.len() && before[w] == z;
                                    assert(derived@[w] == z);
                                }
                                assert(derived@[before.len() as int] == y);
                                lemma_pending_strict(blocks, before, derived@, k as int, m as int);
                                lemma_pending_strict(blocks, start, derived@, k as int, m as int);
                                assert(derived@.no_duplicates()) by {
                                    assert forall|i: int, j: int| 0 <= i < j < derived@.len() implies derived@[i] != derived@[j] by {
                                        if j == before.len() {
                                            assert(before[i] == derived@[i]);
                                        } else {
                                            assert(before[i] == derived@[i] && before[j] == derived@[j]);
                                        }
                                    }
                                }
                            }
                            changed = true;
                        }
                    },
                    None => {},
                }
                m = m + 1;
            }
            k = k + 1;
        }
        if !changed {
            proof {
                assert(closed(blocks, derived@));
                assert forall|y: IrId| derived_from(blocks, alloc_id, y) implies derived@.contains(y) by {
                    lemma_closed_complete(blocks, derived@, alloc_id, y);
                }
            }
            break;
        }
    }
    derived
}

// ----------------------------------------------------------------------
// Escape analysis
// ----------------------------------------------------------------------

/// Some register of `regs` is `a` or derived from it.
pub open spec fn any_derived(blocks: Seq<IrBasicBlock>, a: IrId, regs: Seq<IrId>) -> bool {
    exists|i: int| 0 <= i < regs.len() && derived_from(blocks, a, #[trigger] regs[i])
}

/// `inst` lets the allocation `a`, or a pointer derived from it, escape.
pub open spec fn inst_escapes(blocks: Seq<IrBasicBlock>, a: IrId, inst: IrInstruction) -> bool {
    match inst {
        IrInstruction::CallDirect { args, .. } => any_derived(blocks, a, args@),
        IrInstruction::CallIndirect { func_ptr, args, .. } => derived_from(blocks, a, func_ptr) || any_derived(blocks, a, args@),
        IrInstruction::Store { value, .. } => derived_from(blocks, a, value),
        IrInstruction::CreateStruct { fields, .. } => any_derived(blocks, a, fields@),
        IrInstruction::StoreGlobal { value, .. } => derived_from(blocks, a, value),
        IrInstruction::MemCopy { dest, src, .. } => derived_from(blocks, a, dest) || derived_from(blocks, a, src),
        _ => false,
    }
}

/// `phi` has `a`, or a pointer derived from it, among its incoming values.
pub open spec fn phi_escapes(blocks: Seq<IrBasicBlock>, a: IrId, phi: IrPhiNode) -> bool {
    exists|e: int| 0 <= e < phi.incoming@.len() && derived_from(blocks, a, (#[trigger] phi.incoming@[e]).1)
}

/// `t` returns `a` or a pointer derived from it.
pub open spec fn term_escapes(blocks: Seq<IrBasicBlock>, a: IrId, t: IrTerminator) -> bool {
    t matches IrTerminator::Return { value: Some(v) } && derived_from(blocks, a, v)
}

/// Block `b` lets the allocation `a` escape.
pub open spec fn block_escapes(blocks: Seq<IrBasicBlock>, a: IrId, b: IrBasicBlock) -> bool {
    ||| exists|m: int| 0 <= m < b.instructions@.len() && inst_escapes(blocks, a, #[trigger] b.instructions@[m])
    ||| exists|p: int| 0 <= p < b.phi_nodes@.len() && phi_escapes(blocks, a, #[trigger] b.phi_nodes@[p])
    ||| term_escapes(blocks, a, b.terminator)
}

/// The allocation `a` escapes its function.
pub open spec fn escapes(blocks: Seq<IrBasicBlock>, a: IrId) -> bool {
    exists|k: int| 0 <= k < blocks.len() && block_escapes(blocks, a, #[trigger] blocks[k])
}

/// `derived` holds exactly `a` and the pointers derived from it.
pub open spec fn is_derived_set(blocks: Seq<IrBasicBlock>, a: IrId, derived: Seq<IrId>) -> bool {
    forall|y: IrId| derived.contains(y) <==> derived_from(blocks, a, y)
}

fn is_tracked(alloc_id: IrId, derived: &Vec<IrId>, x: IrId, Ghost(blocks): Ghost<Seq<IrBasicBlock>>) -> (r: bool)
    requires
        is_derived_set(blocks, alloc_id, derived@),
    ensures
        r == derived_from(blocks, alloc_id, x),
{
    proof { lemma_chain_self(blocks, alloc_id); }
    x == alloc_id || contains_id(derived, x)
}

fn any_tracked(alloc_id: IrId, derived: &Vec<IrId>, regs: &Vec<IrId>, Ghost(blocks): Ghost<Seq<IrBasicBlock>>) -> (r: bool)
    requires
        is_derived_set(blocks, alloc_id, derived@),
    ensures
        r == any_derived(blocks, alloc_id, regs@),
{
    let mut i: usize = 0;
    while i < regs.len()
        invariant
            is_derived_set(blocks, alloc_id, derived@),
            i <= regs@.len(),
            forall|j: int| 0 <= j < i ==> !derived_from(blocks, alloc_id, #[trigger] regs@[j]),
        decreases regs@.len() - i,
    {
        if is_tracked(alloc_id, derived, regs[i], Ghost(blocks)) {
            return true;
        }
        i = i + 1;
    }
    false
}

/// `x` is `a` or one of `derived`: a pointer the escape check follows.
pub open spec fn held(a: IrId, derived: Seq<IrId>, x: IrId) -> bool {
    x == a || derived.contains(x)
}

/// Some register of `regs` is held.
pub open spec fn any_in(a: IrId, derived: Seq<IrId>, regs: Seq<IrId>) -> bool {
    exists|i: int| 0 <= i < regs.len() && held(a, derived, #[trigger] regs[i])
}

/// `inst` lets a held pointer escape: passed to a call, stored as a
/// value, placed in a struct, stored to a global or used by a memory copy.
pub open spec fn inst_uses_escape(a: IrId, derived: Seq<IrId>, inst: IrInstruction) -> bool {
    match inst {
        IrInstruction::CallDirect { args, .. } => any_in(a, derived, args@),
        IrInstruction::CallIndirect { func_ptr, args, .. } => held(a, derived, func_ptr) || any_in(a, derived, args@),
        IrInstruction::Store { value, .. } => held(a, derived, value),
        IrInstruction::CreateStruct { fields, .. } => any_in(a, derived, fields@),
        IrInstruction::StoreGlobal { value, .. } => held(a, derived, value),
        IrInstruction::MemCopy { dest, src, .. } => held(a, derived, dest) || held(a, derived, src),
        _ => false,
    }
}

/// `phi` has a held pointer among its incoming values.
pub open spec fn phi_uses_escape(a: IrId, derived: Seq<IrId>, phi: IrPhiNode) -> bool {
    exists|e: int| 0 <= e < phi.incoming@.len() && held(a, derived, (#[trigger] phi.incoming@[e]).1)
}

/// `t` returns a held pointer.
pub open spec fn term_uses_escape(a: IrId, derived: Seq<IrId>, t: IrTerminator) -> bool {
    t matches IrTerminator::Return { value: Some(v) } && held(a, derived, v)
}

/// Block `b` lets a held pointer escape.
pub open spec fn block_uses_escape(a: IrId, derived: Seq<IrId>, b: IrBasicBlock) -> bool {
    ||| exists|m: int| 0 <= m < b.instructions@.len() && inst_uses_escape(a, derived, #[trigger] b.instructions@[m])
    ||| exists|p: int| 0 <= p < b.phi_nodes@.len() && phi_uses_escape(a, derived, #[trigger] b.phi_nodes@[p])
    ||| term_uses_escape(a, derived, b.terminator)
}

/// Some use in `blocks` lets `a`, or a pointer of `derived`, escape.
pub open spec fn uses_escape(blocks: Seq<IrBasicBlock>, a: IrId, derived: Seq<IrId>) -> bool {
    exists|k: int| 0 <= k < blocks.len() && block_uses_escape(a, derived, #[trigger] blocks[k])
}

/// With the pointers derived from `a` as the held set, the escaping uses
/// are those that let `a` escape.
pub proof fn lemma_uses_escape_derived(blocks: Seq<IrBasicBlock>, a: IrId, derived: Seq<IrId>)
    requires
        is_derived_set(blocks, a, derived),
    ensures
        uses_escape(blocks, a, derived) == escapes(blocks, a),
{
    lemma_chain_self(blocks, a);
    assert forall|x: IrId| #[trigger] held(a, derived, x) == derived_from(blocks, a, x) by {}
    assert forall|regs: Seq<IrId>| #[trigger] any_in(a, derived, regs) == any_derived(blocks, a, regs) by {
        if any_in(a, derived, regs) {
            let i = choose|i: int| 0 <= i < regs.len() && held(a, derived, #[trigger] regs[i]);
            assert(derived_from(blocks, a, regs[i]));
        }
        if any_derived(blocks, a, regs) {
            let i = choose|i: int| 0 <= i < regs.len() && derived_from(blocks, a, #[trigger] regs[i]);
            assert(held(a, derived, regs[i]));
        }
    }
    assert forall|inst: IrInstruction| #[trigger] inst_uses_escape(a, derived, inst) == inst_escapes(blocks, a, inst) by {}
    assert forall|phi: IrPhiNode| #[trigger] phi_uses_escape(a, derived, phi) == phi_escapes(blocks, a, phi) by {
        if phi_uses_escape(a, derived, phi) {
            let e = choose|e: int| 0 <= e < phi.incoming@.len() && held(a, derived, (#[trigger] phi.incoming@[e]).1);
            assert(derived_from(blocks, a, phi.incoming@[e].1));
        }
        if phi_escapes(blocks, a, phi) {
            let e = choose|e: int| 0 <= e < phi.incoming@.len() && derived_from(blocks, a, (#[trigger] phi.incoming@[e]).1);
            assert(held(a, derived, phi.incoming@[e].1));
        }
    }
    assert forall|b: IrBasicBlock| #[trigger] block_uses_escape(a, derived, b) == block_escapes(blocks, a, b) by {
        if exists|m: int| 0 <= m < b.instructions@.len() && inst_uses_escape(a, derived, #[trigger] b.instructions@[m]) {
            let m = choose|m: int| 0 <= m < b.instructions@.len() && inst_uses_escape(a, derived, #[trigger] b.instructions@[m]);
            assert(inst_escapes(blocks, a, b.instructions@[m]));
        }
        if exists|m: int| 0 <= m < b.instructions@.len() && inst_escapes(blocks, a, #[trigger] b.instructions@[m]) {
            let m = choose|m: int| 0 <= m < b.instructions@.len() && inst_escapes(blocks, a, #[trigger] b.instructions@[m]);
            assert(inst_uses_escape(a, derived, b.instructions@[m]));
        }
        if exists|p: int| 0 <= p < b.phi_nodes@.len() && phi_uses_escape(a, derived, #[trigger] b.phi_nodes@[p]) {
            let p = choose|p: int| 0 <= p < b.phi_nodes@.len() && phi_uses_escape(a, derived, #[trigger] b.phi_nodes@[p]);
            assert(phi_escapes(blocks, a, b.phi_nodes@[p]));
        }
        if exists|p: int| 0 <= p < b.phi_nodes@.len() && phi_escapes(blocks, a, #[trigger] b.phi_nodes@[p]) {
            let p = choose|p: int| 0 <= p < b.phi_nodes@.len() && phi_escapes(blocks, a, #[trigger] b.phi_nodes@[p]);
            assert(phi_uses_escape(a, derived, b.phi_nodes@[p]));
        }
    }
    if uses_escape(blocks, a, derived) {
        let k = choose|k: int| 0 <= k < blocks.len() && block_uses_escape(a, derived, #[trigger] blocks[k]);
        assert(block_escapes(blocks, a, blocks[k]));
    }
    if escapes(blocks, a) {
        let k = choose|k: int| 0 <= k < blocks.len() && block_escapes(blocks, a, #[trigger] blocks[k]);
        assert(block_uses_escape(a, derived, blocks[k]));
    }
}

fn is_held(alloc_id: IrId, derived: &Vec<IrId>, x: IrId) -> (r: bool)
    ensures
        r == held(alloc_id, derived@, x),
{
    x == alloc_id || contains_id(derived, x)
}

fn any_held(alloc_id: IrId, derived: &Vec<IrId>, regs: &Vec<IrId>) -> (r: bool)
    ensures
        r == any_in(alloc_id, derived@, regs@),
{
    let mut i: usize = 0;
    while i < regs.len()
        invariant
            i <= regs@.len(),
            forall|j: int| 0 <= j < i ==> !held(alloc_id, derived@, #[trigger] regs@[j]),
        decreases regs@.len() - i,
    {
        if is_held(alloc_id, derived, regs[i]) {
            return true;
        }
        i = i + 1;
    }
    false
}

/// Whether the allocation `alloc_id`, or a pointer of `derived` (its
/// derived pointers, as `build_derived_set` gives them), escapes
/// `function`: some escaping use in it is `alloc_id` or one of `derived`.
/// With the set `build_derived_set` gives, this is `escapes`
/// (`lemma_uses_escape_derived`).
pub fn pointer_escapes(alloc_id: IrId, derived: &Vec<IrId>, function: &IrFunction) -> (r: bool)
    ensures
        r == uses_escape(function.cfg.blocks@, alloc_id, derived@),
{
    let ghost blocks = function.cfg.blocks@;
    let mut k: usize = 0;
    while k < function.cfg.blocks.len()
        invariant
            blocks == function.cfg.blocks@,
            k <= blocks.len(),
            forall|k2: int| 0 <= k2 < k ==> !block_uses_escape(alloc_id, derived@, #[trigger] blocks[k2]),
        decreases blocks.len() - k,
    {
        let block = &function.cfg.blocks[k];
        let mut m: usize = 0;
        while m < block.instructions.len()
            invariant
                blocks == function.cfg.blocks@,
                    k < blocks.len(),
                *block == blocks[k as int],
                m <= block.instructions@.len(),
                forall|m2: int| 0 <= m2 < m ==> !inst_uses_escape(alloc_id, derived@, #[trigger] block.instructions@[m2]),
            decreases block.instructions@.len() - m,
        {
            let esc = match &block.instructions[m] {
                IrInstruction::CallDirect { args, .. } => any_held(alloc_id, derived, args),
                IrInstruction::CallIndirect { args, func_ptr, .. } => {
                    is_held(alloc_id, derived, *func_ptr) || any_held(alloc_id, derived, args)
                },
                IrInstruction::Store { value, .. } => is_held(alloc_id, derived, *value),
                IrInstruction::CreateStruct { fields, .. } => any_held(alloc_id, derived, fields),
                IrInstruction::StoreGlobal { value, .. } => is_held(alloc_id, derived, *value),
                IrInstruction::MemCopy { dest, src, .. } => {
                    is_held(alloc_id, derived, *dest) || is_held(alloc_id, derived, *src)
                },
                _ => false,
            };
            if esc {
                proof {
                    assert(inst_uses_escape(alloc_id, derived@, block.instructions@[m as int]));
                    assert(block_uses_escape(alloc_id, derived@, blocks[k as int]));
                }
                return true;
            }
            m = m + 1;
        }
        let mut p: usize = 0;
        while p < block.phi_nodes.len()
            invariant
                blocks == function.cfg.blocks@,
                    k < blocks.len(),
                *block == blocks[k as int],
                p <= block.phi_nodes@.len(),
                forall|p2: int| 0 <= p2 < p ==> !phi_uses_escape(alloc_id, derived@, #[trigger] block.phi_nodes@[p2]),
            decreases block.phi_nodes@.len() - p,
        {
            let phi = &block.phi_nodes[p];
            let mut e: usize = 0;
            while e < phi.incoming.len()
                invariant
                    blocks == function.cfg.blocks@,
                            k < blocks.len(),
                    *block == blocks[k as int],
                    p < block.phi_nodes@.len(),
                    *phi == block.phi_nodes@[p as int],
                    e <= phi.incoming@.len(),
                    forall|e2: int| 0 <= e2 < e ==> !held(alloc_id, derived@, (#[trigger] phi.incoming@[e2]).1),
                decreases phi.incoming@.len() - e,
            {
                if is_held(alloc_id, derived, phi.incoming[e].1) {
                    proof {
                        assert(phi_uses_escape(alloc_id, derived@, block.phi_nodes@[p as int]));
                        assert(block_uses_escape(alloc_id, derived@, blocks[k as int]));
                    }
                    return true;
                }
                e = e + 1;
            }
            p = p + 1;
        }
        match &block.terminator {
            IrTerminator::Return { value: Some(val) } => {
                if is_held(alloc_id, derived, *val) {
                    proof { assert(block_uses_escape(alloc_id, derived@, blocks[k as int])); }
                    return true;
                }
            },
            _ => {},
        }
        k = k + 1;
    }
    false
}

// ----------------------------------------------------------------------
// Existing frees and allocation sources
// ----------------------------------------------------------------------

/// `inst` frees the allocation `a` or a pointer derived from it, by a `Free`
/// or by a direct call of one of `free_ids`.
pub open spec fn inst_frees(blocks: Seq<IrBasicBlock>, a: IrId, free_ids: Seq<IrFunctionId>, inst: IrInstruction) -> bool {
    match inst {
        IrInstruction::Free { ptr } => derived_from(blocks, a, ptr),
        IrInstruction::CallDirect { func_id, args, .. } => free_ids.contains(func_id) && any_derived(blocks, a, args@),
        _ => false,
    }
}

/// Some instruction of the function frees the allocation `a`.
pub open spec fn has_free(blocks: Seq<IrBasicBlock>, a: IrId, free_ids: Seq<IrFunctionId>) -> bool {
    exists|k: int, m: int|
        0 <= k < blocks.len() && 0 <= m < blocks[k].instructions@.len()
            && #[trigger] inst_frees(blocks, a, free_ids, blocks[k].instructions@[m])
}

fn find_free(alloc_id: IrId, derived: &Vec<IrId>, function: &IrFunction, free_ids: &Vec<IrFunctionId>) -> (r: bool)
    requires
        is_derived_set(function.cfg.blocks@, alloc_id, derived@),
    ensures
        r == has_free(function.cfg.blocks@, alloc_id, free_ids@),
{
    let ghost blocks = function.cfg.blocks@;
    let mut k: usize = 0;
    while k < function.cfg.blocks.len()
        invariant
            blocks == function.cfg.blocks@,
            is_derived_set(blocks, alloc_id, derived@),
            k <= blocks.len(),
            forall|k2: int, m2: int|
                0 <= k2 < k && 0 <= m2 < blocks[k2].instructions@.len() ==> !#[trigger] inst_frees(
                    blocks,
                    alloc_id,
                    free_ids@,
                    blocks[k2].instructions@[m2],
                ),
        decreases blocks.len() - k,
    {
        let block = &function.cfg.blocks[k];
        let mut m: usize = 0;
        while m < block.instructions.len()
            invariant
                blocks == function.cfg.blocks@,
                is_derived_set(blocks, alloc_id, derived@),
                k < blocks.len(),
                *block == blocks[k as int],
                m <= block.instructions@.len(),
                forall|k2: int, m2: int|
                    (0 <= k2 < k && 0 <= m2 < blocks[k2].instructions@.len()) || (k2 == k && 0 <= m2 < m)
                        ==> !#[trigger] inst_frees(blocks, alloc_id, free_ids@, blocks[k2].instructions@[m2]),
            decreases block.instructions@.len() - m,
        {
            let frees = match &block.instructions[m] {
                IrInstruction::Free { ptr } => is_tracked(alloc_id, derived, *ptr, Ghost(blocks)),
                IrInstruction::CallDirect { func_id, args, .. } => {
                    contains_fn_id(free_ids, *func_id) && any_tracked(alloc_id, derived, args, Ghost(blocks))
                },
                _ => false,
            };
            if frees {
                proof { assert(inst_frees(blocks, alloc_id, free_ids@, blocks[k as int].instructions@[m as int])); }
                return true;
            }
            m = m + 1;
        }
        k = k + 1;
    }
    false
}

/// The allocation that `inst` makes, if it is an `Alloc` or a direct call of
/// one of `malloc_ids` that defines a register.
pub open spec fn alloc_source(inst: IrInstruction, malloc_ids: Seq<IrFunctionId>) -> Option<IrId> {
    match inst {
        IrInstruction::Alloc { dest, .. } => Some(dest),
        IrInstruction::CallDirect { dest: Some(dest), func_id, .. } => if malloc_ids.contains(func_id) {
            Some(dest)
        } else {
            None
        },
        _ => None,
    }
}

/// The allocations made by `s`, in order.
pub open spec fn insts_sources(s: Seq<IrInstruction>, malloc_ids: Seq<IrFunctionId>) -> Seq<IrId>
    decreases s.len(),
{
    if s.len() == 0 {
        Seq::empty()
    } else {
        insts_sources(s.drop_last(), malloc_ids) + match alloc_source(s.last(), malloc_ids) {
            Some(d) => seq![d],
            None => Seq::empty(),
        }
    }
}

/// The allocations made by `blocks`, in block order.
pub open spec fn alloc_sources(blocks: Seq<IrBasicBlock>, malloc_ids: Seq<IrFunctionId>) -> Seq<IrId>
    decreases blocks.len(),
{
    if blocks.len() == 0 {
        Seq::empty()
    } else {
        alloc_sources(blocks.drop_last(), malloc_ids) + insts_sources(blocks.last().instructions@, malloc_ids)
    }
}

/// The allocation `a` neither escapes nor is freed already.
pub open spec fn needs_free(blocks: Seq<IrBasicBlock>, a: IrId, free_ids: Seq<IrFunctionId>) -> bool {
    !has_free(blocks, a, free_ids) && !escapes(blocks, a)
}

/// The allocations of `s` that need a free, in order.
pub open spec fn needing(s: Seq<IrId>, blocks: Seq<IrBasicBlock>, free_ids: Seq<IrFunctionId>) -> Seq<IrId>
    decreases s.len(),
{
    if s.len() == 0 {
        Seq::empty()
    } else {
        needing(s.drop_last(), blocks, free_ids) + if needs_free(blocks, s.last(), free_ids) {
            seq![s.last()]
        } else {
            Seq::empty()
        }
    }
}

/// The allocations the pass frees in a function.
pub open spec fn to_free(blocks: Seq<IrBasicBlock>, malloc_ids: Seq<IrFunctionId>, free_ids: Seq<IrFunctionId>) -> Seq<IrId> {
    needing(alloc_sources(blocks, malloc_ids), blocks, free_ids)
}

/// The allocations of `s` that a block returning `value` does not return.
pub open spec fn not_returned(s: Seq<IrId>, blocks: Seq<IrBasicBlock>, value: Option<IrId>) -> Seq<IrId>
    decreases s.len(),
{
    if s.len() == 0 {
        Seq::empty()
    } else {
        not_returned(s.drop_last(), blocks, value) + if value matches Some(v) && derived_from(blocks, s.last(), v) {
            Seq::empty()
        } else {
            seq![s.last()]
        }
    }
}

/// The allocations freed at the end of a block ended by `t`: none unless it
/// returns, and then those of `tf` it does not return.
pub open spec fn frees_at(t: IrTerminator, tf: Seq<IrId>, blocks: Seq<IrBasicBlock>) -> Seq<IrId> {
    match t {
        IrTerminator::Return { value } => not_returned(tf, blocks, value),
        _ => Seq::empty(),
    }
}

/// `Free` instructions for the allocations `s`, in order.
pub open spec fn free_insts(s: Seq<IrId>) -> Seq<IrInstruction> {
    s.map_values(|a: IrId| IrInstruction::Free { ptr: a })
}

/// The number of `Free` instructions inserted in the blocks `bs` of a function whose
/// blocks were `blocks`.
pub open spec fn total_frees(bs: Seq<IrBasicBlock>, tf: Seq<IrId>, blocks: Seq<IrBasicBlock>) -> nat
    decreases bs.len(),
{
    if bs.len() == 0 {
        0
    } else {
        total_frees(bs.drop_last(), tf, blocks) + frees_at(bs.last().terminator, tf, blocks).len()
    }
}

/// The frees the pass inserts into a function whose blocks are `blocks`.
pub open spec fn frees_inserted(blocks: Seq<IrBasicBlock>, malloc_ids: Seq<IrFunctionId>, free_ids: Seq<IrFunctionId>) -> nat {
    total_frees(blocks, to_free(blocks, malloc_ids, free_ids), blocks)
}


proof fn lemma_needing_needs(s: Seq<IrId>, blocks: Seq<IrBasicBlock>, free_ids: Seq<IrFunctionId>, x: IrId)
    requires
        needing(s, blocks, free_ids).contains(x),
    ensures
        needs_free(blocks, x, free_ids),
    decreases s.len(),
{
    if s.len() > 0 {
        let rest = needing(s.drop_last(), blocks, free_ids);
        let tail = if needs_free(blocks, s.last(), free_ids) {
            seq![s.last()]
        } else {
            Seq::<IrId>::empty()
        };
        let all = rest + tail;
        assert(needing(s, blocks, free_ids) == all);
        let i = choose|i: int| 0 <= i < all.len() && all[i] == x;
        if i < rest.len() {
            assert(rest[i] == x);
            lemma_needing_needs(s.drop_last(), blocks, free_ids, x);
        } else {
            assert(tail[i - rest.len()] == x);
        }
    }
}

/// Every way for a pointer to leave its function makes the allocation it
/// comes from escape: returning it, storing it through another pointer,
/// or handing it to a call.
pub proof fn law_escape_routes(blocks: Seq<IrBasicBlock>, a: IrId, k: int, m: int, x: IrId)
    requires
        0 <= k < blocks.len(),
        derived_from(blocks, a, x),
    ensures
        blocks[k].terminator == (IrTerminator::Return { value: Some(x) }) ==> escapes(blocks, a),
        (0 <= m < blocks[k].instructions@.len() && blocks[k].instructions@[m] is Store
            && blocks[k].instructions@[m]->Store_value == x) ==> escapes(blocks, a),
        (0 <= m < blocks[k].instructions@.len() && blocks[k].instructions@[m] is CallDirect
            && blocks[k].instructions@[m]->CallDirect_args@.contains(x)) ==> escapes(blocks, a),
{
    if blocks[k].terminator == (IrTerminator::Return { value: Some(x) }) {
        assert(block_escapes(blocks, a, blocks[k]));
    }
    if 0 <= m < blocks[k].instructions@.len() {
        let inst = blocks[k].instructions@[m];
        if inst is Store && inst->Store_value == x {
            assert(inst_escapes(blocks, a, inst));
            assert(block_escapes(blocks, a, blocks[k]));
        }
        if let IrInstruction::CallDirect { args, .. } = inst {
            if args@.contains(x) {
                let i = choose|i: int| 0 <= i < args@.len() && args@[i] == x;
                assert(derived_from(blocks, a, args@[i]));
                assert(inst_escapes(blocks, a, inst));
                assert(block_escapes(blocks, a, blocks[k]));
            }
        }
    }
}

/// An allocation whose pointer, or a pointer derived from it, is stored
/// to a global escapes its function: the escape check finds it, and the
/// pass frees it nowhere.
pub proof fn law_global_store_escapes(
    blocks: Seq<IrBasicBlock>,
    a: IrId,
    k: int,
    m: int,
    malloc_ids: Seq<IrFunctionId>,
    free_ids: Seq<IrFunctionId>,
)
    requires
        0 <= k < blocks.len(),
        0 <= m < blocks[k].instructions@.len(),
        blocks[k].instructions@[m] matches IrInstruction::StoreGlobal { value, .. } && derived_from(blocks, a, value),
    ensures
        escapes(blocks, a),
        forall|derived: Seq<IrId>| is_derived_set(blocks, a, derived) ==> #[trigger] uses_escape(blocks, a, derived),
        !to_free(blocks, malloc_ids, free_ids).contains(a),
{
    assert(inst_escapes(blocks, a, blocks[k].instructions@[m]));
    assert(block_escapes(blocks, a, blocks[k]));
    assert forall|derived: Seq<IrId>| is_derived_set(blocks, a, derived) implies #[trigger] uses_escape(blocks, a, derived) by {
        lemma_uses_escape_derived(blocks, a, derived);
    }
    if to_free(blocks, malloc_ids, free_ids).contains(a) {
        lemma_needing_needs(alloc_sources(blocks, malloc_ids), blocks, free_ids, a);
    }
}

/// `nf` is `f` with, at the end of each block, the frees the pass inserts.
pub open spec fn frees_added(f: IrFunction, nf: IrFunction, malloc_ids: Seq<IrFunctionId>, free_ids: Seq<IrFunctionId>) -> bool {
    let b0 = f.cfg.blocks@;
    let tf = to_free(b0, malloc_ids, free_ids);
    &&& nf == (IrFunction { cfg: nf.cfg, ..f })
    &&& nf.cfg.entry_block == f.cfg.entry_block
    &&& nf.cfg.next_block_id == f.cfg.next_block_id
    &&& nf.cfg.blocks@.len() == b0.len()
    &&& forall|k: int| 0 <= k < b0.len() ==> {
        &&& crate::blocks::same_but_instructions(b0[k], #[trigger] nf.cfg.blocks@[k])
        &&& nf.cfg.blocks@[k].instructions@ == b0[k].instructions@ + free_insts(frees_at(b0[k].terminator, tf, b0))
    }
}

proof fn lemma_total_frees_zero(bs: Seq<IrBasicBlock>, tf: Seq<IrId>, blocks: Seq<IrBasicBlock>)
    requires
        tf.len() == 0,
    ensures
        total_frees(bs, tf, blocks) == 0,
        forall|k: int| 0 <= k < bs.len() ==> frees_at(#[trigger] bs[k].terminator, tf, blocks).len() == 0,
    decreases bs.len(),
{
    assert(not_returned(tf, blocks, None) =~= Seq::<IrId>::empty());
    assert forall|v: Option<IrId>| #[trigger] not_returned(tf, blocks, v).len() == 0 by {
        assert(not_returned(tf, blocks, v) =~= Seq::<IrId>::empty());
    }
    if bs.len() > 0 {
        lemma_total_frees_zero(bs.drop_last(), tf, blocks);
        assert forall|k: int| 0 <= k < bs.len() implies frees_at(#[trigger] bs[k].terminator, tf, blocks).len() == 0 by {
            if k < bs.len() - 1 {
                assert(bs.drop_last()[k] == bs[k]);
            }
        }
    }
}

proof fn lemma_total_frees_prefix(bs: Seq<IrBasicBlock>, tf: Seq<IrId>, blocks: Seq<IrBasicBlock>, k: int)
    requires
        0 <= k < bs.len(),
    ensures
        total_frees(bs.subrange(0, k + 1), tf, blocks) == total_frees(bs.subrange(0, k), tf, blocks) + frees_at(bs[k].terminator, tf, blocks).len(),
        total_frees(bs.subrange(0, k + 1), tf, blocks) <= total_frees(bs, tf, blocks),
    decreases bs.len(),
{
    assert(bs.subrange(0, k + 1).drop_last() =~= bs.subrange(0, k));
    if k + 1 < bs.len() {
        assert(bs.drop_last().subrange(0, k + 1) =~= bs.subrange(0, k + 1));
        assert(bs.drop_last()[k] == bs[k]);
        lemma_total_frees_prefix(bs.drop_last(), tf, blocks, k);
    } else {
        assert(bs.subrange(0, k + 1) =~= bs);
    }
}

proof fn lemma_not_returned_prefix(s: Seq<IrId>, blocks: Seq<IrBasicBlock>, value: Option<IrId>, q: int)
    requires
        0 <= q < s.len(),
    ensures
        not_returned(s.subrange(0, q + 1), blocks, value) == not_returned(s.subrange(0, q), blocks, value) + if value matches Some(v) && derived_from(blocks, s[q], v) {
            Seq::<IrId>::empty()
        } else {
            seq![s[q]]
        },
        not_returned(s.subrange(0, q + 1), blocks, value).len() <= not_returned(s, blocks, value).len(),
    decreases s.len(),
{
    assert(s.subrange(0, q + 1).drop_last() =~= s.subrange(0, q));
    if q + 1 < s.len() {
        assert(s.drop_last().subrange(0, q + 1) =~= s.subrange(0, q + 1));
        assert(s.drop_last()[q] == s[q]);
        lemma_not_returned_prefix(s.drop_last(), blocks, value, q);
    } else {
        assert(s.subrange(0, q + 1) =~= s);
    }
}

proof fn lemma_needing_prefix(s: Seq<IrId>, blocks: Seq<IrBasicBlock>, free_ids: Seq<IrFunctionId>, q: int)
    requires
        0 <= q < s.len(),
    ensures
        needing(s.subrange(0, q + 1), blocks, free_ids) == needing(s.subrange(0, q), blocks, free_ids) + if needs_free(blocks, s[q], free_ids) {
            seq![s[q]]
        } else {
            Seq::<IrId>::empty()
        },
{
    assert(s.subrange(0, q + 1).drop_last() =~= s.subrange(0, q));
}

proof fn lemma_sources_step(s: Seq<IrInstruction>, malloc_ids: Seq<IrFunctionId>, m: int)
    requires
        0 <= m < s.len(),
    ensures
        insts_sources(s.subrange(0, m + 1), malloc_ids) == insts_sources(s.subrange(0, m), malloc_ids) + match alloc_source(s[m], malloc_ids) {
            Some(d) => seq![d],
            None => Seq::<IrId>::empty(),
        },
{
    assert(s.subrange(0, m + 1).drop_last() =~= s.subrange(0, m));
}

proof fn lemma_block_sources_step(bs: Seq<IrBasicBlock>, malloc_ids: Seq<IrFunctionId>, k: int)
    requires
        0 <= k < bs.len(),
    ensures
        alloc_sources(bs.subrange(0, k + 1), malloc_ids) == alloc_sources(bs.subrange(0, k), malloc_ids) + insts_sources(bs[k].instructions@, malloc_ids),
{
    assert(bs.subrange(0, k + 1).drop_last() =~= bs.subrange(0, k));
}

/// Inserts `Free` instructions for the allocations of `function` that
/// neither escape nor are freed already, and returns how many were inserted.
pub fn insert_free_for_function(
    function: &mut IrFunction,
    malloc_ids: &Vec<IrFunctionId>,
    free_ids: &Vec<IrFunctionId>,
) -> (r: usize)
    requires
        frees_inserted(old(function).cfg.blocks@, malloc_ids@, free_ids@) <= usize::MAX,
    ensures
        frees_added(*old(function), *final(function), malloc_ids@, free_ids@),
        r == frees_inserted(old(function).cfg.blocks@, malloc_ids@, free_ids@),
{
    let ghost f0 = *function;
    let ghost b0 = function.cfg.blocks@;
    let ghost tf = to_free(b0, malloc_ids@, free_ids@);
    if function.cfg.blocks.len() == 0 {
        return 0;
    }
    // Step 1: the allocation sources.

    let mut alloc_ids: Vec<IrId> = Vec::new();
    let mut k: usize = 0;
    while k < function.cfg.blocks.len()
        invariant
            *function == f0,
            b0 == function.cfg.blocks@,
            k <= b0.len(),
            alloc_ids@ == alloc_sources(b0.subrange(0, k as int), malloc_ids@),
        decreases b0.len() - k,
    {
        let block = &function.cfg.blocks[k];
        let mut m: usize = 0;
        while m < block.instructions.len()
            invariant
                *function == f0,
                b0 == function.cfg.blocks@,
                k < b0.len(),
                *block == b0[k as int],
                m <= block.instructions@.len(),
                alloc_ids@ == alloc_sources(b0.subrange(0, k as int), malloc_ids@) + insts_sources(
                    block.instructions@.subrange(0, m as int),
                    malloc_ids@,
                ),
            decreases block.instructions@.len() - m,
        {
            proof { lemma_sources_step(block.instructions@, malloc_ids@, m as int); }
            match &block.instructions[m] {
                IrInstruction::Alloc { dest, .. } => {
                    alloc_ids.push(*dest);
                },
                IrInstruction::CallDirect { dest: Some(dest), func_id, .. } => {
                    if contains_fn_id(malloc_ids, *func_id) {
                        alloc_ids.push(*dest);
                    }
                },
                _ => {},
            }
            proof {
                assert(alloc_ids@ =~= alloc_sources(b0.subrange(0, k as int), malloc_ids@) + insts_sources(
                    block.instructions@.subrange(0, m + 1),
                    malloc_ids@,
                ));
            }
            m = m + 1;
        }
        proof {
            assert(block.instructions@.subrange(0, m as int) =~= block.instructions@);
            lemma_block_sources_step(b0, malloc_ids@, k as int);
        }
        k = k + 1;
    }
    proof { assert(b0.subrange(0, k as int) =~= b0); }
    if alloc_ids.len() == 0 {
        proof {
            lemma_total_frees_zero(b0, tf, b0);
            assert forall|k2: int| 0 <= k2 < b0.len() implies b0[k2].instructions@ == b0[k2].instructions@ + free_insts(
                frees_at(#[trigger] b0[k2].terminator, tf, b0),
            ) by {
                assert(b0[k2].instructions@ =~= b0[k2].instructions@ + free_insts(frees_at(b0[k2].terminator, tf, b0)));
            }
        }
        return 0;
    }
    // Step 2: the allocations that neither escape nor are freed.

    let mut allocs_needing_free: Vec<IrId> = Vec::new();
    let mut derived_sets: Vec<Vec<IrId>> = Vec::new();
    let mut q: usize = 0;
    while q < alloc_ids.len()
        invariant
            *function == f0,
            b0 == function.cfg.blocks@,
            alloc_ids@ == alloc_sources(b0, malloc_ids@),
            q <= alloc_ids@.len(),
            allocs_needing_free@ == needing(alloc_ids@.subrange(0, q as int), b0, free_ids@),
            derived_sets@.len() == allocs_needing_free@.len(),
            forall|t: int| 0 <= t < derived_sets@.len() ==> is_derived_set(b0, allocs_needing_free@[t], #[trigger] derived_sets@[t]@),
        decreases alloc_ids@.len() - q,
    {
        let alloc_id = alloc_ids[q];
        proof { lemma_needing_prefix(alloc_ids@, b0, free_ids@, q as int); }
        let derived = build_derived_set(alloc_id, function);
        let has_free = find_free(alloc_id, &derived, function, free_ids);
        if !has_free {
            proof { lemma_uses_escape_derived(b0, alloc_id, derived@); }
            if !pointer_escapes(alloc_id, &derived, function) {
                allocs_needing_free.push(alloc_id);
                derived_sets.push(derived);
            }
        }
        proof {
            assert(allocs_needing_free@ =~= needing(alloc_ids@.subrange(0, q + 1), b0, free_ids@));
        }
        q = q + 1;
    }
    proof { assert(alloc_ids@.subrange(0, q as int) =~= alloc_ids@); }
    if allocs_needing_free.len() == 0 {
        proof {
            lemma_total_frees_zero(b0, tf, b0);
            assert forall|k2: int| 0 <= k2 < b0.len() implies b0[k2].instructions@ == b0[k2].instructions@ + free_insts(
                frees_at(#[trigger] b0[k2].terminator, tf, b0),
            ) by {
                assert(b0[k2].instructions@ =~= b0[k2].instructions@ + free_insts(frees_at(b0[k2].terminator, tf, b0)));
            }
        }
        return 0;
    }
    // Steps 3 and 4: a free before each return that does not return the allocation.

    let mut inserted: usize = 0;
    let mut k: usize = 0;
    while k < function.cfg.blocks.len()
        invariant
            allocs_needing_free@ == tf,
            derived_sets@.len() == tf.len(),
            forall|t: int| 0 <= t < derived_sets@.len() ==> is_derived_set(b0, tf[t], #[trigger] derived_sets@[t]@),
            total_frees(b0, tf, b0) <= usize::MAX,
            *function == (IrFunction { cfg: function.cfg, ..f0 }),
            function.cfg.entry_block == f0.cfg.entry_block,
            function.cfg.next_block_id == f0.cfg.next_block_id,
            function.cfg.blocks@.len() == b0.len(),
            k <= b0.len(),
            forall|k2: int| 0 <= k2 < k ==> {
                &&& crate::blocks::same_but_instructions(b0[k2], #[trigger] function.cfg.blocks@[k2])
                &&& function.cfg.blocks@[k2].instructions@ == b0[k2].instructions@ + free_insts(frees_at(b0[k2].terminator, tf, b0))
            },
            forall|k2: int| k <= k2 < b0.len() ==> #[trigger] function.cfg.blocks@[k2] == b0[k2],
            inserted == total_frees(b0.subrange(0, k as int), tf, b0),
        decreases b0.len() - k,
    {
        proof { lemma_total_frees_prefix(b0, tf, b0, k as int); }
        let return_value: Option<Option<IrId>> = match &function.cfg.blocks[k].terminator {
            IrTerminator::Return { value } => Some(*value),
            _ => None,
        };
        match return_value {
            Some(value) => {
                let mut q: usize = 0;
                while q < allocs_needing_free.len()
                    invariant
                        allocs_needing_free@ == tf,
                        derived_sets@.len() == tf.len(),
                        forall|t: int| 0 <= t < derived_sets@.len() ==> is_derived_set(b0, tf[t], #[trigger] derived_sets@[t]@),
                        total_frees(b0.subrange(0, k as int + 1), tf, b0) <= usize::MAX,
                        total_frees(b0.subrange(0, k as int + 1), tf, b0) == total_frees(b0.subrange(0, k as int), tf, b0) + not_returned(tf, b0, value).len(),
                        b0[k as int].terminator == (IrTerminator::Return { value }),
                        *function == (IrFunction { cfg: function.cfg, ..f0 }),
                        function.cfg.entry_block == f0.cfg.entry_block,
                        function.cfg.next_block_id == f0.cfg.next_block_id,
                        function.cfg.blocks@.len() == b0.len(),
                        k < b0.len(),
                        q <= tf.len(),
                        forall|k2: int| 0 <= k2 < k ==> {
                            &&& crate::blocks::same_but_instructions(b0[k2], #[trigger] function.cfg.blocks@[k2])
                            &&& function.cfg.blocks@[k2].instructions@ == b0[k2].instructions@ + free_insts(frees_at(b0[k2].terminator, tf, b0))
                        },
                        forall|k2: int| k < k2 < b0.len() ==> #[trigger] function.cfg.blocks@[k2] == b0[k2],
                        crate::blocks::same_but_instructions(b0[k as int], function.cfg.blocks@[k as int]),
                        function.cfg.blocks@[k as int].instructions@ == b0[k as int].instructions@ + free_insts(
                            not_returned(tf.subrange(0, q as int), b0, value),
                        ),
                        inserted == total_frees(b0.subrange(0, k as int), tf, b0) + not_returned(tf.subrange(0, q as int), b0, value).len(),
                    decreases tf.len() - q,
                {
                    let alloc_id = allocs_needing_free[q];
                    proof { lemma_not_returned_prefix(tf, b0, value, q as int); }
                    let returned = match value {
                        Some(ret_val) => ret_val == alloc_id || contains_id(&derived_sets[q], ret_val),
                        None => false,
                    };
                    proof {
                        if value is Some {
                            lemma_chain_self(b0, alloc_id);
                        }
                    }
                    if !returned {
                        let ghost before = function.cfg.blocks@[k as int].instructions@;
                        function.cfg.blocks[k].instructions.push(IrInstruction::Free { ptr: alloc_id });
                        inserted = inserted + 1;
                        proof {
                            let nr = not_returned(tf.subrange(0, q as int), b0, value);
                            assert(free_insts(nr.push(alloc_id)) =~= free_insts(nr).push(IrInstruction::Free { ptr: alloc_id }));
                            assert(nr + seq![alloc_id] =~= nr.push(alloc_id));
                        }
                    } else {
                        proof {
                            let nr = not_returned(tf.subrange(0, q as int), b0, value);
                            assert(nr + Seq::<IrId>::empty() =~= nr);
                        }
                    }
                    proof {
                        assert(function.cfg.blocks@[k as int].instructions@ =~= b0[k as int].instructions@ + free_insts(
                            not_returned(tf.subrange(0, q + 1), b0, value),
                        ));
                    }
                    q = q + 1;
                }
                proof { assert(tf.subrange(0, q as int) =~= tf); }
            },
            None => {
                proof {
                    assert(b0[k as int].instructions@ =~= b0[k as int].instructions@ + free_insts(
                        frees_at(b0[k as int].terminator, tf, b0),
                    ));
                }
            },
        }
        k = k + 1;
    }
    proof { assert(b0.subrange(0, k as int) =~= b0); }
    inserted
}

// ----------------------------------------------------------------------
// The pass
// ----------------------------------------------------------------------

/// What an optimization pass did to a module.
#[derive(Debug)]
pub struct OptimizationResult {
    pub modified: bool,
    pub instructions_eliminated: usize,
    /// Named counters, each name once.
    pub stats: Vec<(String, usize)>,
    pub blocks_eliminated: usize,
}

impl OptimizationResult {
    /// The result of a pass that changed nothing.
    pub fn unchanged() -> (r: OptimizationResult)
        ensures
            !r.modified,
            r.instructions_eliminated == 0,
            r.stats@.len() == 0,
            r.blocks_eliminated == 0,
    {
        OptimizationResult { modified: false, instructions_eliminated: 0, stats: Vec::new(), blocks_eliminated: 0 }
    }
}

/// The ids, in order, of the functions of `fs` named `name` (and not `not`).
pub open spec fn fn_ids_named(fs: Seq<IrFunction>, name: Seq<char>, not: Seq<char>) -> Seq<IrFunctionId>
    decreases fs.len(),
{
    if fs.len() == 0 {
        Seq::empty()
    } else {
        fn_ids_named(fs.drop_last(), name, not) + if fs.last().name@ == name && fs.last().name@ != not {
            seq![fs.last().id]
        } else {
            Seq::empty()
        }
    }
}

/// The ids, in order, of the external functions of `es` named `name` (and not `not`).
pub open spec fn extern_ids_named(es: Seq<crate::module::IrExternFunction>, name: Seq<char>, not: Seq<char>) -> Seq<IrFunctionId>
    decreases es.len(),
{
    if es.len() == 0 {
        Seq::empty()
    } else {
        extern_ids_named(es.drop_last(), name, not) + if es.last().name@ == name && es.last().name@ != not {
            seq![es.last().id]
        } else {
            Seq::empty()
        }
    }
}

/// The functions of `m` taken for `malloc`: those so named.
pub open spec fn malloc_ids_of(m: IrModule) -> Seq<IrFunctionId> {
    fn_ids_named(m.functions@, "malloc"@, Seq::empty()) + extern_ids_named(m.extern_functions@, "malloc"@, Seq::empty())
}

/// The functions of `m` taken for `free`: those so named.
pub open spec fn free_ids_of(m: IrModule) -> Seq<IrFunctionId> {
    fn_ids_named(m.functions@, "free"@, "malloc"@) + extern_ids_named(m.extern_functions@, "free"@, "malloc"@)
}

/// The number of frees the pass inserts into the functions `fs`.
pub open spec fn module_frees(fs: Seq<IrFunction>, malloc_ids: Seq<IrFunctionId>, free_ids: Seq<IrFunctionId>) -> nat
    decreases fs.len(),
{
    if fs.len() == 0 {
        0
    } else {
        module_frees(fs.drop_last(), malloc_ids, free_ids) + frees_inserted(fs.last().cfg.blocks@, malloc_ids, free_ids)
    }
}

proof fn lemma_module_frees_prefix(fs: Seq<IrFunction>, malloc_ids: Seq<IrFunctionId>, free_ids: Seq<IrFunctionId>, i: int)
    requires
        0 <= i < fs.len(),
    ensures
        module_frees(fs.subrange(0, i + 1), malloc_ids, free_ids) == module_frees(fs.subrange(0, i), malloc_ids, free_ids)
            + frees_inserted(fs[i].cfg.blocks@, malloc_ids, free_ids),
        module_frees(fs.subrange(0, i + 1), malloc_ids, free_ids) <= module_frees(fs, malloc_ids, free_ids),
    decreases fs.len(),
{
    assert(fs.subrange(0, i + 1).drop_last() =~= fs.subrange(0, i));
    if i + 1 < fs.len() {
        assert(fs.drop_last().subrange(0, i + 1) =~= fs.subrange(0, i + 1));
        assert(fs.drop_last()[i] == fs[i]);
        lemma_module_frees_prefix(fs.drop_last(), malloc_ids, free_ids, i);
    } else {
        assert(fs.subrange(0, i + 1) =~= fs);
    }
}

/// `m1` is `m0` after the pass: each function has its frees added, with
/// the allocator functions of `m0`; nothing else changed.
pub open spec fn pass_applied(m0: IrModule, m1: IrModule) -> bool {
    &&& m1 == (IrModule { functions: m1.functions, ..m0 })
    &&& m1.functions@.len() == m0.functions@.len()
    &&& forall|i: int| 0 <= i < m0.functions@.len() ==> frees_added(
        m0.functions@[i],
        #[trigger] m1.functions@[i],
        malloc_ids_of(m0),
        free_ids_of(m0),
    )
}

/// The pass that frees non-escaping allocations.
pub struct InsertFreePass;

impl InsertFreePass {
    pub fn new() -> (r: InsertFreePass)
        ensures
            r == InsertFreePass,
    {
        InsertFreePass
    }

    /// The name of the pass.
    pub fn name(&self) -> (r: &'static str)
        ensures
            r@ == "InsertFree"@,
    {
        "InsertFree"
    }

    /// Runs the pass on every function of `module`; the functions named
    /// `malloc` and `free` (defined or external) are the allocator.
    pub fn run_on_module(&mut self, module: &mut IrModule) -> (r: OptimizationResult)
        requires
            module_frees(old(module).functions@, malloc_ids_of(*old(module)), free_ids_of(*old(module))) <= usize::MAX,
        ensures
            pass_applied(*old(module), *final(module)),
            ({
                let total = module_frees(old(module).functions@, malloc_ids_of(*old(module)), free_ids_of(*old(module)));
                if total > 0 {
                    &&& r.modified
                    &&& r.instructions_eliminated == 0
                    &&& r.blocks_eliminated == 0
                    &&& r.stats@.len() == 1
                    &&& r.stats@[0].0@ == "free_instructions_inserted"@
                    &&& r.stats@[0].1 == total
                } else {
                    &&& !r.modified
                    &&& r.instructions_eliminated == 0
                    &&& r.blocks_eliminated == 0
                    &&& r.stats@.len() == 0
                }
            }),
    {
        let ghost m0 = *module;
        let ghost mids = malloc_ids_of(m0);
        let ghost fids = free_ids_of(m0);
        proof {
            reveal_strlit("malloc");
            assert("malloc"@.len() == 6);
        }
        let malloc_name = "malloc".to_owned();
        let free_name = "free".to_owned();
        let mut malloc_ids: Vec<IrFunctionId> = Vec::new();
        let mut free_ids: Vec<IrFunctionId> = Vec::new();
        let mut i: usize = 0;
        while i < module.functions.len()
            invariant
                *module == m0,
                malloc_name@ == "malloc"@,
                free_name@ == "free"@,
                "malloc"@ != Seq::<char>::empty(),
                i <= m0.functions@.len(),
                malloc_ids@ == fn_ids_named(m0.functions@.subrange(0, i as int), "malloc"@, Seq::empty()),
                free_ids@ == fn_ids_named(m0.functions@.subrange(0, i as int), "free"@, "malloc"@),
            decreases m0.functions@.len() - i,
        {
            proof { assert(m0.functions@.subrange(0, i + 1).drop_last() =~= m0.functions@.subrange(0, i as int)); }
            if module.functions[i].name == malloc_name {
                malloc_ids.push(module.functions[i].id);
            } else if module.functions[i].name == free_name {
                free_ids.push(module.functions[i].id);
            }
            proof {
                assert(malloc_ids@ =~= fn_ids_named(m0.functions@.subrange(0, i + 1), "malloc"@, Seq::empty()));
                assert(free_ids@ =~= fn_ids_named(m0.functions@.subrange(0, i + 1), "free"@, "malloc"@));
            }
            i = i + 1;
        }
        proof { assert(m0.functions@.subrange(0, i as int) =~= m0.functions@); }
        let ghost fn_malloc = malloc_ids@;
        let ghost fn_free = free_ids@;
        let mut e: usize = 0;
        while e < module.extern_functions.len()
            invariant
                *module == m0,
                malloc_name@ == "malloc"@,
                free_name@ == "free"@,
                "malloc"@ != Seq::<char>::empty(),
                e <= m0.extern_functions@.len(),
                malloc_ids@ == fn_malloc + extern_ids_named(m0.extern_functions@.subrange(0, e as int), "malloc"@, Seq::empty()),
                free_ids@ == fn_free + extern_ids_named(m0.extern_functions@.subrange(0, e as int), "free"@, "malloc"@),
            decreases m0.extern_functions@.len() - e,
        {
            proof { assert(m0.extern_functions@.subrange(0, e + 1).drop_last() =~= m0.extern_functions@.subrange(0, e as int)); }
            if module.extern_functions[e].name == malloc_name {
                malloc_ids.push(module.extern_functions[e].id);
            } else if module.extern_functions[e].name == free_name {
                free_ids.push(module.extern_functions[e].id);
            }
            proof {
                assert(malloc_ids@ =~= fn_malloc + extern_ids_named(m0.extern_functions@.subrange(0, e + 1), "malloc"@, Seq::empty()));
                assert(free_ids@ =~= fn_free + extern_ids_named(m0.extern_functions@.subrange(0, e + 1), "free"@, "malloc"@));
            }
            e = e + 1;
        }
        proof {
            assert(m0.extern_functions@.subrange(0, e as int) =~= m0.extern_functions@);
            assert(malloc_ids@ == mids);
            assert(free_ids@ == fids);
        }
        let mut total_inserted: usize = 0;
        let mut i: usize = 0;
        while i < module.functions.len()
            invariant
                malloc_ids@ == mids,
                free_ids@ == fids,
                module_frees(m0.functions@, mids, fids) <= usize::MAX,
                *module == (IrModule { functions: module.functions, ..m0 }),
                module.functions@.len() == m0.functions@.len(),
                i <= m0.functions@.len(),
                forall|j: int| 0 <= j < i ==> frees_added(m0.functions@[j], #[trigger] module.functions@[j], mids, fids),
                forall|j: int| i <= j < m0.functions@.len() ==> #[trigger] module.functions@[j] == m0.functions@[j],
                total_inserted == module_frees(m0.functions@.subrange(0, i as int), mids, fids),
            decreases m0.functions@.len() - i,
        {
            proof { lemma_module_frees_prefix(m0.functions@, mids, fids, i as int); }
            let n = insert_free_for_function(&mut module.functions[i], &malloc_ids, &free_ids);
            total_inserted = total_inserted + n;
            i = i + 1;
        }
        proof { assert(m0.functions@.subrange(0, i as int) =~= m0.functions@); }
        if total_inserted > 0 {
            let mut stats: Vec<(String, usize)> = Vec::new();
            stats.push(("free_instructions_inserted".to_owned(), total_inserted));
            OptimizationResult { modified: true, instructions_eliminated: 0, stats, blocks_eliminated: 0 }
        } else {
            OptimizationResult::unchanged()
        }
    }
}


// ----------------------------------------------------------------------
// Running the pass again
// ----------------------------------------------------------------------

/// `b1` is `b0` with nothing but `Free` instructions appended to its blocks.
pub open spec fn frees_appended(b0: Seq<IrBasicBlock>, b1: Seq<IrBasicBlock>) -> bool {
    &&& b1.len() == b0.len()
    &&& forall|k: int| 0 <= k < b0.len() ==> {
        &&& crate::blocks::same_but_instructions(b0[k], #[trigger] b1[k])
        &&& b1[k].instructions@.len() >= b0[k].instructions@.len()
        &&& forall|m: int| 0 <= m < b0[k].instructions@.len() ==> #[trigger] b1[k].instructions@[m] == b0[k].instructions@[m]
        &&& forall|m: int| b0[k].instructions@.len() <= m < b1[k].instructions@.len() ==> (#[trigger] b1[k].instructions@[m]) is Free
    }
}

proof fn lemma_frees_added_appends(f: IrFunction, nf: IrFunction, malloc_ids: Seq<IrFunctionId>, free_ids: Seq<IrFunctionId>)
    requires
        frees_added(f, nf, malloc_ids, free_ids),
    ensures
        frees_appended(f.cfg.blocks@, nf.cfg.blocks@),
{
    let b0 = f.cfg.blocks@;
    let b1 = nf.cfg.blocks@;
    let tf = to_free(b0, malloc_ids, free_ids);
    assert forall|k: int| 0 <= k < b0.len() implies {
        &&& crate::blocks::same_but_instructions(b0[k], #[trigger] b1[k])
        &&& b1[k].instructions@.len() >= b0[k].instructions@.len()
        &&& forall|m: int| 0 <= m < b0[k].instructions@.len() ==> #[trigger] b1[k].instructions@[m] == b0[k].instructions@[m]
        &&& forall|m: int| b0[k].instructions@.len() <= m < b1[k].instructions@.len() ==> (#[trigger] b1[k].instructions@[m]) is Free
    } by {
        let fr = frees_at(b0[k].terminator, tf, b0);
        assert(b1[k].instructions@ == b0[k].instructions@ + free_insts(fr));
        assert forall|m: int| b0[k].instructions@.len() <= m < b1[k].instructions@.len() implies (#[trigger] b1[k].instructions@[m]) is Free by {
            let j = m - b0[k].instructions@.len();
            assert(free_insts(fr)[j] == IrInstruction::Free { ptr: fr[j] });
        }
    }
}

proof fn lemma_derives_same(b0: Seq<IrBasicBlock>, b1: Seq<IrBasicBlock>)
    requires
        frees_appended(b0, b1),
    ensures
        forall|x: IrId, y: IrId| #[trigger] derives(b1, x, y) == derives(b0, x, y),
{
    assert forall|x: IrId, y: IrId| #[trigger] derives(b1, x, y) == derives(b0, x, y) by {
        if derives(b1, x, y) {
            let (k, m) = choose|k: int, m: int|
                0 <= k < b1.len() && 0 <= m < b1[k].instructions@.len()
                    && #[trigger] derive_pair(b1[k].instructions@[m]) == Some((x, y));
            if m >= b0[k].instructions@.len() {
                assert(b1[k].instructions@[m] is Free);
            } else {
                assert(b1[k].instructions@[m] == b0[k].instructions@[m]);
            }
        }
        if derives(b0, x, y) {
            let (k, m) = choose|k: int, m: int|
                0 <= k < b0.len() && 0 <= m < b0[k].instructions@.len()
                    && #[trigger] derive_pair(b0[k].instructions@[m]) == Some((x, y));
            assert(b1[k].instructions@[m] == b0[k].instructions@[m]);
        }
    }
}

proof fn lemma_derived_same(b0: Seq<IrBasicBlock>, b1: Seq<IrBasicBlock>)
    requires
        frees_appended(b0, b1),
    ensures
        forall|a: IrId, y: IrId| #[trigger] derived_from(b1, a, y) == derived_from(b0, a, y),
{
    lemma_derives_same(b0, b1);
    assert forall|p: Seq<IrId>| #[trigger] is_chain(b1, p) == is_chain(b0, p) by {
        if is_chain(b1, p) {
            assert forall|i: int| 0 <= i < p.len() - 1 implies #[trigger] derives(b0, p[i], p[i + 1]) by {
                assert(derives(b1, p[i], p[i + 1]));
            }
        }
        if is_chain(b0, p) {
            assert forall|i: int| 0 <= i < p.len() - 1 implies #[trigger] derives(b1, p[i], p[i + 1]) by {
                assert(derives(b0, p[i], p[i + 1]));
            }
        }
    }
    assert forall|a: IrId, y: IrId| #[trigger] derived_from(b1, a, y) == derived_from(b0, a, y) by {
        if derived_from(b1, a, y) {
            let p = choose|p: Seq<IrId>| #[trigger] is_chain(b1, p) && p.len() >= 1 && p[0] == a && p.last() == y;
            assert(is_chain(b0, p));
        }
        if derived_from(b0, a, y) {
            let p = choose|p: Seq<IrId>| #[trigger] is_chain(b0, p) && p.len() >= 1 && p[0] == a && p.last() == y;
            assert(is_chain(b1, p));
        }
    }
}

proof fn lemma_escapes_same(b0: Seq<IrBasicBlock>, b1: Seq<IrBasicBlock>, a: IrId)
    requires
        frees_appended(b0, b1),
    ensures
        escapes(b1, a) == escapes(b0, a),
{
    lemma_derived_same(b0, b1);
    assert forall|regs: Seq<IrId>| #[trigger] any_derived(b1, a, regs) == any_derived(b0, a, regs) by {
        if any_derived(b1, a, regs) {
            let i = choose|i: int| 0 <= i < regs.len() && derived_from(b1, a, #[trigger] regs[i]);
            assert(derived_from(b0, a, regs[i]));
        }
        if any_derived(b0, a, regs) {
            let i = choose|i: int| 0 <= i < regs.len() && derived_from(b0, a, #[trigger] regs[i]);
            assert(derived_from(b1, a, regs[i]));
        }
    }
    assert forall|inst: IrInstruction| #[trigger] inst_escapes(b1, a, inst) == inst_escapes(b0, a, inst) by {}
    assert forall|phi: IrPhiNode| #[trigger] phi_escapes(b1, a, phi) == phi_escapes(b0, a, phi) by {
        if phi_escapes(b1, a, phi) {
            let e = choose|e: int| 0 <= e < phi.incoming@.len() && derived_from(b1, a, (#[trigger] phi.incoming@[e]).1);
            assert(derived_from(b0, a, phi.incoming@[e].1));
        }
        if phi_escapes(b0, a, phi) {
            let e = choose|e: int| 0 <= e < phi.incoming@.len() && derived_from(b0, a, (#[trigger] phi.incoming@[e]).1);
            assert(derived_from(b1, a, phi.incoming@[e].1));
        }
    }
    assert forall|k: int| 0 <= k < b0.len() implies #[trigger] block_escapes(b1, a, b1[k]) == block_escapes(b0, a, b0[k]) by {
        let n0 = b0[k].instructions@.len();
        if exists|m: int| 0 <= m < b1[k].instructions@.len() && inst_escapes(b1, a, #[trigger] b1[k].instructions@[m]) {
            let m = choose|m: int| 0 <= m < b1[k].instructions@.len() && inst_escapes(b1, a, #[trigger] b1[k].instructions@[m]);
            if m >= n0 {
                assert(b1[k].instructions@[m] is Free);
            } else {
                assert(b1[k].instructions@[m] == b0[k].instructions@[m]);
                assert(inst_escapes(b0, a, b0[k].instructions@[m]));
            }
        }
        if exists|m: int| 0 <= m < n0 && inst_escapes(b0, a, #[trigger] b0[k].instructions@[m]) {
            let m = choose|m: int| 0 <= m < n0 && inst_escapes(b0, a, #[trigger] b0[k].instructions@[m]);
            assert(b1[k].instructions@[m] == b0[k].instructions@[m]);
            assert(inst_escapes(b1, a, b1[k].instructions@[m]));
        }
        if exists|p: int| 0 <= p < b1[k].phi_nodes@.len() && phi_escapes(b1, a, #[trigger] b1[k].phi_nodes@[p]) {
            let p = choose|p: int| 0 <= p < b1[k].phi_nodes@.len() && phi_escapes(b1, a, #[trigger] b1[k].phi_nodes@[p]);
            assert(phi_escapes(b0, a, b0[k].phi_nodes@[p]));
        }
        if exists|p: int| 0 <= p < b0[k].phi_nodes@.len() && phi_escapes(b0, a, #[trigger] b0[k].phi_nodes@[p]) {
            let p = choose|p: int| 0 <= p < b0[k].phi_nodes@.len() && phi_escapes(b0, a, #[trigger] b0[k].phi_nodes@[p]);
            assert(phi_escapes(b1, a, b1[k].phi_nodes@[p]));
        }
        assert(term_escapes(b1, a, b1[k].terminator) == term_escapes(b0, a, b0[k].terminator));
    }
    if escapes(b1, a) {
        let k = choose|k: int| 0 <= k < b1.len() && block_escapes(b1, a, #[trigger] b1[k]);
        assert(block_escapes(b0, a, b0[k]));
    }
    if escapes(b0, a) {
        let k = choose|k: int| 0 <= k < b0.len() && block_escapes(b0, a, #[trigger] b0[k]);
        assert(block_escapes(b1, a, b1[k]));
    }
}

proof fn lemma_has_free_kept(b0: Seq<IrBasicBlock>, b1: Seq<IrBasicBlock>, a: IrId, free_ids: Seq<IrFunctionId>)
    requires
        frees_appended(b0, b1),
        has_free(b0, a, free_ids),
    ensures
        has_free(b1, a, free_ids),
{
    lemma_derived_same(b0, b1);
    let (k, m) = choose|k: int, m: int|
        0 <= k < b0.len() && 0 <= m < b0[k].instructions@.len()
            && #[trigger] inst_frees(b0, a, free_ids, b0[k].instructions@[m]);
    let inst = b0[k].instructions@[m];
    assert(b1[k].instructions@[m] == inst);
    match inst {
        IrInstruction::CallDirect { args, .. } => {
            let i = choose|i: int| 0 <= i < args@.len() && derived_from(b0, a, #[trigger] args@[i]);
            assert(derived_from(b1, a, args@[i]));
        },
        _ => {},
    }
    assert(inst_frees(b1, a, free_ids, b1[k].instructions@[m]));
}

proof fn lemma_insts_sources_same(s0: Seq<IrInstruction>, s1: Seq<IrInstruction>, malloc_ids: Seq<IrFunctionId>)
    requires
        s1.len() >= s0.len(),
        forall|m: int| 0 <= m < s0.len() ==> #[trigger] s1[m] == s0[m],
        forall|m: int| s0.len() <= m < s1.len() ==> (#[trigger] s1[m]) is Free,
    ensures
        insts_sources(s1, malloc_ids) == insts_sources(s0, malloc_ids),
    decreases s1.len(),
{
    if s1.len() == s0.len() {
        assert(s1 =~= s0);
    } else {
        assert(s1.last() is Free);
        lemma_insts_sources_same(s0, s1.drop_last(), malloc_ids);
        assert(insts_sources(s1, malloc_ids) =~= insts_sources(s1.drop_last(), malloc_ids));
    }
}

proof fn lemma_sources_same(b0: Seq<IrBasicBlock>, b1: Seq<IrBasicBlock>, malloc_ids: Seq<IrFunctionId>)
    requires
        frees_appended(b0, b1),
    ensures
        alloc_sources(b1, malloc_ids) == alloc_sources(b0, malloc_ids),
    decreases b0.len(),
{
    if b0.len() > 0 {
        let n = b0.len() - 1;
        assert(b1[n] == b1.last() && b0[n] == b0.last());
        assert(frees_appended(b0.drop_last(), b1.drop_last())) by {
            assert forall|k: int| 0 <= k < n implies #[trigger] b1.drop_last()[k] == b1[k] && b0.drop_last()[k] == b0[k] by {}
        }
        lemma_sources_same(b0.drop_last(), b1.drop_last(), malloc_ids);
        lemma_insts_sources_same(b0[n].instructions@, b1[n].instructions@, malloc_ids);
    }
}

proof fn lemma_needing_contains(s: Seq<IrId>, blocks: Seq<IrBasicBlock>, free_ids: Seq<IrFunctionId>, x: IrId)
    ensures
        needing(s, blocks, free_ids).contains(x) <==> s.contains(x) && needs_free(blocks, x, free_ids),
    decreases s.len(),
{
    if s.len() > 0 {
        lemma_needing_contains(s.drop_last(), blocks, free_ids, x);
        let tail = if needs_free(blocks, s.last(), free_ids) { seq![s.last()] } else { Seq::<IrId>::empty() };
        let r = needing(s.drop_last(), blocks, free_ids);
        assert(needing(s, blocks, free_ids) == r + tail);
        if (r + tail).contains(x) {
            let j = choose|j: int| 0 <= j < (r + tail).len() && (r + tail)[j] == x;
            if j < r.len() {
                assert(r[j] == x);
                assert(r.contains(x));
                let i = choose|i: int| 0 <= i < s.drop_last().len() && s.drop_last()[i] == x;
                assert(s[i] == x);
            } else {
                assert(s[s.len() - 1] == x);
            }
        }
        if s.contains(x) && needs_free(blocks, x, free_ids) {
            let i = choose|i: int| 0 <= i < s.len() && s[i] == x;
            if i < s.len() - 1 {
                assert(s.drop_last()[i] == x);
                assert(r.contains(x));
                let j = choose|j: int| 0 <= j < r.len() && r[j] == x;
                assert((r + tail)[j] == x);
            } else {
                assert((r + tail)[r.len() as int] == x);
            }
        }
    }
}

proof fn lemma_not_returned_contains(s: Seq<IrId>, blocks: Seq<IrBasicBlock>, value: Option<IrId>, x: IrId)
    requires
        s.contains(x),
        !(value matches Some(v) && derived_from(blocks, x, v)),
    ensures
        not_returned(s, blocks, value).contains(x),
    decreases s.len(),
{
    let r = not_returned(s.drop_last(), blocks, value);
    let keep = !(value matches Some(v) && derived_from(blocks, s.last(), v));
    let tail = if keep { seq![s.last()] } else { Seq::<IrId>::empty() };
    assert(not_returned(s, blocks, value) == r + tail);
    let i = choose|i: int| 0 <= i < s.len() && s[i] == x;
    if i < s.len() - 1 {
        assert(s.drop_last()[i] == x);
        lemma_not_returned_contains(s.drop_last(), blocks, value, x);
        let j = choose|j: int| 0 <= j < r.len() && r[j] == x;
        assert((r + tail)[j] == x);
    } else {
        assert((r + tail)[r.len() as int] == x);
    }
}

proof fn lemma_total_frees_none(bs: Seq<IrBasicBlock>, tf: Seq<IrId>, blocks: Seq<IrBasicBlock>)
    requires
        forall|k: int| 0 <= k < bs.len() ==> frees_at(#[trigger] bs[k].terminator, tf, blocks).len() == 0,
    ensures
        total_frees(bs, tf, blocks) == 0,
    decreases bs.len(),
{
    if bs.len() > 0 {
        assert(frees_at(bs[bs.len() - 1].terminator, tf, blocks).len() == 0);
        assert forall|k: int| 0 <= k < bs.drop_last().len() implies frees_at(#[trigger] bs.drop_last()[k].terminator, tf, blocks).len() == 0 by {
            assert(bs.drop_last()[k] == bs[k]);
        }
        lemma_total_frees_none(bs.drop_last(), tf, blocks);
    }
}

/// The pass is idempotent: run on a function it has already run on, it
/// inserts nothing. Every allocation it freed is now freed before each
/// return, and the frees it added derive no pointer, let nothing escape
/// and allocate nothing.
pub proof fn lemma_insert_free_idempotent(
    f: IrFunction,
    nf: IrFunction,
    malloc_ids: Seq<IrFunctionId>,
    free_ids: Seq<IrFunctionId>,
)
    requires
        frees_added(f, nf, malloc_ids, free_ids),
    ensures
        frees_inserted(nf.cfg.blocks@, malloc_ids, free_ids) == 0,
{
    let b0 = f.cfg.blocks@;
    let b1 = nf.cfg.blocks@;
    let tf0 = to_free(b0, malloc_ids, free_ids);
    let tf1 = to_free(b1, malloc_ids, free_ids);
    lemma_frees_added_appends(f, nf, malloc_ids, free_ids);
    lemma_sources_same(b0, b1, malloc_ids);
    lemma_derived_same(b0, b1);
    assert forall|k: int| 0 <= k < b1.len() implies frees_at(#[trigger] b1[k].terminator, tf1, b1).len() == 0 by {
        if b1[k].terminator is Return && tf1.len() > 0 {
            let a = tf1[0];
            assert(tf1.contains(a));
            lemma_needing_contains(alloc_sources(b1, malloc_ids), b1, free_ids, a);
            lemma_escapes_same(b0, b1, a);
            if has_free(b0, a, free_ids) {
                lemma_has_free_kept(b0, b1, a, free_ids);
            }
            lemma_needing_contains(alloc_sources(b0, malloc_ids), b0, free_ids, a);
            assert(tf0.contains(a));
            let t = b0[k].terminator;
            assert(t == b1[k].terminator);
            assert(!block_escapes(b0, a, b0[k]));
            assert(!term_escapes(b0, a, t));
            let value = t->Return_value;
            lemma_not_returned_contains(tf0, b0, value, a);
            let fr = frees_at(t, tf0, b0);
            assert(fr.contains(a));
            let j = choose|j: int| 0 <= j < fr.len() && fr[j] == a;
            let n0 = b0[k].instructions@.len();
            assert(b1[k].instructions@ == b0[k].instructions@ + free_insts(fr));
            assert(free_insts(fr)[j] == IrInstruction::Free { ptr: a });
            assert(b1[k].instructions@[n0 + j] == IrInstruction::Free { ptr: a });
            lemma_chain_self(b0, a);
            assert(inst_frees(b1, a, free_ids, b1[k].instructions@[n0 + j]));
            assert(has_free(b1, a, free_ids));
        }
        if tf1.len() == 0 {
            assert(not_returned(tf1, b1, None) =~= Seq::<IrId>::empty());
            assert forall|v: Option<IrId>| #[trigger] not_returned(tf1, b1, v).len() == 0 by {
                assert(not_returned(tf1, b1, v) =~= Seq::<IrId>::empty());
            }
        }
    }
    lemma_total_frees_none(b1, tf1, b1);
}

proof fn lemma_fn_ids_named_same(fs0: Seq<IrFunction>, fs1: Seq<IrFunction>, name: Seq<char>, not: Seq<char>)
    requires
        fs1.len() == fs0.len(),
        forall|i: int| 0 <= i < fs0.len() ==> (#[trigger] fs1[i]).name == fs0[i].name && fs1[i].id == fs0[i].id,
    ensures
        fn_ids_named(fs1, name, not) == fn_ids_named(fs0, name, not),
    decreases fs0.len(),
{
    if fs0.len() > 0 {
        assert(fs1.last() == fs1[fs1.len() - 1]);
        assert(fs1.last().name == fs0.last().name && fs1.last().id == fs0.last().id);
        assert forall|i: int| 0 <= i < fs0.drop_last().len() implies (#[trigger] fs1.drop_last()[i]).name == fs0.drop_last()[i].name
            && fs1.drop_last()[i].id == fs0.drop_last()[i].id by {
            assert(fs1.drop_last()[i] == fs1[i]);
        }
        lemma_fn_ids_named_same(fs0.drop_last(), fs1.drop_last(), name, not);
    }
}

proof fn lemma_module_frees_zero(fs0: Seq<IrFunction>, fs1: Seq<IrFunction>, malloc_ids: Seq<IrFunctionId>, free_ids: Seq<IrFunctionId>)
    requires
        fs1.len() == fs0.len(),
        forall|i: int| 0 <= i < fs0.len() ==> frees_added(fs0[i], #[trigger] fs1[i], malloc_ids, free_ids),
    ensures
        module_frees(fs1, malloc_ids, free_ids) == 0,
    decreases fs0.len(),
{
    if fs0.len() > 0 {
        let n = fs0.len() - 1;
        assert(frees_added(fs0[n], fs1[n], malloc_ids, free_ids));
        lemma_insert_free_idempotent(fs0[n], fs1[n], malloc_ids, free_ids);
        assert forall|i: int| 0 <= i < fs0.drop_last().len() implies frees_added(fs0.drop_last()[i], #[trigger] fs1.drop_last()[i], malloc_ids, free_ids) by {
            assert(frees_added(fs0[i], fs1[i], malloc_ids, free_ids));
        }
        lemma_module_frees_zero(fs0.drop_last(), fs1.drop_last(), malloc_ids, free_ids);
    }
}

/// Running the pass on a module it has already run on inserts no free: the
/// second run reports the module unchanged.
pub proof fn lemma_pass_idempotent(m0: IrModule, m1: IrModule)
    requires
        pass_applied(m0, m1),
    ensures
        malloc_ids_of(m1) == malloc_ids_of(m0),
        free_ids_of(m1) == free_ids_of(m0),
        module_frees(m1.functions@, malloc_ids_of(m1), free_ids_of(m1)) == 0,
{
    let fs0 = m0.functions@;
    let fs1 = m1.functions@;
    assert forall|i: int| 0 <= i < fs0.len() implies (#[trigger] fs1[i]).name == fs0[i].name && fs1[i].id == fs0[i].id by {
        assert(frees_added(fs0[i], fs1[i], malloc_ids_of(m0), free_ids_of(m0)));
    }
    lemma_fn_ids_named_same(fs0, fs1, "malloc"@, Seq::empty());
    lemma_fn_ids_named_same(fs0, fs1, "free"@, "malloc"@);
    lemma_module_frees_zero(fs0, fs1, malloc_ids_of(m0), free_ids_of(m0));
}
} // verus!
