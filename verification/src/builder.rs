//! A builder that constructs IR functions block by block, keeping track of
//! the function and block being built.

use vstd::prelude::*;
use crate::blocks::{
    block_pos, lemma_block_pos_ids, lemma_block_pos_range, same_body, same_but_instructions,
    same_but_phis, same_ids, IrBasicBlock,
};
use crate::functions::{
    bumped, is_new_function, is_unnamed_local, IrFunction, IrFunctionSignature, IrLocal, IrParameter,
};
use crate::ids::{IrBlockId, IrFunctionId, IrId, SymbolId};
use crate::instructions::{term_targets, terminator_targets, IrInstruction, IrPhiNode, IrTerminator};
use crate::module::{fn_pos, lemma_fn_pos, lemma_fn_pos_ids, lemma_fn_pos_range, pool_has, IrModule, StringPool};
use crate::types::{BinaryOp, CallingConvention, CompareOp, IrSourceLocation, IrType, IrValue, UnaryOp};

verus! {

/// Builds the functions of a module.
pub struct IrBuilder {
    /// The module being built.
    pub module: IrModule,
    /// The function being built, if any.
    pub current_function: Option<IrFunctionId>,
    /// The block being built, if any.
    pub current_block: Option<IrBlockId>,
    /// The source location attached to what is built.
    pub current_source_location: IrSourceLocation,
}

/// `b` equals `a` but for the function at index `i`.
pub open spec fn same_module_but_fn(a: IrModule, b: IrModule, i: int) -> bool {
    &&& b.name == a.name
    &&& b.source_file == a.source_file
    &&& b.extern_functions == a.extern_functions
    &&& b.string_pool == a.string_pool
    &&& b.next_function_id == a.next_function_id
    &&& b.functions@.len() == a.functions@.len()
    &&& forall|k: int| 0 <= k < a.functions@.len() && k != i ==> #[trigger] b.functions@[k] == a.functions@[k]
}

/// `b` equals `a` but for the contents of its blocks.
pub open spec fn same_fn_but_blocks(a: IrFunction, b: IrFunction) -> bool {
    &&& b.id == a.id
    &&& b.symbol_id == a.symbol_id
    &&& b.name == a.name
    &&& b.signature == a.signature
    &&& b.locals == a.locals
    &&& b.next_reg_id == a.next_reg_id
    &&& b.cfg.entry_block == a.cfg.entry_block
    &&& b.cfg.next_block_id == a.cfg.next_block_id
    &&& b.cfg.blocks@.len() == a.cfg.blocks@.len()
}

/// `b` equals `a` but for the block at index `j`.
pub open spec fn same_blocks_but(a: Seq<IrBasicBlock>, b: Seq<IrBasicBlock>, j: int) -> bool {
    &&& b.len() == a.len()
    &&& forall|k: int| 0 <= k < a.len() && k != j ==> #[trigger] b[k] == a[k]
}

/// Some target of `targets` names, in `blocks`, the block at index `k`.
pub open spec fn is_hit(blocks: Seq<IrBasicBlock>, k: int, targets: Seq<IrBlockId>) -> bool {
    exists|m: int| 0 <= m < targets.len() && block_pos(blocks, #[trigger] targets[m]) == k
}

/// `b` is `a` after block `j` got the terminator `term` and `from` was
/// recorded, once, as a predecessor of each block named in `targets`.
pub open spec fn terminated_with(
    a: Seq<IrBasicBlock>,
    b: Seq<IrBasicBlock>,
    j: int,
    from: IrBlockId,
    term: IrTerminator,
    targets: Seq<IrBlockId>,
) -> bool {
    &&& b.len() == a.len()
    &&& forall|k: int| 0 <= k < a.len() ==> {
        &&& same_body(a[k], #[trigger] b[k])
        &&& b[k].terminator == if k == j { term } else { a[k].terminator }
        &&& b[k].predecessors@ == if is_hit(a, k, targets) && !a[k].predecessors@.contains(from) {
            a[k].predecessors@.push(from)
        } else {
            a[k].predecessors@
        }
    }
}

/// `b` is `a` after block `j` got the terminator `term` and `from` was
/// recorded, once, as a predecessor of each block that `term` can reach.
pub open spec fn terminated(
    a: Seq<IrBasicBlock>,
    b: Seq<IrBasicBlock>,
    j: int,
    from: IrBlockId,
    term: IrTerminator,
) -> bool {
    terminated_with(a, b, j, from, term, term_targets(term))
}

/// What setting the terminator of the block being built does.
pub open spec fn terminates(a: IrBuilder, b: IrBuilder, r: Option<()>, term: IrTerminator) -> bool {
    if a.has_block() {
        let nf = b.the_module().functions@[a.fpos()];
        &&& r == Some(())
        &&& same_context(a, b)
        &&& same_module_but_fn(a.the_module(), b.the_module(), a.fpos())
        &&& same_fn_but_blocks(a.func(), nf)
        &&& terminated(a.func().cfg.blocks@, nf.cfg.blocks@, a.bpos(), a.cur_block()->0, term)
    } else {
        r is None && b == a
    }
}

/// One more connection extends a run of connections by one target.
proof fn lemma_connect_step(
    a: Seq<IrBasicBlock>,
    cur: Seq<IrBasicBlock>,
    next: Seq<IrBasicBlock>,
    j: int,
    from: IrBlockId,
    term: IrTerminator,
    targets: Seq<IrBlockId>,
    m: int,
)
    requires
        0 <= m < targets.len(),
        terminated_with(a, cur, j, from, term, targets.subrange(0, m)),
        crate::blocks::connected(cur, next, from, targets[m]),
    ensures
        terminated_with(a, next, j, from, term, targets.subrange(0, m + 1)),
{
    let t = targets[m];
    let pre = targets.subrange(0, m);
    let pre1 = targets.subrange(0, m + 1);
    assert(same_ids(a, cur)) by {
        assert forall|k: int| 0 <= k < a.len() implies (#[trigger] cur[k]).id == a[k].id by {
            assert(same_body(a[k], cur[k]));
        }
    }
    lemma_block_pos_ids(a, cur, t);
    let p = block_pos(a, t);
    assert forall|k: int| 0 <= k < a.len() implies is_hit(a, k, pre1) == (is_hit(a, k, pre) || p == k) by {
        if is_hit(a, k, pre) {
            let w = choose|w: int| 0 <= w < pre.len() && block_pos(a, #[trigger] pre[w]) == k;
            assert(pre1[w] == pre[w]);
        }
        if p == k {
            assert(pre1[m] == t);
        }
        if is_hit(a, k, pre1) {
            let w = choose|w: int| 0 <= w < pre1.len() && block_pos(a, #[trigger] pre1[w]) == k;
            if w < m {
                assert(pre[w] == pre1[w]);
            }
        }
    }
    assert forall|k: int| 0 <= k < a.len() implies {
        &&& same_body(a[k], #[trigger] next[k])
        &&& next[k].terminator == if k == j { term } else { a[k].terminator }
        &&& next[k].predecessors@ == if is_hit(a, k, pre1) && !a[k].predecessors@.contains(from) {
            a[k].predecessors@.push(from)
        } else {
            a[k].predecessors@
        }
    } by {
        assert(same_body(a[k], cur[k]));
        if k == p {
            let ap = a[k].predecessors@;
            assert(ap.push(from)[ap.len() as int] == from);
            assert(ap.push(from).contains(from));
        }
    }
}

/// The constant that `build_int` makes of `value` for type `ty`: `value`
/// truncated to an integer type, and nothing for other types.
pub open spec fn int_value(value: i64, ty: IrType) -> Option<IrValue> {
    match ty {
        IrType::I8 => Some(IrValue::I8(value as i8)),
        IrType::I16 => Some(IrValue::I16(value as i16)),
        IrType::I32 => Some(IrValue::I32(value as i32)),
        IrType::I64 => Some(IrValue::I64(value)),
        IrType::U8 => Some(IrValue::U8(value as u8)),
        IrType::U16 => Some(IrValue::U16(value as u16)),
        IrType::U32 => Some(IrValue::U32(value as u32)),
        IrType::U64 => Some(IrValue::U64(value as u64)),
        _ => None,
    }
}

/// `b` is the pool `a` after `StringPool::add(s)`.
pub open spec fn pool_added(a: StringPool, b: StringPool, s: String) -> bool {
    &&& pool_has(a.strings@, s@) ==> b.strings == a.strings
    &&& !pool_has(a.strings@, s@) ==> b.strings@ == a.strings@.push(s)
}

/// What `build_phi` does: with a function being built a register is
/// allocated; if that function has a block `block`, a phi node of type `ty`
/// with no incoming values, defining the new register, is appended to it.
pub open spec fn phi_added(a: IrBuilder, b: IrBuilder, r: Option<IrId>, block: IrBlockId, ty: IrType) -> bool {
    if !a.has_fn() {
        r is None && b == a
    } else {
        let dest = IrId(a.func().next_reg_id);
        let j = a.pos_of_block(block);
        if j < 0 {
            r is None && fn_replaced(a, b, bumped(a.func()))
        } else {
            let f0 = bumped(a.func());
            let nf = b.the_module().functions@[a.fpos()];
            let ob = f0.cfg.blocks@[j];
            let nb = nf.cfg.blocks@[j];
            &&& r == Some(dest)
            &&& same_context(a, b)
            &&& same_module_but_fn(a.the_module(), b.the_module(), a.fpos())
            &&& same_fn_but_blocks(f0, nf)
            &&& same_blocks_but(f0.cfg.blocks@, nf.cfg.blocks@, j)
            &&& same_but_phis(ob, nb)
            &&& nb.phi_nodes@.len() == ob.phi_nodes@.len() + 1
            &&& nb.phi_nodes@.drop_last() == ob.phi_nodes@
            &&& nb.phi_nodes@.last().dest == dest
            &&& nb.phi_nodes@.last().incoming@.len() == 0
            &&& nb.phi_nodes@.last().ty == ty
        }
    }
}

/// `p` is the index of the first phi node of `phis` that defines `dest`.
pub open spec fn is_first_phi(phis: Seq<IrPhiNode>, dest: IrId, p: int) -> bool {
    &&& 0 <= p < phis.len()
    &&& phis[p].dest == dest
    &&& forall|q: int| 0 <= q < p ==> phis[q].dest != dest
}

proof fn lemma_first_phi_unique(phis: Seq<IrPhiNode>, dest: IrId, p: int, q: int)
    requires
        is_first_phi(phis, dest, p),
        is_first_phi(phis, dest, q),
    ensures
        p == q,
{
    if p < q {
        assert(phis[p].dest != dest);
    } else if q < p {
        assert(phis[q].dest != dest);
    }
}

/// What `add_phi_incoming` does: when the function being built has a block
/// `block` with a phi node defining `phi_dest`, the pair (`from`, `value`)
/// is appended to the incoming values of the first such phi node; otherwise
/// nothing changes and `None` comes back.
pub open spec fn incoming_added(
    a: IrBuilder,
    b: IrBuilder,
    r: Option<()>,
    block: IrBlockId,
    phi_dest: IrId,
    from: IrBlockId,
    value: IrId,
) -> bool {
    let j = a.pos_of_block(block);
    if j >= 0 && exists|p: int| is_first_phi(a.func().cfg.blocks@[j].phi_nodes@, phi_dest, p) {
        let p = choose|p: int| is_first_phi(a.func().cfg.blocks@[j].phi_nodes@, phi_dest, p);
        let f0 = a.func();
        let nf = b.the_module().functions@[a.fpos()];
        let ob = f0.cfg.blocks@[j];
        let nb = nf.cfg.blocks@[j];
        let op = ob.phi_nodes@[p];
        let np = nb.phi_nodes@[p];
        &&& r == Some(())
        &&& same_context(a, b)
        &&& same_module_but_fn(a.the_module(), b.the_module(), a.fpos())
        &&& same_fn_but_blocks(f0, nf)
        &&& same_blocks_but(f0.cfg.blocks@, nf.cfg.blocks@, j)
        &&& same_but_phis(ob, nb)
        &&& nb.phi_nodes@.len() == ob.phi_nodes@.len()
        &&& forall|q: int| 0 <= q < ob.phi_nodes@.len() && q != p ==> #[trigger] nb.phi_nodes@[q] == ob.phi_nodes@[q]
        &&& np.dest == op.dest
        &&& np.ty == op.ty
        &&& np.incoming@ == op.incoming@.push((from, value))
    } else {
        r is None && b == a
    }
}

/// `b` equals `a` in every field but its label.
pub open spec fn same_but_label(a: IrBasicBlock, b: IrBasicBlock) -> bool {
    &&& b.id == a.id
    &&& b.phi_nodes == a.phi_nodes
    &&& b.instructions == a.instructions
    &&& b.terminator == a.terminator
    &&& b.predecessors == a.predecessors
}

/// What `create_block_with_label` does: with a function being built, a
/// fresh block with the next block id is appended to it, and the first block
/// with that id gets the label.
pub open spec fn labelled_block_added(a: IrBuilder, b: IrBuilder, r: Option<IrBlockId>, label: String) -> bool {
    if !a.has_fn() {
        r is None && b == a
    } else {
        let f0 = a.func();
        let nf = b.the_module().functions@[a.fpos()];
        let id = IrBlockId(f0.cfg.next_block_id);
        let n = f0.cfg.blocks@.len() as int;
        let p = block_pos(nf.cfg.blocks@, id);
        &&& r == Some(id)
        &&& same_context(a, b)
        &&& same_module_but_fn(a.the_module(), b.the_module(), a.fpos())
        &&& nf == (IrFunction { cfg: nf.cfg, ..f0 })
        &&& nf.cfg.entry_block == f0.cfg.entry_block
        &&& nf.cfg.next_block_id == f0.cfg.next_block_id + 1
        &&& nf.cfg.blocks@.len() == n + 1
        &&& 0 <= p <= n
        &&& nf.cfg.blocks@[p].label == Some(label)
        &&& forall|k: int| 0 <= k < n && k != p ==> #[trigger] nf.cfg.blocks@[k] == f0.cfg.blocks@[k]
        &&& p < n ==> same_but_label(f0.cfg.blocks@[p], nf.cfg.blocks@[p])
        &&& p < n ==> crate::blocks::is_fresh_block(nf.cfg.blocks@[n], id)
        &&& p == n ==> same_but_label_fresh(nf.cfg.blocks@[n], id)
    }
}

/// `b` is a fresh block named `id` except for its label.
pub open spec fn same_but_label_fresh(b: IrBasicBlock, id: IrBlockId) -> bool {
    &&& b.id == id
    &&& b.phi_nodes@.len() == 0
    &&& b.instructions@.len() == 0
    &&& b.terminator == IrTerminator::Unreachable
    &&& b.predecessors@.len() == 0
}

impl IrBuilder {
    /// The module being built: the `module` field.
    pub open spec fn the_module(&self) -> IrModule {
        self.module
    }


    /// The id of the function being built.
    pub open spec fn cur_fn(&self) -> Option<IrFunctionId> {
        self.current_function
    }

    /// The id of the block being built.
    pub open spec fn cur_block(&self) -> Option<IrBlockId> {
        self.current_block
    }

    /// The source location attached to what is built.
    pub open spec fn source_location(&self) -> IrSourceLocation {
        self.current_source_location
    }

    /// The index in the module of the function being built, or -1.
    pub open spec fn fpos(&self) -> int {
        match self.cur_fn() {
            Some(id) => fn_pos(self.the_module().functions@, id),
            None => -1,
        }
    }

    pub open spec fn has_fn(&self) -> bool {
        self.fpos() >= 0
    }

    /// The function being built.
    pub open spec fn func(&self) -> IrFunction {
        self.the_module().functions@[self.fpos()]
    }

    /// The index, in the function being built, of the block being built, or -1.
    pub open spec fn bpos(&self) -> int {
        if self.has_fn() && self.cur_block() is Some {
            block_pos(self.func().cfg.blocks@, self.cur_block()->0)
        } else {
            -1
        }
    }

    pub open spec fn has_block(&self) -> bool {
        self.bpos() >= 0
    }

    /// The block being built.
    pub open spec fn block(&self) -> IrBasicBlock {
        self.func().cfg.blocks@[self.bpos()]
    }

    /// A register can be allocated without overflowing the counter.
    pub open spec fn can_alloc(&self) -> bool {
        self.has_fn() ==> self.func().next_reg_id < u32::MAX
    }

    /// The index of block `id` in the function being built, or -1.
    pub open spec fn pos_of_block(&self, id: IrBlockId) -> int {
        if self.has_fn() {
            block_pos(self.func().cfg.blocks@, id)
        } else {
            -1
        }
    }
}

/// `b` has the context (function, block, location) of `a`.
pub open spec fn same_context(a: IrBuilder, b: IrBuilder) -> bool {
    &&& b.cur_fn() == a.cur_fn()
    &&& b.cur_block() == a.cur_block()
    &&& b.source_location() == a.source_location()
}

/// `b` is `a` with the function being built replaced by `f`.
pub open spec fn fn_replaced(a: IrBuilder, b: IrBuilder, f: IrFunction) -> bool {
    &&& same_context(a, b)
    &&& same_module_but_fn(a.the_module(), b.the_module(), a.fpos())
    &&& b.the_module().functions@[a.fpos()] == f
}

/// `b` is `a` where the function being built, taken as `f0`, has `inst`
/// appended to the block at index `j`.
pub open spec fn appended_at(a: IrBuilder, b: IrBuilder, f0: IrFunction, j: int, inst: IrInstruction) -> bool {
    let nf = b.the_module().functions@[a.fpos()];
    &&& same_context(a, b)
    &&& same_module_but_fn(a.the_module(), b.the_module(), a.fpos())
    &&& same_fn_but_blocks(f0, nf)
    &&& same_blocks_but(f0.cfg.blocks@, nf.cfg.blocks@, j)
    &&& same_but_instructions(f0.cfg.blocks@[j], nf.cfg.blocks@[j])
    &&& nf.cfg.blocks@[j].instructions@ == f0.cfg.blocks@[j].instructions@.push(inst)
}

/// What every builder operation that defines a register does: with no
/// function being built nothing changes and `None` comes back; otherwise a
/// register is allocated, and if a block is being built the instruction
/// `mk(dest)` is appended to it and `Some(dest)` comes back.
pub open spec fn emits(a: IrBuilder, b: IrBuilder, r: Option<IrId>, mk: spec_fn(IrId) -> IrInstruction) -> bool {
    if !a.has_fn() {
        r is None && b == a
    } else {
        let dest = IrId(a.func().next_reg_id);
        if !a.has_block() {
            r is None && fn_replaced(a, b, bumped(a.func()))
        } else {
            r == Some(dest) && appended_at(a, b, bumped(a.func()), a.bpos(), mk(dest))
        }
    }
}

/// What an operation that appends an instruction without defining a
/// register does.
pub open spec fn appends(a: IrBuilder, b: IrBuilder, r: Option<()>, inst: IrInstruction) -> bool {
    if a.has_block() {
        r == Some(()) && appended_at(a, b, a.func(), a.bpos(), inst)
    } else {
        r is None && b == a
    }
}

/// `b` is `a` after `alloc_reg` gave `r`: with a function being built, its
/// register counter, which `r` holds, is advanced; without one nothing changes.
pub open spec fn reg_allocated(a: IrBuilder, b: IrBuilder, r: Option<IrId>) -> bool {
    match r {
        Some(d) => {
            &&& a.has_fn()
            &&& d == IrId(a.func().next_reg_id)
            &&& fn_replaced(a, b, bumped(a.func()))
        },
        None => !a.has_fn() && b == a,
    }
}

/// Registers handed out one after the other are fresh: the second is one
/// past the first, and the counter is past both.
pub proof fn lemma_alloc_reg_fresh(a: IrBuilder, b: IrBuilder, c: IrBuilder, r1: IrId, r2: IrId)
    requires
        a.can_alloc(),
        reg_allocated(a, b, Some(r1)),
        b.can_alloc(),
        reg_allocated(b, c, Some(r2)),
    ensures
        r2.0 == r1.0 + 1,
        c.func().next_reg_id == r1.0 + 2,
{
    lemma_replaced_positions(a, b, bumped(a.func()));
    lemma_replaced_positions(b, c, bumped(b.func()));
}

/// Replacing the function being built by one with the same blocks keeps
/// the positions of the function and of the block being built.
pub proof fn lemma_replaced_positions(a: IrBuilder, b: IrBuilder, f: IrFunction)
    requires
        a.has_fn(),
        fn_replaced(a, b, f),
        f.id == a.func().id,
        same_ids(a.func().cfg.blocks@, f.cfg.blocks@),
    ensures
        b.fpos() == a.fpos(),
        b.has_fn(),
        b.func() == f,
        b.bpos() == a.bpos(),
        forall|id: IrBlockId| #[trigger] b.pos_of_block(id) == a.pos_of_block(id),
{
    lemma_fn_pos_ids(a.the_module().functions@, b.the_module().functions@, a.cur_fn()->0);
    if a.cur_block() is Some {
        lemma_block_pos_ids(a.func().cfg.blocks@, f.cfg.blocks@, a.cur_block()->0);
    }
    assert forall|id: IrBlockId| #[trigger] b.pos_of_block(id) == a.pos_of_block(id) by {
        lemma_block_pos_ids(a.func().cfg.blocks@, f.cfg.blocks@, id);
    }
}

impl IrBuilder {
    /// A builder for an empty module.
    pub fn new(module_name: String, source_file: String) -> (r: IrBuilder)
        ensures
            r.the_module().name == module_name,
            r.the_module().source_file == source_file,
            r.the_module().functions@.len() == 0,
            r.the_module().extern_functions@.len() == 0,
            r.the_module().string_pool.strings@.len() == 0,
            r.the_module().next_function_id == 0,
            r.the_module().types@.len() == 0,
            r.the_module().next_typedef_id == 0,
            r.cur_fn() is None,
            r.cur_block() is None,
            r.source_location() == IrSourceLocation::unknown_spec(),
    {
        IrBuilder {
            module: IrModule::new(module_name, source_file),
            current_function: None,
            current_block: None,
            current_source_location: IrSourceLocation::unknown(),
        }
    }

    /// Sets the source location attached to what is built next.
    pub fn set_source_location(&mut self, loc: IrSourceLocation)
        ensures
            final(self).the_module() == old(self).the_module(),
            final(self).cur_fn() == old(self).cur_fn(),
            final(self).cur_block() == old(self).cur_block(),
            final(self).source_location() == loc,
    {
        self.current_source_location = loc;
    }

    /// Starts a new function: it is added to the module and becomes the
    /// function being built, with its entry block as the block being built.
    pub fn start_function(&mut self, symbol_id: SymbolId, name: String, signature: IrFunctionSignature) -> (r: IrFunctionId)
        requires
            old(self).the_module().next_function_id < u32::MAX,
            signature.parameters@.len() < u32::MAX,
        ensures
            r == IrFunctionId(old(self).the_module().next_function_id),
            final(self).the_module().next_function_id == old(self).the_module().next_function_id + 1,
            final(self).the_module().functions@.len() == old(self).the_module().functions@.len() + 1,
            final(self).the_module().functions@.drop_last() == old(self).the_module().functions@,
            is_new_function(final(self).the_module().functions@.last(), r, symbol_id, name, signature),
            final(self).the_module().name == old(self).the_module().name,
            final(self).the_module().source_file == old(self).the_module().source_file,
            final(self).the_module().extern_functions == old(self).the_module().extern_functions,
            final(self).the_module().string_pool == old(self).the_module().string_pool,
            final(self).the_module().types == old(self).the_module().types,
            final(self).the_module().next_typedef_id == old(self).the_module().next_typedef_id,
            final(self).cur_fn() == Some(r),
            final(self).cur_block() == Some(IrBlockId(0)),
            final(self).source_location() == old(self).source_location(),
            old(self).the_module().wf() ==> final(self).the_module().wf(),
            final(self).the_module().functions@.last().cfg.wf(),
    {
        let id = self.module.alloc_function_id();
        let function = IrFunction::new(id, symbol_id, name, signature);
        self.current_function = Some(id);
        self.current_block = Some(function.entry_block());
        self.module.add_function(function);
        proof {
            let fs = self.the_module().functions@;
            assert(fs.drop_last() =~= old(self).the_module().functions@);
            if old(self).the_module().wf() {
                assert forall|k: int| 0 <= k < fs.len() implies (#[trigger] fs[k]).id.0 < self.the_module().next_function_id by {
                    if k < fs.len() - 1 {
                        assert(fs[k] == old(self).the_module().functions@[k]);
                    }
                }
            }
        }
        id
    }

    /// Stops building the current function.
    pub fn finish_function(&mut self)
        ensures
            final(self).the_module() == old(self).the_module(),
            final(self).cur_fn() is None,
            final(self).cur_block() is None,
            final(self).source_location() == old(self).source_location(),
    {
        self.current_function = None;
        self.current_block = None;
    }

    fn current_fn_index(&self) -> (r: Option<usize>)
        ensures
            match r {
                Some(i) => self.has_fn() && i == self.fpos(),
                None => !self.has_fn(),
            },
            self.fpos() < self.the_module().functions@.len(),
    {
        proof {
            if self.cur_fn() is Some {
                lemma_fn_pos_range(self.the_module().functions@, self.cur_fn()->0);
            }
        }
        match self.current_function {
            Some(id) => self.module.find_function(id),
            None => None,
        }
    }

    /// The function being built.
    pub fn current_function(&self) -> (r: Option<&IrFunction>)
        ensures
            match r {
                Some(f) => self.has_fn() && *f == self.func(),
                None => !self.has_fn(),
            },
    {
        match self.current_fn_index() {
            Some(i) => Some(&self.module.functions[i]),
            None => None,
        }
    }

    /// The function being built, for modification.
    pub fn current_function_mut(&mut self) -> (r: Option<&mut IrFunction>)
        ensures
            same_context(*old(self), *final(self)),
            match r {
                Some(f) => {
                    &&& old(self).has_fn()
                    &&& *f == old(self).func()
                    &&& same_module_but_fn(old(self).the_module(), final(self).the_module(), old(self).fpos())
                    &&& final(self).the_module().functions@[old(self).fpos()] == *final(f)
                },
                None => !old(self).has_fn() && *final(self) == *old(self),
            },
    {
        match self.current_fn_index() {
            Some(i) => Some(&mut self.module.functions[i]),
            None => None,
        }
    }

    /// Adds a fresh empty block to the function being built.
    pub fn create_block(&mut self) -> (r: Option<IrBlockId>)
        requires
            old(self).has_fn() ==> old(self).func().cfg.next_block_id < u32::MAX,
        ensures
            same_context(*old(self), *final(self)),
            match r {
                Some(id) => {
                    let f0 = old(self).func();
                    let nf = final(self).the_module().functions@[old(self).fpos()];
                    &&& old(self).has_fn()
                    &&& id == IrBlockId(f0.cfg.next_block_id)
                    &&& same_module_but_fn(old(self).the_module(), final(self).the_module(), old(self).fpos())
                    &&& nf == (IrFunction { cfg: nf.cfg, ..f0 })
                    &&& nf.cfg.entry_block == f0.cfg.entry_block
                    &&& nf.cfg.next_block_id == f0.cfg.next_block_id + 1
                    &&& nf.cfg.blocks@.drop_last() == f0.cfg.blocks@
                    &&& nf.cfg.blocks@.len() == f0.cfg.blocks@.len() + 1
                    &&& crate::blocks::is_fresh_block(nf.cfg.blocks@.last(), id)
                    &&& f0.cfg.wf() ==> nf.cfg.wf()
                },
                None => !old(self).has_fn() && *final(self) == *old(self),
            },
    {
        match self.current_fn_index() {
            Some(i) => Some(self.module.functions[i].cfg.create_block()),
            None => None,
        }
    }

    /// Makes `block` the block being built.
    pub fn switch_to_block(&mut self, block: IrBlockId)
        ensures
            final(self).the_module() == old(self).the_module(),
            final(self).cur_fn() == old(self).cur_fn(),
            final(self).cur_block() == Some(block),
            final(self).source_location() == old(self).source_location(),
    {
        self.current_block = Some(block);
    }

    /// The block being built.
    pub fn current_block(&self) -> (r: Option<IrBlockId>)
        ensures
            r == self.cur_block(),
    {
        self.current_block
    }

    /// A fresh register of the function being built.
    pub fn alloc_reg(&mut self) -> (r: Option<IrId>)
        requires
            old(self).can_alloc(),
        ensures
            reg_allocated(*old(self), *final(self), r),
    {
        match self.current_fn_index() {
            Some(i) => Some(self.module.functions[i].alloc_reg()),
            None => None,
        }
    }

    fn add_instruction(&mut self, inst: IrInstruction) -> (r: Option<()>)
        ensures
            appends(*old(self), *final(self), r, inst),
    {
        let block_id = match self.current_block {
            Some(b) => b,
            None => return None,
        };
        match self.current_fn_index() {
            Some(i) => match self.module.functions[i].cfg.find_block(block_id) {
                Some(j) => {
                    self.module.functions[i].cfg.blocks[j].add_instruction(inst);
                    Some(())
                },
                None => None,
            },
            None => None,
        }
    }

    /// A constant.
    pub fn build_const(&mut self, value: IrValue) -> (r: Option<IrId>)
        requires
            old(self).can_alloc(),
        ensures
            emits(*old(self), *final(self), r, |d: IrId| IrInstruction::Const { dest: d, value }),
    {
        let ghost b0 = *self;
        let dest = match self.alloc_reg() {
            Some(d) => d,
            None => return None,
        };
        proof { lemma_replaced_positions(b0, *self, bumped(b0.func())); }
        match self.add_instruction(IrInstruction::Const { dest, value }) {
            Some(()) => {},
            None => return None,
        }
        Some(dest)
    }

    /// A copy of register `src`.
    pub fn build_copy(&mut self, src: IrId) -> (r: Option<IrId>)
        requires
            old(self).can_alloc(),
        ensures
            emits(*old(self), *final(self), r, |d: IrId| IrInstruction::Copy { dest: d, src }),
    {
        let ghost b0 = *self;
        let dest = match self.alloc_reg() {
            Some(d) => d,
            None => return None,
        };
        proof { lemma_replaced_positions(b0, *self, bumped(b0.func())); }
        match self.add_instruction(IrInstruction::Copy { dest, src }) {
            Some(()) => {},
            None => return None,
        }
        Some(dest)
    }

    /// A load of a value of type `ty` through `ptr`.
    pub fn build_load(&mut self, ptr: IrId, ty: IrType) -> (r: Option<IrId>)
        requires
            old(self).can_alloc(),
        ensures
            emits(*old(self), *final(self), r, |d: IrId| IrInstruction::Load { dest: d, ptr, ty }),
    {
        let ghost b0 = *self;
        let dest = match self.alloc_reg() {
            Some(d) => d,
            None => return None,
        };
        proof { lemma_replaced_positions(b0, *self, bumped(b0.func())); }
        match self.add_instruction(IrInstruction::Load { dest, ptr, ty }) {
            Some(()) => {},
            None => return None,
        }
        Some(dest)
    }

    /// A binary operation.
    pub fn build_binop(&mut self, op: BinaryOp, left: IrId, right: IrId) -> (r: Option<IrId>)
        requires
            old(self).can_alloc(),
        ensures
            emits(*old(self), *final(self), r, |d: IrId| IrInstruction::BinOp { dest: d, op, left, right }),
    {
        let ghost b0 = *self;
        let dest = match self.alloc_reg() {
            Some(d) => d,
            None => return None,
        };
        proof { lemma_replaced_positions(b0, *self, bumped(b0.func())); }
        match self.add_instruction(IrInstruction::BinOp { dest, op, left, right }) {
            Some(()) => {},
            None => return None,
        }
        Some(dest)
    }

    /// A unary operation.
    pub fn build_unop(&mut self, op: UnaryOp, operand: IrId) -> (r: Option<IrId>)
        requires
            old(self).can_alloc(),
        ensures
            emits(*old(self), *final(self), r, |d: IrId| IrInstruction::UnOp { dest: d, op, operand }),
    {
        let ghost b0 = *self;
        let dest = match self.alloc_reg() {
            Some(d) => d,
            None => return None,
        };
        proof { lemma_replaced_positions(b0, *self, bumped(b0.func())); }
        match self.add_instruction(IrInstruction::UnOp { dest, op, operand }) {
            Some(()) => {},
            None => return None,
        }
        Some(dest)
    }

    /// A comparison.
    pub fn build_cmp(&mut self, op: CompareOp, left: IrId, right: IrId) -> (r: Option<IrId>)
        requires
            old(self).can_alloc(),
        ensures
            emits(*old(self), *final(self), r, |d: IrId| IrInstruction::Cmp { dest: d, op, left, right }),
    {
        let ghost b0 = *self;
        let dest = match self.alloc_reg() {
            Some(d) => d,
            None => return None,
        };
        proof { lemma_replaced_positions(b0, *self, bumped(b0.func())); }
        match self.add_instruction(IrInstruction::Cmp { dest, op, left, right }) {
            Some(()) => {},
            None => return None,
        }
        Some(dest)
    }

    /// A call of the function value `func`; the result type is not recorded.
    pub fn build_call(&mut self, func: IrId, args: Vec<IrId>, _ty: IrType) -> (r: Option<IrId>)
        requires
            old(self).can_alloc(),
        ensures
            emits(*old(self), *final(self), r, |d: IrId| IrInstruction::Call { dest: Some(d), func, args }),
    {
        let ghost b0 = *self;
        let dest = match self.alloc_reg() {
            Some(d) => d,
            None => return None,
        };
        proof { lemma_replaced_positions(b0, *self, bumped(b0.func())); }
        match self.add_instruction(IrInstruction::Call { dest: Some(dest), func, args }) {
            Some(()) => {},
            None => return None,
        }
        Some(dest)
    }

    /// A call of function `func_id` of the module.
    pub fn build_call_direct(&mut self, func_id: IrFunctionId, args: Vec<IrId>, _ty: IrType) -> (r: Option<IrId>)
        requires
            old(self).can_alloc(),
        ensures
            emits(*old(self), *final(self), r, |d: IrId| IrInstruction::CallDirect { dest: Some(d), func_id, args }),
    {
        let ghost b0 = *self;
        let dest = match self.alloc_reg() {
            Some(d) => d,
            None => return None,
        };
        proof { lemma_replaced_positions(b0, *self, bumped(b0.func())); }
        match self.add_instruction(IrInstruction::CallDirect { dest: Some(dest), func_id, args }) {
            Some(()) => {},
            None => return None,
        }
        Some(dest)
    }

    /// A call through the function pointer `func_ptr`.
    pub fn build_call_indirect(&mut self, func_ptr: IrId, args: Vec<IrId>, _ty: IrType) -> (r: Option<IrId>)
        requires
            old(self).can_alloc(),
        ensures
            emits(*old(self), *final(self), r, |d: IrId| IrInstruction::CallIndirect { dest: Some(d), func_ptr, args }),
    {
        let ghost b0 = *self;
        let dest = match self.alloc_reg() {
            Some(d) => d,
            None => return None,
        };
        proof { lemma_replaced_positions(b0, *self, bumped(b0.func())); }
        match self.add_instruction(IrInstruction::CallIndirect { dest: Some(dest), func_ptr, args }) {
            Some(()) => {},
            None => return None,
        }
        Some(dest)
    }

    /// A conversion of `src` from `from_ty` to `to_ty`.
    pub fn build_cast(&mut self, src: IrId, from_ty: IrType, to_ty: IrType) -> (r: Option<IrId>)
        requires
            old(self).can_alloc(),
        ensures
            emits(*old(self), *final(self), r, |d: IrId| IrInstruction::Cast { dest: d, src, from_ty, to_ty }),
    {
        let ghost b0 = *self;
        let dest = match self.alloc_reg() {
            Some(d) => d,
            None => return None,
        };
        proof { lemma_replaced_positions(b0, *self, bumped(b0.func())); }
        match self.add_instruction(IrInstruction::Cast { dest, src, from_ty, to_ty }) {
            Some(()) => {},
            None => return None,
        }
        Some(dest)
    }

    /// An allocation of `count` values (one if `None`) of type `ty`.
    pub fn build_alloc(&mut self, ty: IrType, count: Option<IrId>) -> (r: Option<IrId>)
        requires
            old(self).can_alloc(),
        ensures
            emits(*old(self), *final(self), r, |d: IrId| IrInstruction::Alloc { dest: d, ty, count }),
    {
        let ghost b0 = *self;
        let dest = match self.alloc_reg() {
            Some(d) => d,
            None => return None,
        };
        proof { lemma_replaced_positions(b0, *self, bumped(b0.func())); }
        match self.add_instruction(IrInstruction::Alloc { dest, ty, count }) {
            Some(()) => {},
            None => return None,
        }
        Some(dest)
    }

    /// The address of an element of the aggregate `ptr` points to.
    pub fn build_gep(&mut self, ptr: IrId, indices: Vec<IrId>, ty: IrType) -> (r: Option<IrId>)
        requires
            old(self).can_alloc(),
        ensures
            emits(*old(self), *final(self), r, |d: IrId| IrInstruction::GetElementPtr { dest: d, ptr, indices, ty }),
    {
        let ghost b0 = *self;
        let dest = match self.alloc_reg() {
            Some(d) => d,
            None => return None,
        };
        proof { lemma_replaced_positions(b0, *self, bumped(b0.func())); }
        match self.add_instruction(IrInstruction::GetElementPtr { dest, ptr, indices, ty }) {
            Some(()) => {},
            None => return None,
        }
        Some(dest)
    }

    /// A choice between `true_val` and `false_val` by `condition`.
    pub fn build_select(&mut self, condition: IrId, true_val: IrId, false_val: IrId) -> (r: Option<IrId>)
        requires
            old(self).can_alloc(),
        ensures
            emits(*old(self), *final(self), r, |d: IrId| IrInstruction::Select { dest: d, condition, true_val, false_val }),
    {
        let ghost b0 = *self;
        let dest = match self.alloc_reg() {
            Some(d) => d,
            None => return None,
        };
        proof { lemma_replaced_positions(b0, *self, bumped(b0.func())); }
        match self.add_instruction(IrInstruction::Select { dest, condition, true_val, false_val }) {
            Some(()) => {},
            None => return None,
        }
        Some(dest)
    }

    /// An element of an aggregate value.
    pub fn build_extract_value(&mut self, aggregate: IrId, indices: Vec<u32>) -> (r: Option<IrId>)
        requires
            old(self).can_alloc(),
        ensures
            emits(*old(self), *final(self), r, |d: IrId| IrInstruction::ExtractValue { dest: d, aggregate, indices }),
    {
        let ghost b0 = *self;
        let dest = match self.alloc_reg() {
            Some(d) => d,
            None => return None,
        };
        proof { lemma_replaced_positions(b0, *self, bumped(b0.func())); }
        match self.add_instruction(IrInstruction::ExtractValue { dest, aggregate, indices }) {
            Some(()) => {},
            None => return None,
        }
        Some(dest)
    }

    /// A store of `value` through `ptr`.
    pub fn build_store(&mut self, ptr: IrId, value: IrId) -> (r: Option<()>)
        ensures
            appends(*old(self), *final(self), r, IrInstruction::Store { ptr, value }),
    {
        self.add_instruction(IrInstruction::Store { ptr, value })
    }

    fn set_terminator(&mut self, term: IrTerminator) -> (r: Option<()>)
        ensures
            terminates(*old(self), *final(self), r, term),
    {
        let block_id = match self.current_block {
            Some(b) => b,
            None => return None,
        };
        let i = match self.current_fn_index() {
            Some(i) => i,
            None => return None,
        };
        let j = match self.module.functions[i].cfg.find_block(block_id) {
            Some(j) => j,
            None => return None,
        };
        let targets = terminator_targets(&term);
        let ghost a = self.module.functions@[i as int].cfg.blocks@;
        let ghost f0 = self.module.functions@[i as int];
        self.module.functions[i].cfg.blocks[j].set_terminator(term);
        proof {
            let cur = self.module.functions@[i as int].cfg.blocks@;
            assert forall|k: int| 0 <= k < a.len() implies !is_hit(a, k, targets@.subrange(0, 0)) by {}
            assert(terminated_with(a, cur, j as int, block_id, term, targets@.subrange(0, 0)));
        }
        let mut m: usize = 0;
        while m < targets.len()
            invariant
                i == old(self).fpos(),
                old(self).has_block(),
                j == old(self).bpos(),
                block_id == old(self).cur_block()->0,
                f0 == old(self).func(),
                a == f0.cfg.blocks@,
                targets@ == term_targets(term),
                m <= targets@.len(),
                same_context(*old(self), *self),
                same_module_but_fn(old(self).the_module(), self.the_module(), i as int),
                same_fn_but_blocks(f0, self.module.functions@[i as int]),
                terminated_with(a, self.module.functions@[i as int].cfg.blocks@, j as int, block_id, term, targets@.subrange(0, m as int)),
            decreases targets@.len() - m,
        {
            let ghost cur = self.module.functions@[i as int].cfg.blocks@;
            self.module.functions[i].cfg.connect_blocks(block_id, targets[m]);
            proof {
                lemma_connect_step(a, cur, self.module.functions@[i as int].cfg.blocks@, j as int, block_id, term, targets@, m as int);
            }
            m = m + 1;
        }
        proof { assert(targets@.subrange(0, m as int) =~= targets@); }
        Some(())
    }

    /// A phi node of type `ty`, with no incoming values yet, in block `block`.
    pub fn build_phi(&mut self, block: IrBlockId, ty: IrType) -> (r: Option<IrId>)
        requires
            old(self).can_alloc(),
        ensures
            phi_added(*old(self), *final(self), r, block, ty),
    {
        let ghost b0 = *self;
        let dest = match self.alloc_reg() {
            Some(d) => d,
            None => return None,
        };
        proof { lemma_replaced_positions(b0, *self, bumped(b0.func())); }
        let i = match self.current_fn_index() {
            Some(i) => i,
            None => return None,
        };
        match self.module.functions[i].cfg.find_block(block) {
            Some(j) => {
                let phi = IrPhiNode { dest, incoming: Vec::new(), ty };
                self.module.functions[i].cfg.blocks[j].add_phi(phi);
                proof {
                    let nb = self.module.functions@[i as int].cfg.blocks@[j as int];
                    assert(nb.phi_nodes@.drop_last() =~= b0.func().cfg.blocks@[j as int].phi_nodes@);
                }
                Some(dest)
            },
            None => None,
        }
    }

    /// Adds the incoming pair (`from_block`, `value`) to the first phi node
    /// of block `block` that defines `phi_dest`.
    pub fn add_phi_incoming(&mut self, block: IrBlockId, phi_dest: IrId, from_block: IrBlockId, value: IrId) -> (r: Option<()>)
        ensures
            incoming_added(*old(self), *final(self), r, block, phi_dest, from_block, value),
    {
        let i = match self.current_fn_index() {
            Some(i) => i,
            None => return None,
        };
        let j = match self.module.functions[i].cfg.find_block(block) {
            Some(j) => j,
            None => return None,
        };
        let mut p: usize = 0;
        while p < self.module.functions[i].cfg.blocks[j].phi_nodes.len()
            invariant
                i < self.module.functions@.len(),
                j < self.module.functions@[i as int].cfg.blocks@.len(),
                old(self).has_fn(),
                i == old(self).fpos(),
                j == old(self).pos_of_block(block),
                *self == *old(self),
                p <= self.module.functions@[i as int].cfg.blocks@[j as int].phi_nodes@.len(),
                forall|q: int| 0 <= q < p ==> self.module.functions@[i as int].cfg.blocks@[j as int].phi_nodes@[q].dest != phi_dest,
            decreases self.module.functions@[i as int].cfg.blocks@[j as int].phi_nodes@.len() - p,
        {
            if self.module.functions[i].cfg.blocks[j].phi_nodes[p].dest == phi_dest {
                proof {
                    let phis = old(self).func().cfg.blocks@[j as int].phi_nodes@;
                    assert(is_first_phi(phis, phi_dest, p as int));
                    let c = choose|c: int| is_first_phi(phis, phi_dest, c);
                    lemma_first_phi_unique(phis, phi_dest, p as int, c);
                }
                self.module.functions[i].cfg.blocks[j].phi_nodes[p].incoming.push((from_block, value));
                return Some(());
            }
            p = p + 1;
        }
        proof {
            let phis = old(self).func().cfg.blocks@[j as int].phi_nodes@;
            if exists|c: int| is_first_phi(phis, phi_dest, c) {
                let c = choose|c: int| is_first_phi(phis, phi_dest, c);
                assert(phis[c].dest == phi_dest);
            }
        }
        None
    }

    /// Adds a fresh block labelled `label` to the function being built.
    pub fn create_block_with_label(&mut self, label: String) -> (r: Option<IrBlockId>)
        requires
            old(self).has_fn() ==> old(self).func().cfg.next_block_id < u32::MAX,
        ensures
            labelled_block_added(*old(self), *final(self), r, label),
    {
        let ghost b0 = *self;
        let block_id = match self.create_block() {
            Some(id) => id,
            None => return None,
        };
        let ghost b1 = *self;
        proof {
            lemma_fn_pos_ids(b0.the_module().functions@, b1.the_module().functions@, b0.cur_fn()->0);
            let nb = b1.the_module().functions@[b0.fpos()].cfg.blocks@;
            lemma_block_pos_range(nb, block_id);
            assert(nb[nb.len() - 1].id == block_id);
        }
        let i = match self.current_fn_index() {
            Some(i) => i,
            None => {
                assert(false);
                return None;
            },
        };
        let j = match self.module.functions[i].cfg.find_block(block_id) {
            Some(j) => j,
            None => {
                assert(false);
                return None;
            },
        };
        self.module.functions[i].cfg.blocks[j].label = Some(label);
        proof {
            let f0 = b0.func();
            let nb1 = b1.the_module().functions@[i as int].cfg.blocks@;
            let nf = self.the_module().functions@[i as int];
            assert(nb1.drop_last() == f0.cfg.blocks@);
            assert forall|k: int| 0 <= k < f0.cfg.blocks@.len() implies #[trigger] nb1[k] == f0.cfg.blocks@[k] by {
                assert(nb1.drop_last()[k] == nb1[k]);
            }
            assert(same_ids(nb1, nf.cfg.blocks@)) by {
                assert forall|k: int| 0 <= k < nb1.len() implies (#[trigger] nf.cfg.blocks@[k]).id == nb1[k].id by {}
            }
            lemma_block_pos_ids(nb1, nf.cfg.blocks@, block_id);
        }
        Some(block_id)
    }

    /// A fresh register of the function being built, recorded as the local
    /// `name` of type `ty`.
    pub fn declare_local(&mut self, name: String, ty: IrType) -> (r: Option<IrId>)
        requires
            old(self).can_alloc(),
        ensures
            match r {
                Some(d) => {
                    let f = old(self).func();
                    let nf = final(self).the_module().functions@[old(self).fpos()];
                    &&& old(self).has_fn()
                    &&& d == IrId(f.next_reg_id)
                    &&& fn_replaced(*old(self), *final(self), nf)
                    &&& nf == (IrFunction { locals: nf.locals, ..bumped(f) })
                    &&& nf.locals@ == f.locals@.push(
                        (d, IrLocal { name, ty, mutable: true, source_location: IrSourceLocation::unknown_spec() }),
                    )
                },
                None => !old(self).has_fn() && *final(self) == *old(self),
            },
    {
        match self.current_fn_index() {
            Some(i) => Some(self.module.functions[i].declare_local(name, ty)),
            None => None,
        }
    }

    /// Records register `reg` of the function being built as holding a value of type `ty`.
    pub fn register_local(&mut self, reg: IrId, ty: IrType) -> (r: Option<()>)
        ensures
            match r {
                Some(()) => {
                    let f = old(self).func();
                    let nf = final(self).the_module().functions@[old(self).fpos()];
                    &&& old(self).has_fn()
                    &&& fn_replaced(*old(self), *final(self), nf)
                    &&& nf == (IrFunction { locals: nf.locals, ..f })
                    &&& nf.locals@.len() == f.locals@.len() + 1
                    &&& nf.locals@.drop_last() == f.locals@
                    &&& is_unnamed_local(nf.locals@.last(), reg, ty)
                },
                None => !old(self).has_fn() && *final(self) == *old(self),
            },
    {
        match self.current_fn_index() {
            Some(i) => {
                self.module.functions[i].register_local(reg, ty);
                Some(())
            },
            None => None,
        }
    }

    /// An integer constant `value`, truncated to the integer type `ty`;
    /// `None` for a type that is not an integer type.
    pub fn build_int(&mut self, value: i64, ty: IrType) -> (r: Option<IrId>)
        requires
            int_value(value, ty) is Some ==> old(self).can_alloc(),
        ensures
            match int_value(value, ty) {
                Some(v) => emits(*old(self), *final(self), r, |d: IrId| IrInstruction::Const { dest: d, value: v }),
                None => r is None && *final(self) == *old(self),
            },
    {
        let ir_value = match ty {
            IrType::I8 => IrValue::I8(value as i8),
            IrType::I16 => IrValue::I16(value as i16),
            IrType::I32 => IrValue::I32(value as i32),
            IrType::I64 => IrValue::I64(value),
            IrType::U8 => IrValue::U8(value as u8),
            IrType::U16 => IrValue::U16(value as u16),
            IrType::U32 => IrValue::U32(value as u32),
            IrType::U64 => IrValue::U64(value as u64),
            _ => return None,
        };
        self.build_const(ir_value)
    }

    /// A boolean constant.
    pub fn build_bool(&mut self, value: bool) -> (r: Option<IrId>)
        requires
            old(self).can_alloc(),
        ensures
            emits(*old(self), *final(self), r, |d: IrId| IrInstruction::Const { dest: d, value: IrValue::Bool(value) }),
    {
        self.build_const(IrValue::Bool(value))
    }

    /// A string constant; the string is also added to the module's string pool.
    pub fn build_string(&mut self, value: String) -> (r: Option<IrId>)
        requires
            old(self).can_alloc(),
            old(self).the_module().string_pool.strings@.len() < u32::MAX,
        ensures
            exists|mid: IrBuilder| {
                &&& same_context(*old(self), mid)
                &&& #[trigger] mid.the_module() == (IrModule { string_pool: mid.the_module().string_pool, ..old(self).the_module() })
                &&& pool_added(old(self).the_module().string_pool, mid.the_module().string_pool, value)
                &&& emits(mid, *final(self), r, |d: IrId| IrInstruction::Const { dest: d, value: IrValue::String(value) })
            },
    {
        let ghost b0 = *self;
        let _string_id = self.module.string_pool.add(value.clone());
        let ghost b1 = *self;
        proof {
            assert(b1.the_module() == (IrModule { string_pool: b1.the_module().string_pool, ..b0.the_module() }));
            if b0.cur_fn() is Some {
                lemma_fn_pos_ids(b0.the_module().functions@, b1.the_module().functions@, b0.cur_fn()->0);
            }
        }
        let r = self.build_const(IrValue::String(value));
        proof {
            assert(same_context(b0, b1));
            assert(emits(b1, *self, r, |d: IrId| IrInstruction::Const { dest: d, value: IrValue::String(value) }));
        }
        r
    }

    /// A null pointer constant.
    pub fn build_null(&mut self) -> (r: Option<IrId>)
        requires
            old(self).can_alloc(),
        ensures
            emits(*old(self), *final(self), r, |d: IrId| IrInstruction::Const { dest: d, value: IrValue::Null }),
    {
        self.build_const(IrValue::Null)
    }

    /// An addition, of floating-point values if `is_float`.
    pub fn build_add(&mut self, left: IrId, right: IrId, is_float: bool) -> (r: Option<IrId>)
        requires
            old(self).can_alloc(),
        ensures
            emits(
                *old(self),
                *final(self),
                r,
                |d: IrId| IrInstruction::BinOp {
                    dest: d,
                    op: if is_float { BinaryOp::FAdd } else { BinaryOp::Add },
                    left,
                    right,
                },
            ),
    {
        let op = if is_float { BinaryOp::FAdd } else { BinaryOp::Add };
        self.build_binop(op, left, right)
    }

    /// A subtraction, of floating-point values if `is_float`.
    pub fn build_sub(&mut self, left: IrId, right: IrId, is_float: bool) -> (r: Option<IrId>)
        requires
            old(self).can_alloc(),
        ensures
            emits(
                *old(self),
                *final(self),
                r,
                |d: IrId| IrInstruction::BinOp {
                    dest: d,
                    op: if is_float { BinaryOp::FSub } else { BinaryOp::Sub },
                    left,
                    right,
                },
            ),
    {
        let op = if is_float { BinaryOp::FSub } else { BinaryOp::Sub };
        self.build_binop(op, left, right)
    }

    /// A multiplication, of floating-point values if `is_float`.
    pub fn build_mul(&mut self, left: IrId, right: IrId, is_float: bool) -> (r: Option<IrId>)
        requires
            old(self).can_alloc(),
        ensures
            emits(
                *old(self),
                *final(self),
                r,
                |d: IrId| IrInstruction::BinOp {
                    dest: d,
                    op: if is_float { BinaryOp::FMul } else { BinaryOp::Mul },
                    left,
                    right,
                },
            ),
    {
        let op = if is_float { BinaryOp::FMul } else { BinaryOp::Mul };
        self.build_binop(op, left, right)
    }

    /// A division, of floating-point values if `is_float`.
    pub fn build_div(&mut self, left: IrId, right: IrId, is_float: bool) -> (r: Option<IrId>)
        requires
            old(self).can_alloc(),
        ensures
            emits(
                *old(self),
                *final(self),
                r,
                |d: IrId| IrInstruction::BinOp {
                    dest: d,
                    op: if is_float { BinaryOp::FDiv } else { BinaryOp::Div },
                    left,
                    right,
                },
            ),
    {
        let op = if is_float { BinaryOp::FDiv } else { BinaryOp::Div };
        self.build_binop(op, left, right)
    }

    /// Ends the block being built with a jump to `target`.
    pub fn build_branch(&mut self, target: IrBlockId) -> (r: Option<()>)
        ensures
            terminates(*old(self), *final(self), r, IrTerminator::Branch { target }),
    {
        self.set_terminator(IrTerminator::Branch { target })
    }

    /// Ends the block being built with a two-way branch on `condition`.
    pub fn build_cond_branch(&mut self, condition: IrId, true_target: IrBlockId, false_target: IrBlockId) -> (r: Option<()>)
        ensures
            terminates(*old(self), *final(self), r, IrTerminator::CondBranch { condition, true_target, false_target }),
    {
        self.set_terminator(IrTerminator::CondBranch { condition, true_target, false_target })
    }

    /// Ends the block being built with a multi-way branch on `value`.
    pub fn build_switch(&mut self, value: IrId, cases: Vec<(i64, IrBlockId)>, default: IrBlockId) -> (r: Option<()>)
        ensures
            terminates(*old(self), *final(self), r, IrTerminator::Switch { value, cases, default }),
    {
        self.set_terminator(IrTerminator::Switch { value, cases, default })
    }

    /// Ends the block being built with a return.
    pub fn build_return(&mut self, value: Option<IrId>) -> (r: Option<()>)
        ensures
            terminates(*old(self), *final(self), r, IrTerminator::Return { value }),
    {
        self.set_terminator(IrTerminator::Return { value })
    }

    /// Marks the end of the block being built as unreachable.
    pub fn build_unreachable(&mut self) -> (r: Option<()>)
        ensures
            terminates(*old(self), *final(self), r, IrTerminator::Unreachable),
    {
        self.set_terminator(IrTerminator::Unreachable)
    }
}

/// Builds a function signature parameter by parameter.
pub struct FunctionSignatureBuilder {
    parameters: Vec<IrParameter>,
    return_type: IrType,
    calling_convention: CallingConvention,
    can_throw: bool,
}

/// `p` is a parameter `name` of type `ty` whose register is not assigned yet (0).
pub open spec fn is_unassigned_param(p: IrParameter, name: String, ty: IrType, by_ref: bool) -> bool {
    &&& p.name == name
    &&& p.ty == ty
    &&& p.reg == IrId(0)
    &&& p.by_ref == by_ref
}

impl FunctionSignatureBuilder {
    /// The parameters added so far, in order.
    pub closed spec fn params(&self) -> Seq<IrParameter> {
        self.parameters@
    }

    pub closed spec fn ret(&self) -> IrType {
        self.return_type
    }

    pub closed spec fn convention(&self) -> CallingConvention {
        self.calling_convention
    }

    pub closed spec fn throws(&self) -> bool {
        self.can_throw
    }

    /// No parameters, returning `Void`, with the Haxe calling convention, not throwing.
    pub fn new() -> (r: FunctionSignatureBuilder)
        ensures
            r.params().len() == 0,
            r.ret() == IrType::Void,
            r.convention() == CallingConvention::Haxe,
            !r.throws(),
    {
        FunctionSignatureBuilder {
            parameters: Vec::new(),
            return_type: IrType::Void,
            calling_convention: CallingConvention::Haxe,
            can_throw: false,
        }
    }

    /// Adds a by-value parameter.
    pub fn param(self, name: String, ty: IrType) -> (r: FunctionSignatureBuilder)
        ensures
            r.params().len() == self.params().len() + 1,
            r.params().drop_last() == self.params(),
            is_unassigned_param(r.params().last(), name, ty, false),
            r.ret() == self.ret(),
            r.convention() == self.convention(),
            r.throws() == self.throws(),
    {
        let mut b = self;
        b.parameters.push(IrParameter { name, ty, reg: IrId::new(0), by_ref: false });
        proof { assert(b.parameters@.drop_last() =~= self.parameters@); }
        b
    }

    /// Adds a by-reference parameter.
    pub fn param_by_ref(self, name: String, ty: IrType) -> (r: FunctionSignatureBuilder)
        ensures
            r.params().len() == self.params().len() + 1,
            r.params().drop_last() == self.params(),
            is_unassigned_param(r.params().last(), name, ty, true),
            r.ret() == self.ret(),
            r.convention() == self.convention(),
            r.throws() == self.throws(),
    {
        let mut b = self;
        b.parameters.push(IrParameter { name, ty, reg: IrId::new(0), by_ref: true });
        proof { assert(b.parameters@.drop_last() =~= self.parameters@); }
        b
    }

    /// Sets the return type.
    pub fn return_type(self, ty: IrType) -> (r: FunctionSignatureBuilder)
        ensures
            r.params() == self.params(),
            r.ret() == ty,
            r.convention() == self.convention(),
            r.throws() == self.throws(),
    {
        let mut b = self;
        b.return_type = ty;
        b
    }

    pub fn calling_convention(self, cc: CallingConvention) -> (r: FunctionSignatureBuilder)
        ensures
            r.params() == self.params(),
            r.ret() == self.ret(),
            r.convention() == cc,
            r.throws() == self.throws(),
    {
        let mut b = self;
        b.calling_convention = cc;
        b
    }

    pub fn can_throw(self, throws: bool) -> (r: FunctionSignatureBuilder)
        ensures
            r.params() == self.params(),
            r.ret() == self.ret(),
            r.convention() == self.convention(),
            r.throws() == throws,
    {
        let mut b = self;
        b.can_throw = throws;
        b
    }

    /// The signature, with no type parameters.
    pub fn build(self) -> (r: IrFunctionSignature)
        ensures
            r.parameters@ == self.params(),
            r.return_type == self.ret(),
            r.calling_convention == self.convention(),
            r.can_throw == self.throws(),
            r.type_params@.len() == 0,
    {
        IrFunctionSignature {
            parameters: self.parameters,
            return_type: self.return_type,
            calling_convention: self.calling_convention,
            can_throw: self.can_throw,
            type_params: Vec::new(),
        }
    }
}


} // verus!
