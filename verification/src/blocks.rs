//! Basic blocks and the control-flow graph of a function.

use vstd::prelude::*;
use crate::ids::IrBlockId;
use crate::instructions::{IrInstruction, IrPhiNode, IrTerminator};

verus! {

/// A straight-line sequence of instructions ended by a terminator.
#[derive(Debug)]
pub struct IrBasicBlock {
    pub id: IrBlockId,
    pub label: Option<String>,
    pub phi_nodes: Vec<IrPhiNode>,
    pub instructions: Vec<IrInstruction>,
    pub terminator: IrTerminator,
    pub predecessors: Vec<IrBlockId>,
}

/// `b` is an empty block named `id`: no label, phis, instructions or
/// predecessors, and an `Unreachable` terminator.
pub open spec fn is_fresh_block(b: IrBasicBlock, id: IrBlockId) -> bool {
    &&& b.id == id
    &&& b.label is None
    &&& b.phi_nodes@.len() == 0
    &&& b.instructions@.len() == 0
    &&& b.terminator == IrTerminator::Unreachable
    &&& b.predecessors@.len() == 0
}

/// `b` equals `a` in every field but its instructions.
pub open spec fn same_but_instructions(a: IrBasicBlock, b: IrBasicBlock) -> bool {
    &&& b.id == a.id
    &&& b.label == a.label
    &&& b.phi_nodes == a.phi_nodes
    &&& b.terminator == a.terminator
    &&& b.predecessors == a.predecessors
}

/// `b` equals `a` in every field but its phi nodes.
pub open spec fn same_but_phis(a: IrBasicBlock, b: IrBasicBlock) -> bool {
    &&& b.id == a.id
    &&& b.label == a.label
    &&& b.instructions == a.instructions
    &&& b.terminator == a.terminator
    &&& b.predecessors == a.predecessors
}

/// `b` equals `a` in its id, label, phi nodes and instructions.
pub open spec fn same_body(a: IrBasicBlock, b: IrBasicBlock) -> bool {
    &&& b.id == a.id
    &&& b.label == a.label
    &&& b.phi_nodes == a.phi_nodes
    &&& b.instructions == a.instructions
}

impl IrBasicBlock {
    pub fn new(id: IrBlockId) -> (r: IrBasicBlock)
        ensures
            is_fresh_block(r, id),
    {
        IrBasicBlock {
            id,
            label: None,
            phi_nodes: Vec::new(),
            instructions: Vec::new(),
            terminator: IrTerminator::Unreachable,
            predecessors: Vec::new(),
        }
    }

    pub fn add_instruction(&mut self, inst: IrInstruction)
        ensures
            same_but_instructions(*old(self), *final(self)),
            final(self).instructions@ == old(self).instructions@.push(inst),
    {
        self.instructions.push(inst);
    }

    pub fn add_phi(&mut self, phi: IrPhiNode)
        ensures
            same_but_phis(*old(self), *final(self)),
            final(self).phi_nodes@ == old(self).phi_nodes@.push(phi),
    {
        self.phi_nodes.push(phi);
    }

    pub fn set_terminator(&mut self, term: IrTerminator)
        ensures
            same_body(*old(self), *final(self)),
            final(self).predecessors == old(self).predecessors,
            final(self).terminator == term,
    {
        self.terminator = term;
    }
}

/// The index of the first block of `blocks` named `id`, or -1 if there is none.
pub open spec fn block_pos(blocks: Seq<IrBasicBlock>, id: IrBlockId) -> int {
    if exists|i: int| is_first_block(blocks, id, i) {
        choose|i: int| is_first_block(blocks, id, i)
    } else {
        -1
    }
}

pub open spec fn is_first_block(blocks: Seq<IrBasicBlock>, id: IrBlockId, i: int) -> bool {
    &&& 0 <= i < blocks.len()
    &&& blocks[i].id == id
    &&& forall|j: int| 0 <= j < i ==> blocks[j].id != id
}

pub proof fn lemma_block_pos(blocks: Seq<IrBasicBlock>, id: IrBlockId, i: int)
    requires
        is_first_block(blocks, id, i),
    ensures
        block_pos(blocks, id) == i,
{
    let k = choose|k: int| is_first_block(blocks, id, k);
    assert(is_first_block(blocks, id, k));
    if k < i {
        assert(blocks[k].id != id);
    } else if k > i {
        assert(blocks[i].id != id);
    }
}

pub proof fn lemma_block_pos_none(blocks: Seq<IrBasicBlock>, id: IrBlockId)
    requires
        forall|j: int| 0 <= j < blocks.len() ==> blocks[j].id != id,
    ensures
        block_pos(blocks, id) == -1,
{
}

pub proof fn lemma_first_block_exists(blocks: Seq<IrBasicBlock>, id: IrBlockId, j: int)
    requires
        0 <= j < blocks.len(),
        blocks[j].id == id,
    ensures
        exists|i: int| is_first_block(blocks, id, i),
    decreases j,
{
    if forall|q: int| 0 <= q < j ==> blocks[q].id != id {
        assert(is_first_block(blocks, id, j));
    } else {
        let q = choose|q: int| 0 <= q < j && blocks[q].id == id;
        lemma_first_block_exists(blocks, id, q);
    }
}

pub proof fn lemma_block_pos_range(blocks: Seq<IrBasicBlock>, id: IrBlockId)
    ensures
        -1 <= block_pos(blocks, id) < blocks.len(),
        block_pos(blocks, id) >= 0 ==> blocks[block_pos(blocks, id)].id == id,
        block_pos(blocks, id) == -1 ==> forall|j: int| 0 <= j < blocks.len() ==> blocks[j].id != id,
{
    if exists|i: int| is_first_block(blocks, id, i) {
        let k = choose|k: int| is_first_block(blocks, id, k);
        assert(is_first_block(blocks, id, k));
    } else {
        assert forall|j: int| 0 <= j < blocks.len() implies blocks[j].id != id by {
            if blocks[j].id == id {
                lemma_first_block_exists(blocks, id, j);
            }
        }
    }
}

/// The index of `id` in `blocks` depends only on the ids of the blocks.
pub proof fn lemma_block_pos_ids(a: Seq<IrBasicBlock>, b: Seq<IrBasicBlock>, id: IrBlockId)
    requires
        same_ids(a, b),
    ensures
        block_pos(a, id) == block_pos(b, id),
{
    lemma_block_pos_range(a, id);
    lemma_block_pos_range(b, id);
    let i = block_pos(a, id);
    if i >= 0 {
        assert(is_first_block(a, id, i)) by {
            if !is_first_block(a, id, i) {
                let j = choose|j: int| 0 <= j < i && a[j].id == id;
                lemma_first_block_exists(a, id, j);
                let k = choose|k: int| is_first_block(a, id, k);
                lemma_block_pos(a, id, k);
            }
        }
        assert(is_first_block(b, id, i)) by {
            assert forall|j: int| 0 <= j < i implies b[j].id != id by {
                assert(a[j].id == b[j].id);
            }
        }
        lemma_block_pos(b, id, i);
    } else {
        if block_pos(b, id) >= 0 {
            assert(a[block_pos(b, id)].id == id);
        }
    }
}

/// Ids of blocks that are the same in `a` and `b` at each position.
pub open spec fn same_ids(a: Seq<IrBasicBlock>, b: Seq<IrBasicBlock>) -> bool {
    &&& a.len() == b.len()
    &&& forall|k: int| 0 <= k < a.len() ==> (#[trigger] b[k]).id == a[k].id
}

/// The blocks of a function, with the entry block and the next fresh block id.
#[derive(Debug)]
pub struct IrControlFlowGraph {
    pub blocks: Vec<IrBasicBlock>,
    pub entry_block: IrBlockId,
    pub next_block_id: u32,
}

impl IrControlFlowGraph {
    /// Block ids are distinct and below the next fresh id.
    pub open spec fn wf(&self) -> bool {
        &&& forall|k: int| 0 <= k < self.blocks@.len() ==> (#[trigger] self.blocks@[k]).id.0 < self.next_block_id
        &&& forall|k1: int, k2: int| 0 <= k1 < k2 < self.blocks@.len() ==> self.blocks@[k1].id != self.blocks@[k2].id
    }

    /// A graph holding only the (empty) entry block 0.
    pub fn new() -> (r: IrControlFlowGraph)
        ensures
            r.wf(),
            r.blocks@.len() == 1,
            is_fresh_block(r.blocks@[0], IrBlockId(0)),
            r.entry_block == IrBlockId(0),
            r.next_block_id == 1,
    {
        let mut blocks: Vec<IrBasicBlock> = Vec::new();
        blocks.push(IrBasicBlock::new(IrBlockId::entry()));
        IrControlFlowGraph { blocks, entry_block: IrBlockId::entry(), next_block_id: 1 }
    }

    /// The index of the block named `id`.
    pub fn find_block(&self, id: IrBlockId) -> (r: Option<usize>)
        ensures
            match r {
                Some(i) => i == block_pos(self.blocks@, id) && i < self.blocks@.len(),
                None => block_pos(self.blocks@, id) == -1,
            },
    {
        let mut i: usize = 0;
        while i < self.blocks.len()
            invariant
                i <= self.blocks@.len(),
                forall|j: int| 0 <= j < i ==> self.blocks@[j].id != id,
            decreases self.blocks@.len() - i,
        {
            if self.blocks[i].id == id {
                proof { lemma_block_pos(self.blocks@, id, i as int); }
                return Some(i);
            }
            i = i + 1;
        }
        None
    }

    pub fn get_block(&self, id: IrBlockId) -> (r: Option<&IrBasicBlock>)
        ensures
            match r {
                Some(b) => block_pos(self.blocks@, id) >= 0 && *b == self.blocks@[block_pos(self.blocks@, id)],
                None => block_pos(self.blocks@, id) == -1,
            },
    {
        match self.find_block(id) {
            Some(i) => Some(&self.blocks[i]),
            None => None,
        }
    }

    pub fn get_block_mut(&mut self, id: IrBlockId) -> (r: Option<&mut IrBasicBlock>)
        ensures
            final(self).entry_block == old(self).entry_block,
            final(self).next_block_id == old(self).next_block_id,
            match r {
                Some(b) => {
                    let i = block_pos(old(self).blocks@, id);
                    &&& i >= 0
                    &&& *b == old(self).blocks@[i]
                    &&& final(self).blocks@ == old(self).blocks@.update(i, *final(b))
                },
                None => block_pos(old(self).blocks@, id) == -1 && final(self).blocks == old(self).blocks,
            },
    {
        match self.find_block(id) {
            Some(i) => Some(&mut self.blocks[i]),
            None => None,
        }
    }

    /// Adds a fresh empty block and returns its id.
    pub fn create_block(&mut self) -> (r: IrBlockId)
        requires
            old(self).next_block_id < u32::MAX,
        ensures
            r == IrBlockId(old(self).next_block_id),
            final(self).next_block_id == old(self).next_block_id + 1,
            final(self).entry_block == old(self).entry_block,
            final(self).blocks@.len() == old(self).blocks@.len() + 1,
            final(self).blocks@.drop_last() == old(self).blocks@,
            is_fresh_block(final(self).blocks@.last(), r),
            old(self).wf() ==> final(self).wf(),
    {
        let id = IrBlockId(self.next_block_id);
        self.next_block_id = self.next_block_id + 1;
        self.blocks.push(IrBasicBlock::new(id));
        proof {
            let bs = self.blocks@;
            assert(bs.drop_last() =~= old(self).blocks@);
            if old(self).wf() {
                assert forall|k: int| 0 <= k < bs.len() - 1 implies #[trigger] bs[k] == old(self).blocks@[k] by {}
                assert forall|k1: int, k2: int| 0 <= k1 < k2 < bs.len() implies bs[k1].id != bs[k2].id by {
                    assert(bs[k1] == old(self).blocks@[k1]);
                    if k2 < bs.len() - 1 {
                        assert(bs[k2] == old(self).blocks@[k2]);
                    }
                }
            }
        }
        id
    }

    /// Records `from` as a predecessor of the block `to`, once.
    pub fn connect_blocks(&mut self, from: IrBlockId, to: IrBlockId)
        ensures
            final(self).entry_block == old(self).entry_block,
            final(self).next_block_id == old(self).next_block_id,
            connected(old(self).blocks@, final(self).blocks@, from, to),
    {
        match self.find_block(to) {
            Some(i) => {
                let mut present = false;
                let mut k: usize = 0;
                while k < self.blocks[i].predecessors.len()
                    invariant
                        i < self.blocks@.len(),
                        k <= self.blocks@[i as int].predecessors@.len(),
                        present == self.blocks@[i as int].predecessors@.subrange(0, k as int).contains(from),
                    decreases self.blocks@[i as int].predecessors@.len() - k,
                {
                    if self.blocks[i].predecessors[k] == from {
                        present = true;
                    }
                    proof {
                        let p = self.blocks@[i as int].predecessors@;
                        let s0 = p.subrange(0, k as int);
                        let s1 = p.subrange(0, k + 1);
                        assert(s1 =~= s0.push(p[k as int]));
                        if s0.contains(from) {
                            let w = choose|w: int| 0 <= w < s0.len() && s0[w] == from;
                            assert(s1[w] == from);
                        }
                        if p[k as int] == from {
                            assert(s1[k as int] == from);
                        }
                        if s1.contains(from) {
                            let w = choose|w: int| 0 <= w < s1.len() && s1[w] == from;
                            if w < k {
                                assert(s0[w] == from);
                            }
                        }
                    }
                    k = k + 1;
                }
                proof {
                    let p = self.blocks@[i as int].predecessors@;
                    assert(p.subrange(0, k as int) =~= p);
                }
                if !present {
                    self.blocks[i].predecessors.push(from);
                }
            },
            None => {},
        }
    }
}

/// `b` is `a` with `from` recorded once among the predecessors of the block `to`.
pub open spec fn connected(a: Seq<IrBasicBlock>, b: Seq<IrBasicBlock>, from: IrBlockId, to: IrBlockId) -> bool {
    let i = block_pos(a, to);
    &&& b.len() == a.len()
    &&& forall|k: int| 0 <= k < a.len() && k != i ==> b[k] == a[k]
    &&& i >= 0 ==> {
        &&& same_body(a[i], b[i])
        &&& b[i].terminator == a[i].terminator
        &&& b[i].predecessors@ == if a[i].predecessors@.contains(from) {
            a[i].predecessors@
        } else {
            a[i].predecessors@.push(from)
        }
    }
}

} // verus!
