//! Loop nesting depth of the blocks of a function: a block `h` heads a
//! loop when some block `t` that `h` dominates jumps back to it; the loop
//! is `h` and every block that reaches `t` without passing through `h`.
//! The depth of a block is the number of loops it lies in.

use vstd::prelude::*;
use crate::blocks::{block_pos, IrBasicBlock, IrControlFlowGraph};
use crate::functions::IrFunction;
use crate::module::IrModule;
use crate::ids::{IrBlockId, IrFunctionId};
use crate::instructions::{term_targets, terminator_targets};

verus! {

/// Control can pass from the block at position `x` to the block at
/// position `y`.
pub open spec fn succ(blocks: Seq<IrBasicBlock>, x: int, y: int) -> bool {
    &&& 0 <= x < blocks.len()
    &&& 0 <= y < blocks.len()
    &&& exists|m: int|
        0 <= m < term_targets(blocks[x].terminator).len() && block_pos(blocks, #[trigger] term_targets(blocks[x].terminator)[m])
            == y
}

/// The blocks reached from `from` in at most `i` steps without passing
/// through `avoid`.
pub open spec fn reach(blocks: Seq<IrBasicBlock>, from: int, avoid: int, i: nat) -> Set<int>
    decreases i,
{
    if i == 0 {
        if 0 <= from < blocks.len() && from != avoid {
            set![from]
        } else {
            Set::empty()
        }
    } else {
        let r = reach(blocks, from, avoid, (i - 1) as nat);
        r.union(Set::new(|y: int| y != avoid && exists|x: int| r.contains(x) && #[trigger] succ(blocks, x, y)))
    }
}

/// The blocks that reach `to` in at most `i` steps without passing
/// through `avoid`.
pub open spec fn reach_back(blocks: Seq<IrBasicBlock>, to: int, avoid: int, i: nat) -> Set<int>
    decreases i,
{
    if i == 0 {
        if 0 <= to < blocks.len() && to != avoid {
            set![to]
        } else {
            Set::empty()
        }
    } else {
        let r = reach_back(blocks, to, avoid, (i - 1) as nat);
        r.union(Set::new(|x: int| x != avoid && exists|y: int| r.contains(y) && #[trigger] succ(blocks, x, y)))
    }
}

/// Block `d` dominates block `n` (positions) in a graph entered at `e`:
/// `n` is `d`, or no path from the entry reaches `n` without `d`.
pub open spec fn dominates(blocks: Seq<IrBasicBlock>, e: int, d: int, n: int) -> bool {
    d == n || !reach(blocks, e, d, blocks.len()).contains(n)
}

/// `t` jumps back to `h`, which dominates it.
pub open spec fn back_edge(blocks: Seq<IrBasicBlock>, e: int, t: int, h: int) -> bool {
    succ(blocks, t, h) && dominates(blocks, e, h, t)
}

/// Block `b` lies in the loop headed by `h`.
pub open spec fn in_loop(blocks: Seq<IrBasicBlock>, e: int, h: int, b: int) -> bool {
    exists|t: int|
        #![trigger back_edge(blocks, e, t, h)]
        back_edge(blocks, e, t, h) && (b == h || reach_back(blocks, t, h, blocks.len()).contains(b))
}

/// The number of headers among the first `k` blocks whose loop holds `b`.
pub open spec fn loops_holding(blocks: Seq<IrBasicBlock>, e: int, b: int, k: nat) -> nat
    decreases k,
{
    if k == 0 {
        0
    } else {
        loops_holding(blocks, e, b, (k - 1) as nat) + if in_loop(blocks, e, (k - 1) as int, b) {
            1nat
        } else {
            0nat
        }
    }
}

/// The loop depth of the block at position `b` of a function whose
/// graph is `cfg`.
pub open spec fn loop_depth(cfg: IrControlFlowGraph, b: int) -> nat {
    loops_holding(cfg.blocks@, block_pos(cfg.blocks@, cfg.entry_block), b, cfg.blocks@.len())
}

/// `t` lists, for each block, the positions of its successors.
pub open spec fn is_succ_table(t: Seq<Vec<usize>>, blocks: Seq<IrBasicBlock>) -> bool {
    &&& t.len() == blocks.len()
    &&& forall|x: int, k: int|
        0 <= x < t.len() && 0 <= k < t[x]@.len() ==> (#[trigger] t[x]@[k]) < blocks.len() && succ(blocks, x, t[x]@[k] as int)
    &&& forall|x: int, y: int| #[trigger] succ(blocks, x, y) ==> t[x]@.contains(y as usize)
}

/// The successors of each block, by position.
fn successor_table(cfg: &IrControlFlowGraph) -> (r: Vec<Vec<usize>>)
    ensures
        is_succ_table(r@, cfg.blocks@),
{
    let n = cfg.blocks.len();
    let mut r: Vec<Vec<usize>> = Vec::new();
    let mut x: usize = 0;
    while x < n
        invariant
            x <= n,
            n == cfg.blocks@.len(),
            r@.len() == x,
            forall|x2: int, k: int|
                0 <= x2 < x && 0 <= k < r@[x2]@.len() ==> (#[trigger] r@[x2]@[k]) < n && succ(cfg.blocks@, x2, r@[x2]@[k] as int),
            forall|x2: int, y: int| 0 <= x2 < x && #[trigger] succ(cfg.blocks@, x2, y) ==> r@[x2]@.contains(y as usize),
        decreases n - x,
    {
        let ts = terminator_targets(&cfg.blocks[x].terminator);
        let mut out: Vec<usize> = Vec::new();
        let mut m: usize = 0;
        while m < ts.len()
            invariant
                m <= ts@.len(),
                x < n,
                n == cfg.blocks@.len(),
                ts@ == term_targets(cfg.blocks@[x as int].terminator),
                forall|k: int| 0 <= k < out@.len() ==> (#[trigger] out@[k]) < n && succ(cfg.blocks@, x as int, out@[k] as int),
                forall|m2: int|
                    0 <= m2 < m && block_pos(cfg.blocks@, #[trigger] ts@[m2]) >= 0 ==> out@.contains(
                        block_pos(cfg.blocks@, ts@[m2]) as usize,
                    ),
            decreases ts@.len() - m,
        {
            let ghost old_out = out@;
            match cfg.find_block(ts[m]) {
                Some(p) => {
                    proof {
                        assert(succ(cfg.blocks@, x as int, p as int));
                    }
                    out.push(p);
                    proof {
                        assert(out@.last() == p);
                    }
                },
                None => {},
            }
            proof {
                assert forall|m2: int|
                    0 <= m2 < m + 1 && block_pos(cfg.blocks@, #[trigger] ts@[m2]) >= 0 implies out@.contains(
                    block_pos(cfg.blocks@, ts@[m2]) as usize,
                ) by {
                    if m2 == m {
                        assert(out@.last() == block_pos(cfg.blocks@, ts@[m2]) as usize);
                    } else {
                        let v = block_pos(cfg.blocks@, ts@[m2]) as usize;
                        assert(old_out.contains(v));
                        let k = choose|k: int| 0 <= k < old_out.len() && old_out[k] == v;
                        assert(out@[k] == v);
                    }
                }
            }
            m = m + 1;
        }
        r.push(out);
        proof {
            assert(r@[x as int] == out);
            assert forall|y: int| #[trigger] succ(cfg.blocks@, x as int, y) implies r@[x as int]@.contains(y as usize) by {
                let m2 = choose|m2: int|
                    0 <= m2 < term_targets(cfg.blocks@[x as int].terminator).len() && block_pos(
                        cfg.blocks@,
                        #[trigger] term_targets(cfg.blocks@[x as int].terminator)[m2],
                    ) == y;
                assert(ts@[m2] == term_targets(cfg.blocks@[x as int].terminator)[m2]);
            }
        }
        x = x + 1;
    }
    r
}

/// Whether some block of `cur` passes control to `y`.
fn some_pred_in(succs: &Vec<Vec<usize>>, Ghost(blocks): Ghost<Seq<IrBasicBlock>>, cur: &Vec<bool>, y: usize) -> (r: bool)
    requires
        is_succ_table(succs@, blocks),
        cur@.len() == blocks.len(),
    ensures
        r == exists|x: int| 0 <= x < cur@.len() && cur@[x] && #[trigger] succ(blocks, x, y as int),
{
    let mut x: usize = 0;
    while x < cur.len()
        invariant
            x <= cur@.len(),
            is_succ_table(succs@, blocks),
            cur@.len() == blocks.len(),
            forall|x2: int| 0 <= x2 < x ==> !(cur@[x2] && #[trigger] succ(blocks, x2, y as int)),
        decreases cur@.len() - x,
    {
        if cur[x] {
            let mut k: usize = 0;
            while k < succs[x].len()
                invariant
                    x < cur@.len(),
                    cur@[x as int],
                    is_succ_table(succs@, blocks),
                    cur@.len() == blocks.len(),
                    k <= succs@[x as int]@.len(),
                    forall|k2: int| 0 <= k2 < k ==> succs@[x as int]@[k2] != y,
                decreases succs@[x as int]@.len() - k,
            {
                if succs[x][k] == y {
                    proof {
                        assert(succ(blocks, x as int, succs@[x as int]@[k as int] as int));
                        assert(succ(blocks, x as int, y as int));
                        assert(0 <= x < cur@.len() && cur@[x as int]);
                    }
                    return true;
                }
                k = k + 1;
            }
            proof {
                if succ(blocks, x as int, y as int) {
                    assert(succs@[x as int]@.contains(y));
                }
            }
        }
        x = x + 1;
    }
    false
}

/// Whether `x` passes control to some block of `cur`.
fn some_succ_in(succs: &Vec<Vec<usize>>, Ghost(blocks): Ghost<Seq<IrBasicBlock>>, cur: &Vec<bool>, x: usize) -> (r: bool)
    requires
        is_succ_table(succs@, blocks),
        cur@.len() == blocks.len(),
        x < blocks.len(),
        blocks.len() <= usize::MAX,
    ensures
        r == exists|y: int| 0 <= y < cur@.len() && cur@[y] && #[trigger] succ(blocks, x as int, y),
{
    let mut k: usize = 0;
    while k < succs[x].len()
        invariant
            x < cur@.len(),
            is_succ_table(succs@, blocks),
            cur@.len() == blocks.len(),
            k <= succs@[x as int]@.len(),
            forall|k2: int| 0 <= k2 < k ==> !cur@[succs@[x as int]@[k2] as int],
        decreases succs@[x as int]@.len() - k,
    {
        let y = succs[x][k];
        proof {
            assert(y < blocks.len() && succ(blocks, x as int, y as int));
        }
        if cur[y] {
            return true;
        }
        k = k + 1;
    }
    proof {
        assert forall|y: int| 0 <= y < cur@.len() && cur@[y] implies !#[trigger] succ(blocks, x as int, y) by {
            if succ(blocks, x as int, y) {
                assert(succs@[x as int]@.contains(y as usize));
                let k2 = choose|k2: int| 0 <= k2 < succs@[x as int]@.len() && succs@[x as int]@[k2] == y as usize;
                assert(k == succs@[x as int]@.len());
                assert(succs@[x as int]@[k2] as int == y);
                assert(!cur@[succs@[x as int]@[k2] as int]);
            }
        }
    }
    false
}

/// The blocks reached in the rounds of `reach` (forward) or `reach_back`
/// (backward) from `start`, avoiding `avoid`, as flags by position.
fn reach_flags(
    succs: &Vec<Vec<usize>>,
    Ghost(blocks): Ghost<Seq<IrBasicBlock>>,
    start: usize,
    Ghost(s): Ghost<int>,
    avoid: usize,
    forward: bool,
) -> (r: Vec<bool>)
    requires
        is_succ_table(succs@, blocks),
        start as int == s || (s < 0 && start == blocks.len()),
        start <= blocks.len(),
    ensures
        r@.len() == blocks.len(),
        forall|k: int|
            0 <= k < blocks.len() ==> r@[k] == (if forward {
                reach(blocks, s, avoid as int, blocks.len())
            } else {
                reach_back(blocks, s, avoid as int, blocks.len())
            }).contains(k),
{
    let n = succs.len();
    let ghost a = avoid as int;
    let mut cur: Vec<bool> = Vec::new();
    let mut k: usize = 0;
    while k < n
        invariant
            k <= n,
            n == blocks.len(),
            cur@.len() == k,
            forall|k2: int| 0 <= k2 < k ==> cur@[k2] == (k2 == start && start != avoid),
        decreases n - k,
    {
        cur.push(k == start && start != avoid);
        k = k + 1;
    }
    let mut i: usize = 0;
    while i < n
        invariant
            i <= n,
            n == blocks.len(),
            a == avoid as int,
            is_succ_table(succs@, blocks),
            cur@.len() == n,
            forall|k2: int|
                0 <= k2 < n ==> cur@[k2] == (if forward {
                    reach(blocks, s, a, i as nat)
                } else {
                    reach_back(blocks, s, a, i as nat)
                }).contains(k2),
        decreases n - i,
    {
        let ghost prev = if forward {
            reach(blocks, s, a, i as nat)
        } else {
            reach_back(blocks, s, a, i as nat)
        };
        let mut next: Vec<bool> = Vec::new();
        let mut k: usize = 0;
        while k < n
            invariant
                k <= n,
                n == blocks.len(),
                a == avoid as int,
                is_succ_table(succs@, blocks),
                cur@.len() == n,
                forall|k2: int| 0 <= k2 < n ==> cur@[k2] == prev.contains(k2),
                prev == (if forward {
                    reach(blocks, s, a, i as nat)
                } else {
                    reach_back(blocks, s, a, i as nat)
                }),
                next@.len() == k,
                forall|k2: int|
                    0 <= k2 < k ==> next@[k2] == (if forward {
                        reach(blocks, s, a, (i + 1) as nat)
                    } else {
                        reach_back(blocks, s, a, (i + 1) as nat)
                    }).contains(k2),
            decreases n - k,
        {
            let hit = if k == avoid {
                false
            } else if forward {
                some_pred_in(succs, Ghost(blocks), &cur, k)
            } else {
                some_succ_in(succs, Ghost(blocks), &cur, k)
            };
            proof {
                if forward {
                    if hit {
                        let x = choose|x: int| 0 <= x < cur@.len() && cur@[x] && #[trigger] succ(blocks, x, k as int);
                        assert(prev.contains(x));
                    }
                    if k as int != a && exists|x: int| prev.contains(x) && #[trigger] succ(blocks, x, k as int) {
                        let x = choose|x: int| prev.contains(x) && #[trigger] succ(blocks, x, k as int);
                        assert(cur@[x] == prev.contains(x));
                        assert(hit);
                    }
                    assert(hit == (k as int != a && exists|x: int| prev.contains(x) && #[trigger] succ(blocks, x, k as int)));
                } else {
                    if hit {
                        let y = choose|y: int| 0 <= y < cur@.len() && cur@[y] && #[trigger] succ(blocks, k as int, y);
                        assert(prev.contains(y));
                    }
                    if k as int != a && exists|y: int| prev.contains(y) && #[trigger] succ(blocks, k as int, y) {
                        let y = choose|y: int| prev.contains(y) && #[trigger] succ(blocks, k as int, y);
                        assert(cur@[y] == prev.contains(y));
                        assert(hit);
                    }
                    assert(hit == (k as int != a && exists|y: int| prev.contains(y) && #[trigger] succ(blocks, k as int, y)));
                }
            }
            next.push(cur[k] || hit);
            k = k + 1;
        }
        cur = next;
        i = i + 1;
    }
    cur
}

/// Whether the block at position `x` passes control to the one at `y`.
fn has_edge(succs: &Vec<Vec<usize>>, Ghost(blocks): Ghost<Seq<IrBasicBlock>>, x: usize, y: usize) -> (r: bool)
    requires
        is_succ_table(succs@, blocks),
        x < blocks.len(),
        y < blocks.len(),
    ensures
        r == succ(blocks, x as int, y as int),
{
    let mut k: usize = 0;
    while k < succs[x].len()
        invariant
            is_succ_table(succs@, blocks),
            x < blocks.len(),
            y < blocks.len(),
            k <= succs@[x as int]@.len(),
            forall|k2: int| 0 <= k2 < k ==> succs@[x as int]@[k2] != y,
        decreases succs@[x as int]@.len() - k,
    {
        if succs[x][k] == y {
            proof {
                assert(succ(blocks, x as int, succs@[x as int]@[k as int] as int));
            }
            return true;
        }
        k = k + 1;
    }
    proof {
        if succ(blocks, x as int, y as int) {
            assert(succs@[x as int]@.contains(y));
        }
    }
    false
}

proof fn lemma_loops_holding_bound(blocks: Seq<IrBasicBlock>, e: int, b: int, k: nat)
    ensures
        loops_holding(blocks, e, b, k) <= k,
    decreases k,
{
    if k > 0 {
        lemma_loops_holding_bound(blocks, e, b, (k - 1) as nat);
    }
}

/// The loop depth of each block of `cfg`, by position.
pub fn block_loop_depths(cfg: &IrControlFlowGraph) -> (r: Vec<usize>)
    ensures
        r@.len() == cfg.blocks@.len(),
        forall|b: int| 0 <= b < cfg.blocks@.len() ==> r@[b] as nat == #[trigger] loop_depth(*cfg, b),
{
    let ghost blocks = cfg.blocks@;
    let n = cfg.blocks.len();
    let succs = successor_table(cfg);
    let ghost e = block_pos(blocks, cfg.entry_block);
    let start = match cfg.find_block(cfg.entry_block) {
        Some(p) => p,
        None => n,
    };
    let mut depths: Vec<usize> = Vec::new();
    let mut k: usize = 0;
    while k < n
        invariant
            k <= n,
            n == blocks.len(),
            depths@.len() == k,
            forall|b: int| 0 <= b < k ==> depths@[b] == 0,
        decreases n - k,
    {
        depths.push(0);
        k = k + 1;
    }
    let mut h: usize = 0;
    while h < n
        invariant
            h <= n,
            n == blocks.len(),
            blocks == cfg.blocks@,
            e == block_pos(blocks, cfg.entry_block),
            start as int == e || (e < 0 && start == n),
            start <= n,
            is_succ_table(succs@, blocks),
            depths@.len() == n,
            forall|b: int| 0 <= b < n ==> depths@[b] as nat == #[trigger] loops_holding(blocks, e, b, h as nat),
        decreases n - h,
    {
        let dom = reach_flags(&succs, Ghost(blocks), start, Ghost(e), h, true);
        let mut members: Vec<bool> = Vec::new();
        let mut b: usize = 0;
        while b < n
            invariant
                b <= n,
                members@.len() == b,
                forall|b2: int| 0 <= b2 < b ==> !members@[b2],
            decreases n - b,
        {
            members.push(false);
            b = b + 1;
        }
        let mut t: usize = 0;
        while t < n
            invariant
                t <= n,
                h < n,
                n == blocks.len(),
                is_succ_table(succs@, blocks),
                dom@.len() == n,
                forall|k2: int| 0 <= k2 < n ==> dom@[k2] == reach(blocks, e, h as int, n as nat).contains(k2),
                depths@.len() == n,
                forall|b2: int| 0 <= b2 < n ==> depths@[b2] as nat == #[trigger] loops_holding(blocks, e, b2, h as nat),
                members@.len() == n,
                forall|b2: int|
                    0 <= b2 < n ==> members@[b2] == exists|t2: int|
                        0 <= t2 < t && #[trigger] back_edge(blocks, e, t2, h as int) && (b2 == h || reach_back(
                            blocks,
                            t2,
                            h as int,
                            n as nat,
                        ).contains(b2)),
            decreases n - t,
        {
            let edge = has_edge(&succs, Ghost(blocks), t, h);
            let is_back = edge && (t == h || !dom[t]);
            proof {
                assert(is_back == back_edge(blocks, e, t as int, h as int));
            }
            if is_back {
                let back = reach_flags(&succs, Ghost(blocks), t, Ghost(t as int), h, false);
                let ghost before = members@;
                let mut b: usize = 0;
                while b < n
                    invariant
                        b <= n,
                        t < n,
                        h < n,
                        n == blocks.len(),
                        back@.len() == n,
                        forall|k2: int| 0 <= k2 < n ==> back@[k2] == reach_back(blocks, t as int, h as int, n as nat).contains(k2),
                        members@.len() == n,
                        before.len() == n,
                        forall|b2: int| 0 <= b2 < b ==> #[trigger] members@[b2] == (before[b2] || b2 == h || back@[b2]),
                        forall|b2: int| b <= b2 < n ==> #[trigger] members@[b2] == before[b2],
                    decreases n - b,
                {
                    let v = members[b] || b == h || back[b];
                    let ghost m0 = members@;
                    members.set(b, v);
                    proof {
                        assert(members@ == m0.update(b as int, v));
                        assert(members@[b as int] == (before[b as int] || b as int == h as int || back@[b as int]));
                        assert forall|b2: int| 0 <= b2 < b + 1 implies #[trigger] members@[b2] == (before[b2] || b2 == h || back@[b2]) by {
                            if b2 < b {
                                assert(members@[b2] == m0[b2]);
                                assert(m0[b2] == (before[b2] || b2 == h || back@[b2]));
                            } else {
                                assert(b2 == b);
                            }
                        }
                    }
                    b = b + 1;
                }
                proof {
                    assert forall|b2: int|
                        0 <= b2 < n implies members@[b2] == exists|t2: int|
                            0 <= t2 < t + 1 && #[trigger] back_edge(blocks, e, t2, h as int) && (b2 == h || reach_back(
                                blocks,
                                t2,
                                h as int,
                                n as nat,
                            ).contains(b2)) by {
                        assert(members@[b2] == (before[b2] || b2 == h || back@[b2]));
                        if members@[b2] && !before[b2] {
                            assert(back_edge(blocks, e, t as int, h as int));
                        }
                        if !members@[b2] {
                            if exists|t2: int|
                                0 <= t2 < t + 1 && #[trigger] back_edge(blocks, e, t2, h as int) && (b2 == h || reach_back(
                                    blocks,
                                    t2,
                                    h as int,
                                    n as nat,
                                ).contains(b2)) {
                                let t2 = choose|t2: int|
                                    0 <= t2 < t + 1 && #[trigger] back_edge(blocks, e, t2, h as int) && (b2 == h || reach_back(
                                        blocks,
                                        t2,
                                        h as int,
                                        n as nat,
                                    ).contains(b2));
                                assert(t2 == t);
                            }
                        }
                    }
                }
            } else {
                proof {
                    assert forall|b2: int|
                        0 <= b2 < n implies members@[b2] == exists|t2: int|
                            0 <= t2 < t + 1 && #[trigger] back_edge(blocks, e, t2, h as int) && (b2 == h || reach_back(
                                blocks,
                                t2,
                                h as int,
                                n as nat,
                            ).contains(b2)) by {
                        if exists|t2: int|
                            0 <= t2 < t + 1 && #[trigger] back_edge(blocks, e, t2, h as int) && (b2 == h || reach_back(
                                blocks,
                                t2,
                                h as int,
                                n as nat,
                            ).contains(b2)) {
                            let t2 = choose|t2: int|
                                0 <= t2 < t + 1 && #[trigger] back_edge(blocks, e, t2, h as int) && (b2 == h || reach_back(
                                    blocks,
                                    t2,
                                    h as int,
                                    n as nat,
                                ).contains(b2));
                            assert(t2 != t);
                        }
                    }
                }
            }
            t = t + 1;
        }
        let ghost d0 = depths@;
        let mut b: usize = 0;
        while b < n
            invariant
                b <= n,
                h < n,
                n == blocks.len(),
                members@.len() == n,
                forall|b2: int|
                    0 <= b2 < n ==> members@[b2] == exists|t2: int|
                        0 <= t2 < n && #[trigger] back_edge(blocks, e, t2, h as int) && (b2 == h || reach_back(
                            blocks,
                            t2,
                            h as int,
                            n as nat,
                        ).contains(b2)),
                depths@.len() == n,
                d0.len() == n,
                forall|b2: int| 0 <= b2 < n ==> d0[b2] as nat == #[trigger] loops_holding(blocks, e, b2, h as nat),
                forall|b2: int| 0 <= b2 < b ==> depths@[b2] as nat == #[trigger] loops_holding(blocks, e, b2, (h + 1) as nat),
                forall|b2: int| b <= b2 < n ==> depths@[b2] == d0[b2],
            decreases n - b,
        {
            proof {
                lemma_loops_holding_bound(blocks, e, b as int, h as nat);
                assert(d0[b as int] as nat == loops_holding(blocks, e, b as int, h as nat));
                assert(members@[b as int] == in_loop(blocks, e, h as int, b as int)) by {
                    if in_loop(blocks, e, h as int, b as int) {
                        let t2 = choose|t2: int|
                            #[trigger] back_edge(blocks, e, t2, h as int) && (b == h || reach_back(
                                blocks,
                                t2,
                                h as int,
                                n as nat,
                            ).contains(b as int));
                        assert(0 <= t2 < n);
                    }
                }
            }
            let d = depths[b];
            if members[b] {
                depths.set(b, d + 1);
            }
            proof {
                assert(depths@[b as int] as nat == loops_holding(blocks, e, b as int, (h + 1) as nat));
            }
            b = b + 1;
        }
        let ghost hn = (h + 1) as nat;
        proof {
            assert forall|b2: int| 0 <= b2 < n implies depths@[b2] as nat == #[trigger] loops_holding(blocks, e, b2, hn) by {
            }
        }
        h = h + 1;
        proof {
            assert(h as nat == hn);
            assert forall|b2: int| 0 <= b2 < n implies depths@[b2] as nat == #[trigger] loops_holding(blocks, e, b2, h as nat) by {
                assert(depths@[b2] as nat == loops_holding(blocks, e, b2, hn));
            }
        }
    }
    proof {
        assert forall|b: int| 0 <= b < cfg.blocks@.len() implies depths@[b] as nat == #[trigger] loop_depth(*cfg, b) by {
            assert(depths@[b] as nat == loops_holding(blocks, e, b, n as nat));
        }
    }
    depths
}

/// The loop depth of each block of `f`: (function, block, depth), in the
/// order of its blocks.
pub open spec fn fn_depths(f: IrFunction) -> Seq<(IrFunctionId, IrBlockId, usize)> {
    Seq::new(f.cfg.blocks@.len(), |k: int| (f.id, f.cfg.blocks@[k].id, loop_depth(f.cfg, k) as usize))
}

/// The loop depth of each block of each function of `fs`, in order.
pub open spec fn depth_table(fs: Seq<IrFunction>) -> Seq<(IrFunctionId, IrBlockId, usize)>
    decreases fs.len(),
{
    if fs.len() == 0 {
        Seq::empty()
    } else {
        depth_table(fs.drop_last()) + fn_depths(fs.last())
    }
}

/// The loop depth of every block of every function of `module`:
/// (function, block, depth).
pub fn loop_depths(module: &IrModule) -> (r: Vec<(IrFunctionId, IrBlockId, usize)>)
    ensures
        r@ == depth_table(module.functions@),
{
    let ghost fs = module.functions@;
    let mut r: Vec<(IrFunctionId, IrBlockId, usize)> = Vec::new();
    let mut i: usize = 0;
    while i < module.functions.len()
        invariant
            i <= fs.len(),
            fs == module.functions@,
            r@ == depth_table(fs.take(i as int)),
        decreases fs.len() - i,
    {
        let f = &module.functions[i];
        let depths = block_loop_depths(&f.cfg);
        let ghost r0 = r@;
        let mut k: usize = 0;
        while k < f.cfg.blocks.len()
            invariant
                k <= f.cfg.blocks@.len(),
                depths@.len() == f.cfg.blocks@.len(),
                forall|b: int| 0 <= b < f.cfg.blocks@.len() ==> depths@[b] as nat == #[trigger] loop_depth(f.cfg, b),
                r@ == r0 + fn_depths(*f).take(k as int),
            decreases f.cfg.blocks@.len() - k,
        {
            r.push((f.id, f.cfg.blocks[k].id, depths[k]));
            proof {
                assert(depths@[k as int] as nat == loop_depth(f.cfg, k as int));
                assert(fn_depths(*f).take(k + 1) =~= fn_depths(*f).take(k as int).push(fn_depths(*f)[k as int]));
                assert(r@ =~= r0 + fn_depths(*f).take(k + 1));
            }
            k = k + 1;
        }
        proof {
            assert(fn_depths(*f).take(f.cfg.blocks@.len() as int) =~= fn_depths(*f));
            assert(fs.take(i + 1).drop_last() =~= fs.take(i as int));
            assert(fs.take(i + 1).last() == *f);
        }
        i = i + 1;
    }
    proof {
        assert(fs.take(fs.len() as int) =~= fs);
    }
    r
}

} // verus!
