//! Function inlining: the call graph of a module, recursion detection, and
//! the inlining of a call site.

use vstd::prelude::*;
use crate::loop_depth::{depth_table, loop_depths};
use crate::blocks::IrBasicBlock;
use crate::functions::{IrFunction, IrParameter};
use crate::ids::{IrBlockId, IrFunctionId, IrId};
use crate::instructions::{inst_dest, inst_operands, IrInstruction, IrPhiNode, IrTerminator};
use crate::module::IrModule;

verus! {

/// A direct call in the module.
#[derive(Debug, Clone)]
pub struct CallSite {
    /// The function containing the call.
    pub caller: IrFunctionId,
    /// The function called.
    pub callee: IrFunctionId,
    /// The block containing the call.
    pub block: IrBlockId,
    /// The index of the call in its block.
    pub instruction_index: usize,
    /// The loop nesting depth of the block (higher is hotter).
    pub loop_depth: usize,
    /// The arguments of the call.
    pub args: Vec<IrId>,
    /// The register that receives the result, if any.
    pub dest: Option<IrId>,
}

/// The call graph of a module. `callers` maps each called function to the
/// indices of the sites that call it, `callees` each calling function to the
/// indices of the sites it contains; each function appears at most once as a key.
#[derive(Debug)]
pub struct CallGraph {
    pub call_sites: Vec<CallSite>,
    pub callers: Vec<(IrFunctionId, Vec<usize>)>,
    pub callees: Vec<(IrFunctionId, Vec<usize>)>,
    /// The functions of the module that can call themselves, each once.
    pub recursive_functions: Vec<IrFunctionId>,
}

// ----------------------------------------------------------------------
// Call positions and loop depths
// ----------------------------------------------------------------------

/// The loop depth recorded for block `block` of function `f`: the first
/// matching entry of `depths`, or 0.
pub open spec fn depth_of(depths: Seq<(IrFunctionId, IrBlockId, usize)>, f: IrFunctionId, block: IrBlockId) -> usize
    decreases depths.len(),
{
    if depths.len() == 0 {
        0
    } else if depths[0].0 == f && depths[0].1 == block {
        depths[0].2
    } else {
        depth_of(depths.drop_first(), f, block)
    }
}

fn lookup_depth(depths: &Vec<(IrFunctionId, IrBlockId, usize)>, f: IrFunctionId, block: IrBlockId) -> (r: usize)
    ensures
        r == depth_of(depths@, f, block),
{
    let mut i: usize = 0;
    proof { assert(depths@.subrange(0, depths@.len() as int) =~= depths@); }
    while i < depths.len()
        invariant
            i <= depths@.len(),
            depth_of(depths@, f, block) == depth_of(depths@.subrange(i as int, depths@.len() as int), f, block),
        decreases depths@.len() - i,
    {
        proof {
            let s = depths@.subrange(i as int, depths@.len() as int);
            assert(s.drop_first() =~= depths@.subrange(i + 1, depths@.len() as int));
        }
        if depths[i].0 == f && depths[i].1 == block {
            return depths[i].2;
        }
        i = i + 1;
    }
    proof { assert(depths@.subrange(i as int, depths@.len() as int) =~= Seq::<(IrFunctionId, IrBlockId, usize)>::empty()); }
    0
}

/// The positions (function, block, instruction) of the direct calls among
/// the instructions `s` of block `k` of function `fi`, in order.
pub open spec fn inst_calls(s: Seq<IrInstruction>, fi: int, k: int) -> Seq<(int, int, int)>
    decreases s.len(),
{
    if s.len() == 0 {
        Seq::empty()
    } else {
        inst_calls(s.drop_last(), fi, k) + if s.last() is CallDirect {
            seq![(fi, k, s.len() - 1)]
        } else {
            Seq::empty()
        }
    }
}

pub open spec fn block_calls(bs: Seq<IrBasicBlock>, fi: int) -> Seq<(int, int, int)>
    decreases bs.len(),
{
    if bs.len() == 0 {
        Seq::empty()
    } else {
        block_calls(bs.drop_last(), fi) + inst_calls(bs.last().instructions@, fi, bs.len() - 1)
    }
}

/// The positions of the direct calls of the functions `fs`, in order.
pub open spec fn fn_calls(fs: Seq<IrFunction>) -> Seq<(int, int, int)>
    decreases fs.len(),
{
    if fs.len() == 0 {
        Seq::empty()
    } else {
        fn_calls(fs.drop_last()) + block_calls(fs.last().cfg.blocks@, fs.len() - 1)
    }
}

/// `s` describes the direct call at position (`k`, `m`) of function `f`.
pub open spec fn site_at(s: CallSite, f: IrFunction, k: int, m: int, depths: Seq<(IrFunctionId, IrBlockId, usize)>) -> bool {
    let b = f.cfg.blocks@[k];
    &&& 0 <= k < f.cfg.blocks@.len()
    &&& 0 <= m < b.instructions@.len()
    &&& s.caller == f.id
    &&& s.block == b.id
    &&& s.instruction_index == m
    &&& s.loop_depth == depth_of(depths, f.id, b.id)
    &&& b.instructions@[m] matches IrInstruction::CallDirect { dest, func_id, args }
    &&& s.callee == func_id
    &&& s.dest == dest
    &&& s.args@ == args@
}

// ----------------------------------------------------------------------
// Index maps and reachability
// ----------------------------------------------------------------------

/// The key of a site in `callers` (its callee) or in `callees` (its caller).
pub open spec fn site_key(s: CallSite, by_callee: bool) -> IrFunctionId {
    if by_callee {
        s.callee
    } else {
        s.caller
    }
}

/// The indices, in order, of the sites of `sites` whose key is `f`.
pub open spec fn site_indices(sites: Seq<CallSite>, f: IrFunctionId, by_callee: bool) -> Seq<usize>
    decreases sites.len(),
{
    if sites.len() == 0 {
        Seq::empty()
    } else {
        site_indices(sites.drop_last(), f, by_callee) + if site_key(sites.last(), by_callee) == f {
            seq![(sites.len() - 1) as usize]
        } else {
            Seq::empty()
        }
    }
}

/// `map` maps each key of the sites, and only those, to the indices of its
/// sites, each key once.
pub open spec fn index_map_of(map: Seq<(IrFunctionId, Vec<usize>)>, sites: Seq<CallSite>, by_callee: bool) -> bool {
    &&& forall|e1: int, e2: int| 0 <= e1 < e2 < map.len() ==> map[e1].0 != map[e2].0
    &&& forall|e: int| 0 <= e < map.len() ==> (#[trigger] map[e]).1@ == site_indices(sites, map[e].0, by_callee)
    &&& forall|e: int| 0 <= e < map.len() ==> (#[trigger] map[e]).1@.len() > 0
    &&& forall|i: int| 0 <= i < sites.len() ==> exists|e: int| 0 <= e < map.len() && map[e].0 == site_key(#[trigger] sites[i], by_callee)
}

/// Some site calls `v` from `u`.
pub open spec fn edge(sites: Seq<CallSite>, u: IrFunctionId, v: IrFunctionId) -> bool {
    exists|i: int| 0 <= i < sites.len() && (#[trigger] sites[i]).caller == u && sites[i].callee == v
}

/// `p` is a path of calls.
pub open spec fn is_call_path(sites: Seq<CallSite>, p: Seq<IrFunctionId>) -> bool {
    forall|i: int| 0 <= i < p.len() - 1 ==> #[trigger] edge(sites, p[i], p[i + 1])
}

/// `to` can be reached from `from` by one call or more.
pub open spec fn reaches(sites: Seq<CallSite>, from: IrFunctionId, to: IrFunctionId) -> bool {
    exists|p: Seq<IrFunctionId>| #[trigger] is_call_path(sites, p) && p.len() >= 2 && p[0] == from && p.last() == to
}

proof fn lemma_site_indices_contains(sites: Seq<CallSite>, f: IrFunctionId, by_callee: bool, i: int)
    requires
        sites.len() <= usize::MAX,
        0 <= i < sites.len(),
        site_key(sites[i], by_callee) == f,
    ensures
        site_indices(sites, f, by_callee).contains(i as usize),
    decreases sites.len(),
{
    let s = site_indices(sites, f, by_callee);
    if i == sites.len() - 1 {
        assert(s[s.len() - 1] == i as usize);
    } else {
        assert(sites.drop_last()[i] == sites[i]);
        lemma_site_indices_contains(sites.drop_last(), f, by_callee, i);
        let t = site_indices(sites.drop_last(), f, by_callee);
        let w = choose|w: int| 0 <= w < t.len() && t[w] == i as usize;
        assert(s[w] == i as usize);
    }
}

proof fn lemma_site_indices_sound(sites: Seq<CallSite>, f: IrFunctionId, by_callee: bool)
    requires
        sites.len() <= usize::MAX,
    ensures
        forall|t: int| 0 <= t < site_indices(sites, f, by_callee).len() ==> {
            let i = #[trigger] site_indices(sites, f, by_callee)[t];
            &&& i < sites.len()
            &&& site_key(sites[i as int], by_callee) == f
        },
    decreases sites.len(),
{
    if sites.len() > 0 {
        lemma_site_indices_sound(sites.drop_last(), f, by_callee);
        let s = site_indices(sites, f, by_callee);
        let t0 = site_indices(sites.drop_last(), f, by_callee);
        assert forall|t: int| 0 <= t < s.len() implies {
            let i = #[trigger] s[t];
            &&& i < sites.len()
            &&& site_key(sites[i as int], by_callee) == f
        } by {
            if t < t0.len() {
                assert(s[t] == t0[t]);
                assert(sites.drop_last()[t0[t] as int] == sites[t0[t] as int]);
            } else {
                assert(s[t] == (sites.len() - 1) as usize);
            }
        }
    }
}

proof fn lemma_site_indices_push(sites: Seq<CallSite>, s: CallSite, f: IrFunctionId, by_callee: bool)
    ensures
        site_indices(sites.push(s), f, by_callee) == site_indices(sites, f, by_callee) + if site_key(s, by_callee) == f {
            seq![sites.len() as usize]
        } else {
            Seq::<usize>::empty()
        },
{
    assert(sites.push(s).drop_last() =~= sites);
}

/// `visited` is closed: every function visited since `before` calls only
/// visited functions, and never `target`.
pub open spec fn explored(
    sites: Seq<CallSite>,
    before: Seq<IrFunctionId>,
    visited: Seq<IrFunctionId>,
    target: IrFunctionId,
) -> bool {
    forall|u: IrFunctionId, i: int|
        #![trigger visited.contains(u), sites[i]]
        visited.contains(u) && !before.contains(u) && 0 <= i < sites.len() && sites[i].caller == u
            ==> visited.contains(sites[i].callee) && sites[i].callee != target
}

fn contains_fn(v: &Vec<IrFunctionId>, x: IrFunctionId) -> (r: bool)
    ensures
        r == v@.contains(x),
{
    let mut i: usize = 0;
    while i < v.len()
        invariant
            i <= v@.len(),
            forall|j: int| 0 <= j < i ==> v@[j] != x,
        decreases v@.len() - i,
    {
        if v[i] == x {
            return true;
        }
        i = i + 1;
    }
    false
}

/// The index of the entry of `map` with key `f`.
fn find_entry(map: &Vec<(IrFunctionId, Vec<usize>)>, f: IrFunctionId) -> (r: Option<usize>)
    ensures
        match r {
            Some(e) => e < map@.len() && map@[e as int].0 == f && forall|j: int| 0 <= j < e ==> map@[j].0 != f,
            None => forall|j: int| 0 <= j < map@.len() ==> map@[j].0 != f,
        },
{
    let mut i: usize = 0;
    while i < map.len()
        invariant
            i <= map@.len(),
            forall|j: int| 0 <= j < i ==> map@[j].0 != f,
        decreases map@.len() - i,
    {
        if map[i].0 == f {
            return Some(i);
        }
        i = i + 1;
    }
    None
}

impl CallGraph {
    /// Whether `target` can be reached from `from` by calls, exploring the
    /// functions not yet in `visited`.
    fn can_reach(
        callees: &Vec<(IrFunctionId, Vec<usize>)>,
        call_sites: &Vec<CallSite>,
        from: IrFunctionId,
        target: IrFunctionId,
        visited: &mut Vec<IrFunctionId>,
        Ghost(universe): Ghost<Set<IrFunctionId>>,
        Ghost(seen): Ghost<Seq<IrFunctionId>>,
    ) -> (r: bool)
        requires
            seen == old(visited)@,
            index_map_of(callees@, call_sites@, false),
            universe.finite(),
            universe.contains(from),
            forall|i: int| 0 <= i < call_sites@.len() ==> universe.contains((#[trigger] call_sites@[i]).callee),
            old(visited)@.no_duplicates(),
        ensures
            final(visited)@.no_duplicates(),
            forall|x: IrFunctionId| old(visited)@.contains(x) ==> final(visited)@.contains(x),
            final(visited)@.contains(from),
            forall|x: IrFunctionId| #[trigger] final(visited)@.contains(x)
                ==> old(visited)@.contains(x) || x == from || reaches(call_sites@, from, x),
            r ==> reaches(call_sites@, from, target),
            !r ==> explored(call_sites@, old(visited)@, final(visited)@, target),
        decreases universe.difference(seen.to_set()).len(),
    {
        let ghost sites = call_sites@;
        let ghost v0 = visited@;
        proof { assert(sites.len() == call_sites.len()); }
        if contains_fn(visited, from) {
            return false;
        }
        visited.push(from);
        proof {
            assert forall|x: IrFunctionId| v0.contains(x) implies visited@.contains(x) by {
                let w = choose|w: int| 0 <= w < v0.len() && v0[w] == x;
                assert(visited@[w] == x);
            }
            assert(visited@[v0.len() as int] == from);
            assert(visited@.no_duplicates()) by {
                assert forall|i: int, j: int| 0 <= i < j < visited@.len() implies visited@[i] != visited@[j] by {
                    if j == v0.len() {
                        assert(v0[i] == visited@[i]);
                    } else {
                        assert(v0[i] == visited@[i] && v0[j] == visited@[j]);
                    }
                }
            }
        }
        let ghost v1 = visited@;
        match find_entry(callees, from) {
            Some(e) => {
                let site_list = &callees[e].1;
                proof { lemma_site_indices_sound(sites, from, false); }
                let mut t: usize = 0;
                while t < site_list.len()
                    invariant
                        sites == call_sites@,
                        sites.len() <= usize::MAX,
                        index_map_of(callees@, sites, false),
                        universe.finite(),
                        universe.contains(from),
                        forall|i: int| 0 <= i < sites.len() ==> universe.contains((#[trigger] sites[i]).callee),
                        e < callees@.len(),
                        callees@[e as int].0 == from,
                        *site_list == callees@[e as int].1,
                        site_list@ == site_indices(sites, from, false),
                        forall|q: int| 0 <= q < site_list@.len() ==> {
                            let i = #[trigger] site_list@[q];
                            &&& i < sites.len()
                            &&& sites[i as int].caller == from
                        },
                        t <= site_list@.len(),
                        visited@.no_duplicates(),
                        forall|x: IrFunctionId| v1.contains(x) ==> visited@.contains(x),
                        visited@.contains(from),
                        !v0.contains(from),
                        v1 == v0.push(from),
                        forall|x: IrFunctionId| v0.contains(x) ==> v1.contains(x),
                        v0 == old(visited)@,
                        v0 == seen,
                        forall|x: IrFunctionId| v0.contains(x) ==> visited@.contains(x),
                        forall|x: IrFunctionId| #[trigger] visited@.contains(x)
                            ==> v0.contains(x) || x == from || reaches(sites, from, x),
                        forall|q: int| 0 <= q < t ==> {
                            let c = sites[(#[trigger] site_list@[q]) as int].callee;
                            &&& visited@.contains(c)
                            &&& c != target
                        },
                        explored(sites, v1, visited@, target),
                    decreases site_list@.len() - t,
                {
                    let site_idx = site_list[t];
                    let callee = call_sites[site_idx].callee;
                    if callee == target {
                        proof {
                            let p = seq![from, target];
                            assert(edge(sites, from, target)) by {
                                assert(sites[site_idx as int].caller == from);
                            }
                            assert(is_call_path(sites, p));
                        }
                        return true;
                    }
                    let ghost vb = visited@;
                    proof {
                        assert(universe.contains(callee));
                        let d0 = universe.difference(v0.to_set());
                        let db = universe.difference(vb.to_set());
                        assert(db.subset_of(d0.remove(from))) by {
                            assert forall|x: IrFunctionId| db.contains(x) implies d0.remove(from).contains(x) by {
                                if v0.to_set().contains(x) {
                                    assert(v0.contains(x));
                                    assert(v1.contains(x)) by {
                                        let w = choose|w: int| 0 <= w < v0.len() && v0[w] == x;
                                        assert(v1[w] == x);
                                    }
                                    assert(vb.contains(x));
                                }
                                if x == from {
                                    assert(vb.contains(from));
                                }
                            }
                        }
                        assert(d0.finite());
                        assert(db.finite());
                        vstd::set_lib::lemma_len_subset(db, d0.remove(from));
                        assert(d0.contains(from)) by {
                            assert(!v0.to_set().contains(from));
                        }
                        assert(d0.remove(from).len() == d0.len() - 1);
                        assert(universe.difference(vb.to_set()).len() < universe.difference(v0.to_set()).len());
                    }
                    let found = Self::can_reach(callees, call_sites, callee, target, visited, Ghost(universe), Ghost(vb));
                    proof {
                        assert(edge(sites, from, callee)) by {
                            assert(sites[site_idx as int].caller == from);
                        }
                        let p1 = seq![from, callee];
                        assert(is_call_path(sites, p1));
                        assert(reaches(sites, from, callee));
                        assert forall|x: IrFunctionId| #[trigger] visited@.contains(x)
                            implies v0.contains(x) || x == from || reaches(sites, from, x) by {
                            if !vb.contains(x) && x != callee {
                                assert(reaches(sites, callee, x));
                                lemma_reaches_trans(sites, from, callee, x);
                            }
                        }
                    }
                    if found {
                        proof {
                            let q = choose|q: Seq<IrFunctionId>| #[trigger] is_call_path(sites, q) && q.len() >= 2 && q[0] == callee && q.last() == target;
                            let p = seq![from] + q;
                            assert(edge(sites, from, callee)) by {
                                assert(sites[site_idx as int].caller == from);
                            }
                            assert forall|i: int| 0 <= i < p.len() - 1 implies #[trigger] edge(sites, p[i], p[i + 1]) by {
                                if i > 0 {
                                    assert(p[i] == q[i - 1] && p[i + 1] == q[i]);
                                    let j = i - 1;
                                    assert(edge(sites, q[j], q[j + 1]));
                                }
                            }
                            assert(is_call_path(sites, p));
                            assert(p.last() == target);
                        }
                        return true;
                    }
                    proof {
                        let va = visited@;
                        assert forall|u: IrFunctionId, i: int|
                            #![trigger va.contains(u), sites[i]]
                            va.contains(u) && !v1.contains(u) && 0 <= i < sites.len() && sites[i].caller == u
                                implies va.contains(sites[i].callee) && sites[i].callee != target by {
                            if vb.contains(u) {
                                assert(vb.contains(sites[i].callee));
                            }
                        }
                    }
                    t = t + 1;
                }
                proof {
                    let va = visited@;
                    assert(t == site_list@.len());
                    assert forall|u: IrFunctionId, i: int|
                        #![trigger va.contains(u), sites[i]]
                        va.contains(u) && !v0.contains(u) && 0 <= i < sites.len() && sites[i].caller == u
                            implies va.contains(sites[i].callee) && sites[i].callee != target by {
                        if u == from {
                            lemma_site_indices_contains(sites, from, false, i);
                            let w = choose|w: int| 0 <= w < site_list@.len() && site_list@[w] == i as usize;
                            assert(site_list@[w] == i as usize);
                        } else {
                            assert(!v1.contains(u)) by {
                                if v1.contains(u) {
                                    let w = choose|w: int| 0 <= w < v1.len() && v1[w] == u;
                                    if w < v0.len() {
                                        assert(v0[w] == u);
                                    }
                                }
                            }
                        }
                    }
                }
            },
            None => {
                proof {
                    let va = visited@;
                    assert forall|u: IrFunctionId, i: int|
                        #![trigger va.contains(u), sites[i]]
                        va.contains(u) && !v0.contains(u) && 0 <= i < sites.len() && sites[i].caller == u
                            implies va.contains(sites[i].callee) && sites[i].callee != target by {
                        if u == from {
                            let e = choose|e: int| 0 <= e < callees@.len() && callees@[e].0 == site_key(sites[i], false);
                            assert(callees@[e].0 == from);
                        } else {
                            let w = choose|w: int| 0 <= w < va.len() && va[w] == u;
                            if w < v0.len() {
                                assert(v0[w] == u);
                            }
                        }
                    }
                }
            },
        }
        false
    }
}

/// Records site `idx` under `key` in an index map.
fn add_to_map(
    map: &mut Vec<(IrFunctionId, Vec<usize>)>,
    key: IrFunctionId,
    idx: usize,
    Ghost(sites): Ghost<Seq<CallSite>>,
    Ghost(s): Ghost<CallSite>,
    Ghost(by_callee): Ghost<bool>,
)
    requires
        index_map_of(old(map)@, sites, by_callee),
        idx == sites.len(),
        key == site_key(s, by_callee),
    ensures
        index_map_of(final(map)@, sites.push(s), by_callee),
{
    let ghost sites2 = sites.push(s);
    proof {
        assert forall|f: IrFunctionId| #[trigger] site_indices(sites2, f, by_callee) == site_indices(sites, f, by_callee) + if key == f {
            seq![idx]
        } else {
            Seq::<usize>::empty()
        } by {
            lemma_site_indices_push(sites, s, f, by_callee);
        }
    }
    match find_entry(map, key) {
        Some(e) => {
            let ghost m0 = map@;
            map[e].1.push(idx);
            proof {
                assert forall|e2: int| 0 <= e2 < map@.len() implies (#[trigger] map@[e2]).1@ == site_indices(sites2, map@[e2].0, by_callee) by {
                    if e2 != e {
                        assert(map@[e2] == m0[e2]);
                        assert(site_indices(sites2, m0[e2].0, by_callee) =~= site_indices(sites, m0[e2].0, by_callee));
                    }
                }
                assert forall|i: int| 0 <= i < sites2.len() implies exists|e2: int| 0 <= e2 < map@.len() && map@[e2].0 == site_key(#[trigger] sites2[i], by_callee) by {
                    if i < sites.len() {
                        assert(sites2[i] == sites[i]);
                        let e2 = choose|e2: int| 0 <= e2 < m0.len() && m0[e2].0 == site_key(sites[i], by_callee);
                        assert(map@[e2].0 == m0[e2].0);
                    } else {
                        assert(map@[e as int].0 == key);
                    }
                }
                assert forall|e1: int, e2: int| 0 <= e1 < e2 < map@.len() implies map@[e1].0 != map@[e2].0 by {
                    assert(map@[e1].0 == m0[e1].0 && map@[e2].0 == m0[e2].0);
                }
            }
        },
        None => {
            let ghost m0 = map@;
            proof {
                lemma_site_indices_sound(sites, key, by_callee);
                if site_indices(sites, key, by_callee).len() > 0 {
                    let i = site_indices(sites, key, by_callee)[0];
                    let e2 = choose|e2: int| 0 <= e2 < m0.len() && m0[e2].0 == site_key(sites[i as int], by_callee);
                }
                assert(site_indices(sites2, key, by_callee) =~= seq![idx]);
            }
            map.push((key, vec![idx]));
            proof {
                assert forall|e2: int| 0 <= e2 < map@.len() implies (#[trigger] map@[e2]).1@ == site_indices(sites2, map@[e2].0, by_callee) by {
                    if e2 < m0.len() {
                        assert(map@[e2] == m0[e2]);
                        assert(site_indices(sites2, m0[e2].0, by_callee) =~= site_indices(sites, m0[e2].0, by_callee));
                    }
                }
                assert forall|i: int| 0 <= i < sites2.len() implies exists|e2: int| 0 <= e2 < map@.len() && map@[e2].0 == site_key(#[trigger] sites2[i], by_callee) by {
                    if i < sites.len() {
                        assert(sites2[i] == sites[i]);
                        let e2 = choose|e2: int| 0 <= e2 < m0.len() && m0[e2].0 == site_key(sites[i], by_callee);
                        assert(map@[e2].0 == m0[e2].0);
                    } else {
                        assert(map@[m0.len() as int].0 == key);
                    }
                }
                assert forall|e1: int, e2: int| 0 <= e1 < e2 < map@.len() implies map@[e1].0 != map@[e2].0 by {
                    if e2 < m0.len() {
                        assert(map@[e1].0 == m0[e1].0 && map@[e2].0 == m0[e2].0);
                    } else {
                        assert(map@[e1].0 == m0[e1].0);
                    }
                }
            }
        },
    }
}

proof fn lemma_inst_calls_step(s: Seq<IrInstruction>, fi: int, k: int, m: int)
    requires
        0 <= m < s.len(),
    ensures
        inst_calls(s.subrange(0, m + 1), fi, k) == inst_calls(s.subrange(0, m), fi, k) + if s[m] is CallDirect {
            seq![(fi, k, m)]
        } else {
            Seq::<(int, int, int)>::empty()
        },
{
    assert(s.subrange(0, m + 1).drop_last() =~= s.subrange(0, m));
}

proof fn lemma_block_calls_step(bs: Seq<IrBasicBlock>, fi: int, k: int)
    requires
        0 <= k < bs.len(),
    ensures
        block_calls(bs.subrange(0, k + 1), fi) == block_calls(bs.subrange(0, k), fi) + inst_calls(bs[k].instructions@, fi, k),
{
    assert(bs.subrange(0, k + 1).drop_last() =~= bs.subrange(0, k));
}

proof fn lemma_fn_calls_step(fs: Seq<IrFunction>, i: int)
    requires
        0 <= i < fs.len(),
    ensures
        fn_calls(fs.subrange(0, i + 1)) == fn_calls(fs.subrange(0, i)) + block_calls(fs[i].cfg.blocks@, i),
{
    assert(fs.subrange(0, i + 1).drop_last() =~= fs.subrange(0, i));
}

/// `sites` describes, in order, the direct calls at positions `pos` of the functions `fs`.
pub open spec fn sites_match(
    sites: Seq<CallSite>,
    pos: Seq<(int, int, int)>,
    fs: Seq<IrFunction>,
    depths: Seq<(IrFunctionId, IrBlockId, usize)>,
) -> bool {
    &&& sites.len() == pos.len()
    &&& forall|j: int| 0 <= j < pos.len() ==> {
        let p = #[trigger] pos[j];
        &&& 0 <= p.0 < fs.len()
        &&& site_at(sites[j], fs[p.0], p.1, p.2, depths)
    }
}

proof fn lemma_explored_chain(sites: Seq<CallSite>, v: Seq<IrFunctionId>, target: IrFunctionId, p: Seq<IrFunctionId>, i: int)
    requires
        explored(sites, Seq::empty(), v, target),
        is_call_path(sites, p),
        p.len() >= 1,
        v.contains(p[0]),
        0 <= i < p.len(),
    ensures
        v.contains(p[i]),
        i > 0 ==> p[i] != target,
    decreases i,
{
    if i > 0 {
        lemma_explored_chain(sites, v, target, p, i - 1);
        let j = i - 1;
        assert(edge(sites, p[j], p[j + 1]));
        let w = choose|w: int| 0 <= w < sites.len() && (#[trigger] sites[w]).caller == p[j] && sites[w].callee == p[j + 1];
        assert(v.contains(p[j]) && !Seq::<IrFunctionId>::empty().contains(p[j]));
    }
}

/// Nothing explored from `from` reaches `target`.
proof fn lemma_explored_unreachable(sites: Seq<CallSite>, v: Seq<IrFunctionId>, target: IrFunctionId, from: IrFunctionId)
    requires
        explored(sites, Seq::empty(), v, target),
        v.contains(from),
    ensures
        !reaches(sites, from, target),
{
    if reaches(sites, from, target) {
        let p = choose|p: Seq<IrFunctionId>| #[trigger] is_call_path(sites, p) && p.len() >= 2 && p[0] == from && p.last() == target;
        lemma_explored_chain(sites, v, target, p, p.len() - 1);
    }
}

/// The functions of `fs` that can call themselves.
pub open spec fn is_recursive_in(sites: Seq<CallSite>, fs: Seq<IrFunction>, f: IrFunctionId) -> bool {
    &&& exists|i: int| 0 <= i < fs.len() && (#[trigger] fs[i]).id == f
    &&& reaches(sites, f, f)
}

/// A call path from `f` to `g` followed by one from `g` to `h` is a call
/// path from `f` to `h`.
pub proof fn lemma_reaches_trans(sites: Seq<CallSite>, f: IrFunctionId, g: IrFunctionId, h: IrFunctionId)
    requires
        reaches(sites, f, g),
        reaches(sites, g, h),
    ensures
        reaches(sites, f, h),
{
    let p1 = choose|p: Seq<IrFunctionId>| #[trigger] is_call_path(sites, p) && p.len() >= 2 && p[0] == f && p.last() == g;
    let p2 = choose|p: Seq<IrFunctionId>| #[trigger] is_call_path(sites, p) && p.len() >= 2 && p[0] == g && p.last() == h;
    let p = p1 + p2.drop_first();
    assert forall|i: int| 0 <= i < p.len() - 1 implies #[trigger] edge(sites, p[i], p[i + 1]) by {
        if i < p1.len() - 1 {
            assert(edge(sites, p1[i], p1[i + 1]));
        } else if i == p1.len() - 1 {
            assert(is_call_path(sites, p2) && p2.len() >= 2 && p2[0] == g);
            assert(edge(sites, p2[0], p2[0int + 1]));
        } else {
            let k = i - p1.len() + 1;
            assert(p[i] == p2[k] && p[i + 1] == p2[k + 1]);
            assert(edge(sites, p2[k], p2[k + 1]));
        }
    }
    assert(is_call_path(sites, p));
    assert(p.last() == p2.last());
}

/// Functions that call each other, directly or through others, are all
/// recursive; in particular a function that calls itself is.
pub proof fn lemma_cycle_recursive(sites: Seq<CallSite>, fs: Seq<IrFunction>, f: IrFunctionId, g: IrFunctionId)
    requires
        exists|i: int| 0 <= i < fs.len() && (#[trigger] fs[i]).id == f,
        exists|i: int| 0 <= i < fs.len() && (#[trigger] fs[i]).id == g,
        reaches(sites, f, g),
        reaches(sites, g, f),
    ensures
        is_recursive_in(sites, fs, f),
        is_recursive_in(sites, fs, g),
{
    lemma_reaches_trans(sites, f, g, f);
    lemma_reaches_trans(sites, g, f, g);
}

/// A site whose caller is its callee makes that function recursive.
pub proof fn lemma_self_call_recursive(sites: Seq<CallSite>, fs: Seq<IrFunction>, i: int)
    requires
        0 <= i < sites.len(),
        sites[i].caller == sites[i].callee,
        exists|k: int| 0 <= k < fs.len() && (#[trigger] fs[k]).id == sites[i].caller,
    ensures
        is_recursive_in(sites, fs, sites[i].caller),
{
    let f = sites[i].caller;
    let p = seq![f, f];
    assert(edge(sites, p[0], p[1]));
    assert(is_call_path(sites, p));
}

impl CallGraph {
    /// The call graph of `module`, with the loop depth of each call's block.
    pub fn build(module: &IrModule) -> (r: CallGraph)
        ensures
            sites_match(r.call_sites@, fn_calls(module.functions@), module.functions@, depth_table(module.functions@)),
            index_map_of(r.callers@, r.call_sites@, true),
            index_map_of(r.callees@, r.call_sites@, false),
            r.recursive_functions@.no_duplicates(),
            forall|f: IrFunctionId| #[trigger] r.recursive_functions@.contains(f) <==> is_recursive_in(r.call_sites@, module.functions@, f),
    {
        let depths = loop_depths(module);
        Self::build_with_depths(module, &depths)
    }

    /// The call graph of `module`; `loop_depths` gives the loop depth of
    /// blocks (function, block, depth), 0 for a block it does not list.
    pub fn build_with_depths(module: &IrModule, loop_depths: &Vec<(IrFunctionId, IrBlockId, usize)>) -> (r: CallGraph)
        ensures
            sites_match(r.call_sites@, fn_calls(module.functions@), module.functions@, loop_depths@),
            index_map_of(r.callers@, r.call_sites@, true),
            index_map_of(r.callees@, r.call_sites@, false),
            r.recursive_functions@.no_duplicates(),
            forall|f: IrFunctionId| #[trigger] r.recursive_functions@.contains(f) <==> is_recursive_in(r.call_sites@, module.functions@, f),
    {
        let ghost fs = module.functions@;
        let ghost depths = loop_depths@;
        let mut call_sites: Vec<CallSite> = Vec::new();
        let mut callers: Vec<(IrFunctionId, Vec<usize>)> = Vec::new();
        let mut callees: Vec<(IrFunctionId, Vec<usize>)> = Vec::new();
        let mut i: usize = 0;
        while i < module.functions.len()
            invariant
                fs == module.functions@,
                depths == loop_depths@,
                i <= fs.len(),
                sites_match(call_sites@, fn_calls(fs.subrange(0, i as int)), fs, depths),
                index_map_of(callers@, call_sites@, true),
                index_map_of(callees@, call_sites@, false),
            decreases fs.len() - i,
        {
            let function = &module.functions[i];
            proof { lemma_fn_calls_step(fs, i as int); }
            let mut k: usize = 0;
            while k < function.cfg.blocks.len()
                invariant
                    fs == module.functions@,
                    depths == loop_depths@,
                        i < fs.len(),
                    *function == fs[i as int],
                    k <= function.cfg.blocks@.len(),
                    fn_calls(fs.subrange(0, i as int + 1)) == fn_calls(fs.subrange(0, i as int)) + block_calls(function.cfg.blocks@, i as int),
                    sites_match(call_sites@, fn_calls(fs.subrange(0, i as int)) + block_calls(function.cfg.blocks@.subrange(0, k as int), i as int), fs, depths),
                    index_map_of(callers@, call_sites@, true),
                    index_map_of(callees@, call_sites@, false),
                decreases function.cfg.blocks@.len() - k,
            {
                let block = &function.cfg.blocks[k];
                let loop_depth = lookup_depth(loop_depths, function.id, block.id);
                proof { lemma_block_calls_step(function.cfg.blocks@, i as int, k as int); }
                let mut m: usize = 0;
                while m < block.instructions.len()
                    invariant
                        fs == module.functions@,
                        depths == loop_depths@,
                                i < fs.len(),
                        *function == fs[i as int],
                        k < function.cfg.blocks@.len(),
                        *block == function.cfg.blocks@[k as int],
                        loop_depth == depth_of(depths, function.id, block.id),
                        m <= block.instructions@.len(),
                        fn_calls(fs.subrange(0, i as int + 1)) == fn_calls(fs.subrange(0, i as int)) + block_calls(function.cfg.blocks@, i as int),
                        block_calls(function.cfg.blocks@.subrange(0, k as int + 1), i as int) == block_calls(function.cfg.blocks@.subrange(0, k as int), i as int) + inst_calls(block.instructions@, i as int, k as int),
                        sites_match(
                            call_sites@,
                            fn_calls(fs.subrange(0, i as int)) + block_calls(function.cfg.blocks@.subrange(0, k as int), i as int)
                                + inst_calls(block.instructions@.subrange(0, m as int), i as int, k as int),
                            fs,
                            depths,
                        ),
                        index_map_of(callers@, call_sites@, true),
                        index_map_of(callees@, call_sites@, false),
                    decreases block.instructions@.len() - m,
                {
                    proof { lemma_inst_calls_step(block.instructions@, i as int, k as int, m as int); }
                    let ghost pos0 = fn_calls(fs.subrange(0, i as int)) + block_calls(function.cfg.blocks@.subrange(0, k as int), i as int)
                        + inst_calls(block.instructions@.subrange(0, m as int), i as int, k as int);
                    let ghost pos1 = fn_calls(fs.subrange(0, i as int)) + block_calls(function.cfg.blocks@.subrange(0, k as int), i as int)
                        + inst_calls(block.instructions@.subrange(0, m + 1), i as int, k as int);
                    match &block.instructions[m] {
                        IrInstruction::CallDirect { dest, func_id, args } => {
                            proof {
                                assert(pos1 =~= pos0.push((i as int, k as int, m as int)));
                            }
                            let site = CallSite {
                                caller: function.id,
                                callee: *func_id,
                                block: block.id,
                                instruction_index: m,
                                loop_depth,
                                args: args.clone(),
                                dest: *dest,
                            };
                            let ghost s = site;
                            let ghost sites0 = call_sites@;
                            let site_idx = call_sites.len();
                            call_sites.push(site);
                            add_to_map(&mut callers, *func_id, site_idx, Ghost(sites0), Ghost(s), Ghost(true));
                            add_to_map(&mut callees, function.id, site_idx, Ghost(sites0), Ghost(s), Ghost(false));
                            proof {
                                assert(s.args@ =~= args@);
                                assert forall|j: int| 0 <= j < pos1.len() implies {
                                    let p = #[trigger] pos1[j];
                                    &&& 0 <= p.0 < fs.len()
                                    &&& site_at(call_sites@[j], fs[p.0], p.1, p.2, depths)
                                } by {
                                    if j < pos0.len() {
                                        assert(pos1[j] == pos0[j]);
                                        assert(call_sites@[j] == sites0[j]);
                                    }
                                }
                            }
                        },
                        _ => {
                            proof { assert(pos1 =~= pos0); }
                        },
                    }
                    m = m + 1;
                }
                proof {
                    assert(block.instructions@.subrange(0, m as int) =~= block.instructions@);
                    let a = fn_calls(fs.subrange(0, i as int));
                    let b = block_calls(function.cfg.blocks@.subrange(0, k as int), i as int);
                    let c = inst_calls(block.instructions@, i as int, k as int);
                    assert(a + (b + c) =~= a + b + c);
                }
                k = k + 1;
            }
            proof {
                assert(function.cfg.blocks@.subrange(0, k as int) =~= function.cfg.blocks@);
            }
            i = i + 1;
        }
        proof { assert(fs.subrange(0, i as int) =~= fs); }
        let ghost sites = call_sites@;
        // Direct recursion.

        let mut recursive_functions: Vec<IrFunctionId> = Vec::new();
        let mut j: usize = 0;
        while j < call_sites.len()
            invariant
                sites == call_sites@,
                fs == module.functions@,
                sites_match(sites, fn_calls(fs), fs, depths),
                j <= sites.len(),
                recursive_functions@.no_duplicates(),
                forall|f: IrFunctionId| #[trigger] recursive_functions@.contains(f) ==> is_recursive_in(sites, fs, f),
            decreases sites.len() - j,
        {
            if call_sites[j].caller == call_sites[j].callee {
                let c = call_sites[j].caller;
                proof {
                    let p = fn_calls(fs)[j as int];
                    assert(site_at(sites[j as int], fs[p.0], p.1, p.2, depths));
                    assert(fs[p.0].id == c);
                    let path = seq![c, c];
                    assert(edge(sites, c, c)) by {
                        assert(sites[j as int].caller == c && sites[j as int].callee == c);
                    }
                    assert(is_call_path(sites, path));
                }
                if !contains_fn(&recursive_functions, c) {
                    let ghost r0 = recursive_functions@;
                    recursive_functions.push(c);
                    proof { lemma_push_distinct(r0, c); }
                }
            }
            j = j + 1;
        }
        // Recursion through other functions.

        let mut i: usize = 0;
        while i < module.functions.len()
            invariant
                sites == call_sites@,
                fs == module.functions@,
                index_map_of(callees@, sites, false),
                i <= fs.len(),
                recursive_functions@.no_duplicates(),
                forall|f: IrFunctionId| #[trigger] recursive_functions@.contains(f) ==> is_recursive_in(sites, fs, f),
                forall|i2: int| 0 <= i2 < i && reaches(sites, fs[i2].id, fs[i2].id) ==> recursive_functions@.contains(#[trigger] fs[i2].id),
            decreases fs.len() - i,
        {
            let fid = module.functions[i].id;
            let ghost universe = sites.map_values(|s: CallSite| s.callee).to_set().insert(fid);
            proof {
                vstd::seq_lib::seq_to_set_is_finite(sites.map_values(|s: CallSite| s.callee));
                assert forall|q: int| 0 <= q < sites.len() implies universe.contains((#[trigger] sites[q]).callee) by {
                    assert(sites.map_values(|s: CallSite| s.callee)[q] == sites[q].callee);
                }
            }
            let mut visited: Vec<IrFunctionId> = Vec::new();
            let found = Self::can_reach(&callees, &call_sites, fid, fid, &mut visited, Ghost(universe), Ghost(Seq::empty()));
            proof {
                assert(visited@.no_duplicates() || true);
                if !found {
                    assert(Seq::<IrFunctionId>::empty() =~= Seq::<IrFunctionId>::empty());
                    lemma_explored_unreachable(sites, visited@, fid, fid);
                }
            }
            if found {
                if !contains_fn(&recursive_functions, fid) {
                    let ghost r0 = recursive_functions@;
                    recursive_functions.push(fid);
                    proof { lemma_push_distinct(r0, fid); }
                }
            }
            proof {
                assert forall|i2: int| 0 <= i2 < i + 1 && reaches(sites, fs[i2].id, fs[i2].id) implies recursive_functions@.contains(#[trigger] fs[i2].id) by {}
                assert forall|f: IrFunctionId| #[trigger] recursive_functions@.contains(f) implies is_recursive_in(sites, fs, f) by {
                    if f == fid {
                        assert(fs[i as int].id == fid);
                    }
                }
            }
            i = i + 1;
        }
        proof {
            assert forall|f: IrFunctionId| is_recursive_in(sites, fs, f) implies #[trigger] recursive_functions@.contains(f) by {
                let i2 = choose|i2: int| 0 <= i2 < fs.len() && (#[trigger] fs[i2]).id == f;
                assert(reaches(sites, fs[i2].id, fs[i2].id));
            }
        }
        CallGraph { call_sites, callers, callees, recursive_functions }
    }

    /// The indices of the call sites in function `func_id`.
    pub fn get_call_sites(&self, func_id: IrFunctionId) -> (r: &[usize])
        ensures
            (exists|e: int| 0 <= e < self.callees@.len() && self.callees@[e].0 == func_id) ==> {
                let e = choose|e: int| 0 <= e < self.callees@.len() && self.callees@[e].0 == func_id && forall|j: int| 0 <= j < e ==> self.callees@[j].0 != func_id;
                r@ == self.callees@[e].1@
            },
            !(exists|e: int| 0 <= e < self.callees@.len() && self.callees@[e].0 == func_id) ==> r@.len() == 0,
    {
        match find_entry(&self.callees, func_id) {
            Some(e) => {
                proof {
                    let c = choose|c: int| 0 <= c < self.callees@.len() && self.callees@[c].0 == func_id && forall|j: int| 0 <= j < c ==> self.callees@[j].0 != func_id;
                    assert(0 <= e < self.callees@.len() && self.callees@[e as int].0 == func_id && forall|j: int| 0 <= j < e ==> self.callees@[j].0 != func_id);
                    if c < e {
                        assert(self.callees@[c].0 != func_id);
                    } else if c > e {
                        assert(self.callees@[e as int].0 != func_id);
                    }
                }
                self.callees[e].1.as_slice()
            },
            None => &[],
        }
    }

    /// Whether `func_id` can call itself.
    pub fn is_recursive(&self, func_id: IrFunctionId) -> (r: bool)
        ensures
            r == self.recursive_functions@.contains(func_id),
    {
        contains_fn(&self.recursive_functions, func_id)
    }
}

proof fn lemma_push_distinct(s: Seq<IrFunctionId>, x: IrFunctionId)
    requires
        s.no_duplicates(),
        !s.contains(x),
    ensures
        s.push(x).no_duplicates(),
        forall|y: IrFunctionId| #[trigger] s.push(x).contains(y) <==> s.contains(y) || y == x,
{
    let t = s.push(x);
    assert forall|i: int, j: int| 0 <= i < j < t.len() implies t[i] != t[j] by {
        if j == s.len() {
            assert(t[i] == s[i]);
        } else {
            assert(t[i] == s[i] && t[j] == s[j]);
        }
    }
    assert forall|y: IrFunctionId| #[trigger] t.contains(y) <==> s.contains(y) || y == x by {
        if t.contains(y) {
            let w = choose|w: int| 0 <= w < t.len() && t[w] == y;
            if w < s.len() {
                assert(s[w] == y);
            }
        }
        if s.contains(y) {
            let w = choose|w: int| 0 <= w < s.len() && s[w] == y;
            assert(t[w] == y);
        }
        if y == x {
            assert(t[s.len() as int] == x);
        }
    }
}

// ----------------------------------------------------------------------
// Register maps and instruction remapping
// ----------------------------------------------------------------------

/// The map an association list denotes: later pairs override earlier ones.
pub open spec fn pairs_map(s: Seq<(IrId, IrId)>) -> Map<IrId, IrId>
    decreases s.len(),
{
    if s.len() == 0 {
        Map::empty()
    } else {
        pairs_map(s.drop_last()).insert(s.last().0, s.last().1)
    }
}

/// `x` renamed by `m`, or `x` itself where `m` does not rename it.
pub open spec fn remap(m: Map<IrId, IrId>, x: IrId) -> IrId {
    if m.contains_key(x) {
        m[x]
    } else {
        x
    }
}

proof fn lemma_pairs_map_suffix(s: Seq<(IrId, IrId)>, i: int, x: IrId)
    requires
        0 <= i <= s.len(),
        forall|j: int| i <= j < s.len() ==> s[j].0 != x,
    ensures
        pairs_map(s).contains_key(x) == pairs_map(s.subrange(0, i)).contains_key(x),
        pairs_map(s).contains_key(x) ==> pairs_map(s)[x] == pairs_map(s.subrange(0, i))[x],
    decreases s.len() - i,
{
    if i < s.len() {
        assert(s.drop_last().subrange(0, i) =~= s.subrange(0, i));
        lemma_pairs_map_suffix(s.drop_last(), i, x);
    } else {
        assert(s.subrange(0, i) =~= s);
    }
}

/// The register `x` is renamed to under the association list `map`.
fn map_lookup(map: &Vec<(IrId, IrId)>, x: IrId) -> (r: Option<IrId>)
    ensures
        r == if pairs_map(map@).contains_key(x) {
            Some(pairs_map(map@)[x])
        } else {
            None::<IrId>
        },
{
    let mut i: usize = map.len();
    while i > 0
        invariant
            i <= map@.len(),
            forall|j: int| i <= j < map@.len() ==> map@[j].0 != x,
        decreases i,
    {
        if map[i - 1].0 == x {
            proof {
                lemma_pairs_map_suffix(map@, i as int, x);
                let pre = map@.subrange(0, i as int);
                assert(pre.drop_last() =~= map@.subrange(0, i - 1));
            }
            return Some(map[i - 1].1);
        }
        i = i - 1;
    }
    proof {
        lemma_pairs_map_suffix(map@, 0, x);
        assert(map@.subrange(0, 0) =~= Seq::<(IrId, IrId)>::empty());
    }
    None
}

fn remap_reg(map: &Vec<(IrId, IrId)>, x: IrId) -> (r: IrId)
    ensures
        r == remap(pairs_map(map@), x),
{
    match map_lookup(map, x) {
        Some(y) => y,
        None => x,
    }
}

fn copy_regs(v: &Vec<IrId>) -> (r: Vec<IrId>)
    ensures
        r@ == v@,
{
    let mut r: Vec<IrId> = Vec::new();
    let mut i: usize = 0;
    while i < v.len()
        invariant
            i <= v@.len(),
            r@ == v@.subrange(0, i as int),
        decreases v@.len() - i,
    {
        r.push(v[i]);
        proof { assert(r@ =~= v@.subrange(0, i + 1)); }
        i = i + 1;
    }
    proof { assert(v@.subrange(0, i as int) =~= v@); }
    r
}

fn copy_indices(v: &Vec<u32>) -> (r: Vec<u32>)
    ensures
        r@ == v@,
{
    let mut r: Vec<u32> = Vec::new();
    let mut i: usize = 0;
    while i < v.len()
        invariant
            i <= v@.len(),
            r@ == v@.subrange(0, i as int),
        decreases v@.len() - i,
    {
        r.push(v[i]);
        proof { assert(r@ =~= v@.subrange(0, i + 1)); }
        i = i + 1;
    }
    proof { assert(v@.subrange(0, i as int) =~= v@); }
    r
}

/// `b` is a copy of `a`: the same instruction, with vectors and types
/// compared by their contents.
pub open spec fn inst_copy(a: IrInstruction, b: IrInstruction) -> bool {
    match a {
        IrInstruction::Load { dest, ptr, ty } => b matches IrInstruction::Load { dest: d2, ptr: p2, ty: t2 } && d2 == dest && p2 == ptr && t2@ == ty@,
        IrInstruction::Call { dest, func, args } => b matches IrInstruction::Call { dest: d2, func: f2, args: a2 } && d2 == dest && f2 == func && a2@ == args@,
        IrInstruction::CallDirect { dest, func_id, args } => b matches IrInstruction::CallDirect { dest: d2, func_id: f2, args: a2 } && d2 == dest && f2 == func_id && a2@ == args@,
        IrInstruction::CallIndirect { dest, func_ptr, args } => b matches IrInstruction::CallIndirect { dest: d2, func_ptr: f2, args: a2 } && d2 == dest && f2 == func_ptr && a2@ == args@,
        IrInstruction::Cast { dest, src, from_ty, to_ty } => b matches IrInstruction::Cast { dest: d2, src: s2, from_ty: f2, to_ty: t2 } && d2 == dest && s2 == src && f2@ == from_ty@ && t2@ == to_ty@,
        IrInstruction::BitCast { dest, src, ty } => b matches IrInstruction::BitCast { dest: d2, src: s2, ty: t2 } && d2 == dest && s2 == src && t2@ == ty@,
        IrInstruction::Alloc { dest, ty, count } => b matches IrInstruction::Alloc { dest: d2, ty: t2, count: c2 } && d2 == dest && t2@ == ty@ && c2 == count,
        IrInstruction::GetElementPtr { dest, ptr, indices, ty } => b matches IrInstruction::GetElementPtr { dest: d2, ptr: p2, indices: i2, ty: t2 } && d2 == dest && p2 == ptr && i2@ == indices@ && t2@ == ty@,
        IrInstruction::ExtractValue { dest, aggregate, indices } => b matches IrInstruction::ExtractValue { dest: d2, aggregate: a2, indices: i2 } && d2 == dest && a2 == aggregate && i2@ == indices@,
        IrInstruction::CreateStruct { dest, ty, fields } => b matches IrInstruction::CreateStruct { dest: d2, ty: t2, fields: f2 } && d2 == dest && t2@ == ty@ && f2@ == fields@,
        _ => b == a,
    }
}

/// A copy of an instruction.
pub fn copy_instruction(inst: &IrInstruction) -> (r: IrInstruction)
    ensures
        inst_copy(*inst, r),
{
    match inst {
        IrInstruction::Const { dest, value } => IrInstruction::Const { dest: *dest, value: value.clone() },
        IrInstruction::Copy { dest, src } => IrInstruction::Copy { dest: *dest, src: *src },
        IrInstruction::Load { dest, ptr, ty } => IrInstruction::Load { dest: *dest, ptr: *ptr, ty: ty.copy_type() },
        IrInstruction::Store { ptr, value } => IrInstruction::Store { ptr: *ptr, value: *value },
        IrInstruction::BinOp { dest, op, left, right } => IrInstruction::BinOp { dest: *dest, op: *op, left: *left, right: *right },
        IrInstruction::UnOp { dest, op, operand } => IrInstruction::UnOp { dest: *dest, op: *op, operand: *operand },
        IrInstruction::Cmp { dest, op, left, right } => IrInstruction::Cmp { dest: *dest, op: *op, left: *left, right: *right },
        IrInstruction::Call { dest, func, args } => IrInstruction::Call { dest: *dest, func: *func, args: copy_regs(args) },
        IrInstruction::CallDirect { dest, func_id, args } => IrInstruction::CallDirect { dest: *dest, func_id: *func_id, args: copy_regs(args) },
        IrInstruction::CallIndirect { dest, func_ptr, args } => IrInstruction::CallIndirect { dest: *dest, func_ptr: *func_ptr, args: copy_regs(args) },
        IrInstruction::Cast { dest, src, from_ty, to_ty } => IrInstruction::Cast { dest: *dest, src: *src, from_ty: from_ty.copy_type(), to_ty: to_ty.copy_type() },
        IrInstruction::BitCast { dest, src, ty } => IrInstruction::BitCast { dest: *dest, src: *src, ty: ty.copy_type() },
        IrInstruction::Alloc { dest, ty, count } => IrInstruction::Alloc { dest: *dest, ty: ty.copy_type(), count: *count },
        IrInstruction::Free { ptr } => IrInstruction::Free { ptr: *ptr },
        IrInstruction::GetElementPtr { dest, ptr, indices, ty } => IrInstruction::GetElementPtr { dest: *dest, ptr: *ptr, indices: copy_regs(indices), ty: ty.copy_type() },
        IrInstruction::Select { dest, condition, true_val, false_val } => IrInstruction::Select { dest: *dest, condition: *condition, true_val: *true_val, false_val: *false_val },
        IrInstruction::ExtractValue { dest, aggregate, indices } => IrInstruction::ExtractValue { dest: *dest, aggregate: *aggregate, indices: copy_indices(indices) },
        IrInstruction::CreateStruct { dest, ty, fields } => IrInstruction::CreateStruct { dest: *dest, ty: ty.copy_type(), fields: copy_regs(fields) },
        IrInstruction::StoreGlobal { global_id, value } => IrInstruction::StoreGlobal { global_id: *global_id, value: *value },
        IrInstruction::MemCopy { dest, src, size } => IrInstruction::MemCopy { dest: *dest, src: *src, size: *size },
    }
}

/// `b` is `a` with the registers of arithmetic, copies, constants,
/// comparisons, loads, stores and casts renamed by `m`; other instructions
/// are copied unchanged.
pub open spec fn inst_remapped(a: IrInstruction, b: IrInstruction, m: Map<IrId, IrId>) -> bool {
    match a {
        IrInstruction::BinOp { dest, op, left, right } => b == IrInstruction::BinOp { dest: remap(m, dest), op, left: remap(m, left), right: remap(m, right) },
        IrInstruction::UnOp { dest, op, operand } => b == IrInstruction::UnOp { dest: remap(m, dest), op, operand: remap(m, operand) },
        IrInstruction::Copy { dest, src } => b == IrInstruction::Copy { dest: remap(m, dest), src: remap(m, src) },
        IrInstruction::Const { dest, value } => b == IrInstruction::Const { dest: remap(m, dest), value },
        IrInstruction::Cmp { dest, op, left, right } => b == IrInstruction::Cmp { dest: remap(m, dest), op, left: remap(m, left), right: remap(m, right) },
        IrInstruction::Load { dest, ptr, ty } => b matches IrInstruction::Load { dest: d2, ptr: p2, ty: t2 } && d2 == remap(m, dest) && p2 == remap(m, ptr) && t2@ == ty@,
        IrInstruction::Store { ptr, value } => b == IrInstruction::Store { ptr: remap(m, ptr), value: remap(m, value) },
        IrInstruction::Cast { dest, src, from_ty, to_ty } => b matches IrInstruction::Cast { dest: d2, src: s2, from_ty: f2, to_ty: t2 } && d2 == remap(m, dest) && s2 == remap(m, src) && f2@ == from_ty@ && t2@ == to_ty@,
        _ => inst_copy(a, b),
    }
}

/// The instruction kinds whose registers inlining renames.
pub open spec fn is_renamed_kind(a: IrInstruction) -> bool {
    a is BinOp || a is UnOp || a is Copy || a is Const || a is Cmp || a is Load || a is Store || a is Cast
}

/// Renaming registers renames each register in place: the renamed
/// instruction reads the renamed operands in the same order, defines the
/// renamed destination, and keeps its operation. So `cmp lt x, y` inlined
/// at a call with `x := a`, `y := b` compares `a < b`, not `b < a`.
pub proof fn law_renaming_in_place(a: IrInstruction, b: IrInstruction, m: Map<IrId, IrId>)
    requires
        is_renamed_kind(a),
        inst_remapped(a, b, m),
    ensures
        inst_operands(b) == inst_operands(a).map_values(|x: IrId| remap(m, x)),
        inst_dest(b) == match inst_dest(a) {
            Some(d) => Some(remap(m, d)),
            None => None::<IrId>,
        },
        a matches IrInstruction::Cmp { op, .. } ==> b matches IrInstruction::Cmp { op: op2, .. } && op2 == op,
        a matches IrInstruction::BinOp { op, .. } ==> b matches IrInstruction::BinOp { op: op2, .. } && op2 == op,
{
    assert(inst_operands(b) =~= inst_operands(a).map_values(|x: IrId| remap(m, x)));
}

/// `inst` with its registers renamed by `reg_map` (see `inst_remapped`).
fn remap_instruction(inst: &IrInstruction, reg_map: &Vec<(IrId, IrId)>) -> (r: IrInstruction)
    ensures
        inst_remapped(*inst, r, pairs_map(reg_map@)),
{
    match inst {
        IrInstruction::BinOp { dest, op, left, right } => IrInstruction::BinOp {
            dest: remap_reg(reg_map, *dest),
            op: *op,
            left: remap_reg(reg_map, *left),
            right: remap_reg(reg_map, *right),
        },
        IrInstruction::UnOp { dest, op, operand } => IrInstruction::UnOp {
            dest: remap_reg(reg_map, *dest),
            op: *op,
            operand: remap_reg(reg_map, *operand),
        },
        IrInstruction::Copy { dest, src } => IrInstruction::Copy { dest: remap_reg(reg_map, *dest), src: remap_reg(reg_map, *src) },
        IrInstruction::Const { dest, value } => IrInstruction::Const { dest: remap_reg(reg_map, *dest), value: value.clone() },
        IrInstruction::Cmp { dest, op, left, right } => IrInstruction::Cmp {
            dest: remap_reg(reg_map, *dest),
            op: *op,
            left: remap_reg(reg_map, *left),
            right: remap_reg(reg_map, *right),
        },
        IrInstruction::Load { dest, ptr, ty } => IrInstruction::Load {
            dest: remap_reg(reg_map, *dest),
            ptr: remap_reg(reg_map, *ptr),
            ty: ty.copy_type(),
        },
        IrInstruction::Store { ptr, value } => IrInstruction::Store { ptr: remap_reg(reg_map, *ptr), value: remap_reg(reg_map, *value) },
        IrInstruction::Cast { dest, src, from_ty, to_ty } => IrInstruction::Cast {
            dest: remap_reg(reg_map, *dest),
            src: remap_reg(reg_map, *src),
            from_ty: from_ty.copy_type(),
            to_ty: to_ty.copy_type(),
        },
        other => copy_instruction(other),
    }
}

// ----------------------------------------------------------------------
// Inlining a call site
// ----------------------------------------------------------------------

/// The destinations of phi nodes, in order.
pub open spec fn phi_dests(s: Seq<IrPhiNode>) -> Seq<IrId> {
    s.map_values(|p: IrPhiNode| p.dest)
}

/// The registers that instructions define, in order.
pub open spec fn inst_dests(s: Seq<IrInstruction>) -> Seq<IrId>
    decreases s.len(),
{
    if s.len() == 0 {
        Seq::empty()
    } else {
        inst_dests(s.drop_last()) + match crate::instructions::inst_dest(s.last()) {
            Some(d) => seq![d],
            None => Seq::empty(),
        }
    }
}

/// The registers that `blocks` define: per block, its phi destinations and
/// then its instruction destinations.
pub open spec fn block_defs(bs: Seq<IrBasicBlock>) -> Seq<IrId>
    decreases bs.len(),
{
    if bs.len() == 0 {
        Seq::empty()
    } else {
        block_defs(bs.drop_last()) + phi_dests(bs.last().phi_nodes@) + inst_dests(bs.last().instructions@)
    }
}

/// The association list after giving each register of `ds` not renamed
/// yet the next fresh register, counting from `next`; and the next free register.
pub open spec fn assign(pairs: Seq<(IrId, IrId)>, next: nat, ds: Seq<IrId>) -> (Seq<(IrId, IrId)>, nat)
    decreases ds.len(),
{
    if ds.len() == 0 {
        (pairs, next)
    } else {
        let (p, n) = assign(pairs, next, ds.drop_last());
        if pairs_map(p).contains_key(ds.last()) {
            (p, n)
        } else {
            (p.push((ds.last(), IrId(n as u32))), n + 1)
        }
    }
}

/// Each parameter register renamed to its argument, as far as both go.
pub open spec fn param_pairs(params: Seq<IrParameter>, args: Seq<IrId>) -> Seq<(IrId, IrId)> {
    let n = if params.len() <= args.len() { params.len() } else { args.len() };
    Seq::new(n, |i: int| (params[i].reg, args[i]))
}

proof fn lemma_assign_step(pairs: Seq<(IrId, IrId)>, next: nat, ds: Seq<IrId>, d: IrId)
    ensures
        assign(pairs, next, ds.push(d)) == ({
            let (p, n) = assign(pairs, next, ds);
            if pairs_map(p).contains_key(d) {
                (p, n)
            } else {
                (p.push((d, IrId(n as u32))), n + 1)
            }
        }),
{
    assert(ds.push(d).drop_last() =~= ds);
}

proof fn lemma_assign_mono(pairs: Seq<(IrId, IrId)>, next: nat, ds: Seq<IrId>, ds2: Seq<IrId>)
    ensures
        assign(pairs, next, ds).1 <= assign(pairs, next, ds + ds2).1,
        assign(pairs, next, ds).1 >= next,
    decreases ds2.len(),
{
    if ds2.len() > 0 {
        lemma_assign_mono(pairs, next, ds, ds2.drop_last());
        assert(ds + ds2 =~= (ds + ds2.drop_last()).push(ds2.last()));
        lemma_assign_step(pairs, next, ds + ds2.drop_last(), ds2.last());
    } else {
        assert(ds + ds2 =~= ds);
    }
    lemma_assign_ge(pairs, next, ds);
}

proof fn lemma_assign_ge(pairs: Seq<(IrId, IrId)>, next: nat, ds: Seq<IrId>)
    ensures
        assign(pairs, next, ds).1 >= next,
    decreases ds.len(),
{
    if ds.len() > 0 {
        lemma_assign_ge(pairs, next, ds.drop_last());
    }
}

proof fn lemma_inst_dests_prefix(s: Seq<IrInstruction>, j: int)
    requires
        0 <= j <= s.len(),
    ensures
        inst_dests(s.subrange(0, j)).len() <= inst_dests(s).len(),
        inst_dests(s.subrange(0, j)) == inst_dests(s).subrange(0, inst_dests(s.subrange(0, j)).len() as int),
    decreases s.len() - j,
{
    if j < s.len() {
        lemma_inst_dests_prefix(s.drop_last(), j);
        assert(s.drop_last().subrange(0, j) =~= s.subrange(0, j));
        let pre = inst_dests(s.subrange(0, j));
        let a = inst_dests(s.drop_last());
        assert(inst_dests(s).subrange(0, pre.len() as int) =~= a.subrange(0, pre.len() as int));
    } else {
        assert(s.subrange(0, j) =~= s);
    }
}

/// Gives fresh registers, from `*next`, to the registers that `blocks`
/// define and `map` does not rename yet.
fn assign_registers(map: &mut Vec<(IrId, IrId)>, blocks: &Vec<IrBasicBlock>, next: &mut u32)
    requires
        assign(old(map)@, *old(next) as nat, block_defs(blocks@)).1 <= u32::MAX,
    ensures
        (final(map)@, *final(next) as nat) == assign(old(map)@, *old(next) as nat, block_defs(blocks@)),
{
    let ghost p0 = map@;
    let ghost n0 = *next as nat;
    let ghost all = block_defs(blocks@);
    let ghost mut done: Seq<IrId> = Seq::empty();
    let mut k: usize = 0;
    while k < blocks.len()
        invariant
            k <= blocks@.len(),
            all == block_defs(blocks@),
            assign(p0, n0, all).1 <= u32::MAX,
            done == block_defs(blocks@.subrange(0, k as int)),
            (map@, *next as nat) == assign(p0, n0, done),
        decreases blocks@.len() - k,
    {
        proof {
            assert(blocks@.subrange(0, k + 1).drop_last() =~= blocks@.subrange(0, k as int));
        }
        let block = &blocks[k];
        let ghost base_done = done;
        let mut p: usize = 0;
        while p < block.phi_nodes.len()
            invariant
                k < blocks@.len(),
                *block == blocks@[k as int],
                p <= block.phi_nodes@.len(),
                all == block_defs(blocks@),
                assign(p0, n0, all).1 <= u32::MAX,
                block_defs(blocks@.subrange(0, k + 1)) == base_done + phi_dests(block.phi_nodes@) + inst_dests(block.instructions@),
                done == base_done + phi_dests(block.phi_nodes@.subrange(0, p as int)),
                (map@, *next as nat) == assign(p0, n0, done),
            decreases block.phi_nodes@.len() - p,
        {
            let d = block.phi_nodes[p].dest;
            proof {
                lemma_assign_step(p0, n0, done, d);
                assert(done.push(d) =~= base_done + phi_dests(block.phi_nodes@.subrange(0, p + 1)));
                let full = block_defs(blocks@.subrange(0, k + 1));
                assert(full.subrange(0, done.len() as int + 1) =~= done.push(d));
                lemma_block_defs_prefix_le(blocks@, k as int + 1, p0, n0, done.push(d));
            }
            if map_lookup(map, d).is_none() {
                map.push((d, IrId(*next)));
                *next = *next + 1;
            }
            proof { done = done.push(d); }
            p = p + 1;
        }
        proof {
            assert(block.phi_nodes@.subrange(0, p as int) =~= block.phi_nodes@);
        }
        let ghost mid_done = done;
        let mut m: usize = 0;
        while m < block.instructions.len()
            invariant
                k < blocks@.len(),
                *block == blocks@[k as int],
                m <= block.instructions@.len(),
                all == block_defs(blocks@),
                assign(p0, n0, all).1 <= u32::MAX,
                block_defs(blocks@.subrange(0, k + 1)) == mid_done + inst_dests(block.instructions@),
                done == mid_done + inst_dests(block.instructions@.subrange(0, m as int)),
                (map@, *next as nat) == assign(p0, n0, done),
            decreases block.instructions@.len() - m,
        {
            proof {
                let s = block.instructions@.subrange(0, m + 1);
                assert(s.drop_last() =~= block.instructions@.subrange(0, m as int));
            }
            match block.instructions[m].dest() {
                Some(d) => {
                    proof {
                        lemma_assign_step(p0, n0, done, d);
                        assert(done.push(d) =~= mid_done + inst_dests(block.instructions@.subrange(0, m + 1)));
                        lemma_inst_dests_prefix(block.instructions@, m + 1);
                        let full = block_defs(blocks@.subrange(0, k + 1));
                        let pre = inst_dests(block.instructions@.subrange(0, m + 1));
                        assert(full.subrange(0, done.len() as int + 1) =~= mid_done + pre);
                        lemma_block_defs_prefix_le(blocks@, k as int + 1, p0, n0, done.push(d));
                    }
                    if map_lookup(map, d).is_none() {
                        map.push((d, IrId(*next)));
                        *next = *next + 1;
                    }
                    proof { done = done.push(d); }
                },
                None => {
                    proof { assert(done =~= mid_done + inst_dests(block.instructions@.subrange(0, m + 1))); }
                },
            }
            m = m + 1;
        }
        proof {
            assert(block.instructions@.subrange(0, m as int) =~= block.instructions@);
        }
        k = k + 1;
    }
    proof { assert(blocks@.subrange(0, k as int) =~= blocks@); }
}

/// The counter after a prefix of the definitions is at most the final counter.
proof fn lemma_block_defs_prefix_le(bs: Seq<IrBasicBlock>, k: int, p0: Seq<(IrId, IrId)>, n0: nat, done: Seq<IrId>)
    requires
        0 <= k <= bs.len(),
        block_defs(bs.subrange(0, k)).len() >= done.len(),
        done == block_defs(bs.subrange(0, k)).subrange(0, done.len() as int),
    ensures
        assign(p0, n0, done).1 <= assign(p0, n0, block_defs(bs)).1,
{
    let full = block_defs(bs.subrange(0, k));
    let rest = full.subrange(done.len() as int, full.len() as int);
    assert(done + rest =~= full);
    lemma_assign_mono(p0, n0, done, rest);
    lemma_block_defs_prefix(bs, k);
    let rest2 = block_defs(bs).subrange(full.len() as int, block_defs(bs).len() as int);
    assert(full + rest2 =~= block_defs(bs));
    lemma_assign_mono(p0, n0, full, rest2);
}

proof fn lemma_block_defs_prefix(bs: Seq<IrBasicBlock>, k: int)
    requires
        0 <= k <= bs.len(),
    ensures
        block_defs(bs.subrange(0, k)).len() <= block_defs(bs).len(),
        block_defs(bs.subrange(0, k)) == block_defs(bs).subrange(0, block_defs(bs.subrange(0, k)).len() as int),
    decreases bs.len() - k,
{
    if k < bs.len() {
        lemma_block_defs_prefix(bs.drop_last(), k);
        assert(bs.drop_last().subrange(0, k) =~= bs.subrange(0, k));
        let a = block_defs(bs.drop_last());
        let full = block_defs(bs);
        assert(full == a + phi_dests(bs.last().phi_nodes@) + inst_dests(bs.last().instructions@));
        let pre = block_defs(bs.subrange(0, k));
        assert(pre == a.subrange(0, pre.len() as int));
        assert(full.subrange(0, pre.len() as int) =~= a.subrange(0, pre.len() as int));
    } else {
        assert(bs.subrange(0, k) =~= bs);
    }
}

/// The caller block that the callee block `id` becomes: the callee blocks
/// are copied, in order, to fresh blocks numbered from `base`.
pub open spec fn map_block(cbs: Seq<IrBasicBlock>, base: nat, id: IrBlockId) -> IrBlockId {
    IrBlockId((base + crate::blocks::block_pos(cbs, id)) as u32)
}

/// Every block that a terminator or a phi node of `cbs` names is a block of `cbs`.
pub open spec fn refs_ok(cbs: Seq<IrBasicBlock>) -> bool {
    &&& forall|q: int, t: int|
        0 <= q < cbs.len() && 0 <= t < crate::instructions::term_targets(cbs[q].terminator).len()
            ==> crate::blocks::block_pos(cbs, #[trigger] crate::instructions::term_targets(cbs[q].terminator)[t]) >= 0
    &&& forall|q: int, p: int, e: int|
        0 <= q < cbs.len() && 0 <= p < cbs[q].phi_nodes@.len() && 0 <= e < cbs[q].phi_nodes@[p].incoming@.len()
            ==> crate::blocks::block_pos(cbs, (#[trigger] cbs[q].phi_nodes@[p].incoming@[e]).0) >= 0
}

pub open spec fn phi_remapped(a: IrPhiNode, b: IrPhiNode, m: Map<IrId, IrId>, cbs: Seq<IrBasicBlock>, base: nat) -> bool {
    &&& b.dest == remap(m, a.dest)
    &&& b.incoming@ == a.incoming@.map_values(|e: (IrBlockId, IrId)| (map_block(cbs, base, e.0), remap(m, e.1)))
    &&& b.ty@ == a.ty@
}

pub open spec fn term_remapped(
    a: IrTerminator,
    b: IrTerminator,
    m: Map<IrId, IrId>,
    cbs: Seq<IrBasicBlock>,
    base: nat,
    cont: IrBlockId,
) -> bool {
    match a {
        IrTerminator::Return { .. } => b == IrTerminator::Branch { target: cont },
        IrTerminator::Branch { target } => b == IrTerminator::Branch { target: map_block(cbs, base, target) },
        IrTerminator::CondBranch { condition, true_target, false_target } => b == IrTerminator::CondBranch {
            condition: remap(m, condition),
            true_target: map_block(cbs, base, true_target),
            false_target: map_block(cbs, base, false_target),
        },
        IrTerminator::Switch { value, cases, default } => b matches IrTerminator::Switch { value: v2, cases: c2, default: d2 }
            && v2 == remap(m, value)
            && c2@ == cases@.map_values(|c: (i64, IrBlockId)| (c.0, map_block(cbs, base, c.1)))
            && d2 == map_block(cbs, base, default),
        IrTerminator::Unreachable => b == IrTerminator::Unreachable,
    }
}

/// `b` is the copy of the callee block `a` made in the caller as block `id`.
pub open spec fn block_inlined(
    a: IrBasicBlock,
    b: IrBasicBlock,
    id: IrBlockId,
    m: Map<IrId, IrId>,
    cbs: Seq<IrBasicBlock>,
    base: nat,
    cont: IrBlockId,
) -> bool {
    &&& b.id == id
    &&& b.label is None
    &&& b.phi_nodes@.len() == a.phi_nodes@.len()
    &&& forall|p: int| 0 <= p < a.phi_nodes@.len() ==> phi_remapped(a.phi_nodes@[p], #[trigger] b.phi_nodes@[p], m, cbs, base)
    &&& b.instructions@.len() == a.instructions@.len()
    &&& forall|i: int| 0 <= i < a.instructions@.len() ==> inst_remapped(a.instructions@[i], #[trigger] b.instructions@[i], m)
    &&& term_remapped(a.terminator, b.terminator, m, cbs, base, cont)
}

/// The copies into `dest` of the values the callee blocks return, in block order.
pub open spec fn ret_copies(cbs: Seq<IrBasicBlock>, dest: Option<IrId>, m: Map<IrId, IrId>) -> Seq<IrInstruction>
    decreases cbs.len(),
{
    if cbs.len() == 0 {
        Seq::empty()
    } else {
        ret_copies(cbs.drop_last(), dest, m) + match (dest, cbs.last().terminator) {
            (Some(d), IrTerminator::Return { value: Some(v) }) => seq![IrInstruction::Copy { dest: d, src: remap(m, v) }],
            _ => Seq::empty(),
        }
    }
}

fn map_block_exec(callee_cfg: &crate::blocks::IrControlFlowGraph, base: u32, id: IrBlockId) -> (r: IrBlockId)
    requires
        crate::blocks::block_pos(callee_cfg.blocks@, id) >= 0,
        base + callee_cfg.blocks@.len() <= u32::MAX,
    ensures
        r == map_block(callee_cfg.blocks@, base as nat, id),
{
    proof { crate::blocks::lemma_block_pos_range(callee_cfg.blocks@, id); }
    match callee_cfg.find_block(id) {
        Some(q) => IrBlockId(base + q as u32),
        None => IrBlockId(base),
    }
}

fn remap_phi(
    phi: &IrPhiNode,
    reg_map: &Vec<(IrId, IrId)>,
    callee_cfg: &crate::blocks::IrControlFlowGraph,
    base: u32,
) -> (r: IrPhiNode)
    requires
        forall|e: int| 0 <= e < phi.incoming@.len() ==> crate::blocks::block_pos(callee_cfg.blocks@, (#[trigger] phi.incoming@[e]).0) >= 0,
        base + callee_cfg.blocks@.len() <= u32::MAX,
    ensures
        phi_remapped(*phi, r, pairs_map(reg_map@), callee_cfg.blocks@, base as nat),
{
    let mut incoming: Vec<(IrBlockId, IrId)> = Vec::new();
    let mut e: usize = 0;
    while e < phi.incoming.len()
        invariant
            forall|e2: int| 0 <= e2 < phi.incoming@.len() ==> crate::blocks::block_pos(callee_cfg.blocks@, (#[trigger] phi.incoming@[e2]).0) >= 0,
            base + callee_cfg.blocks@.len() <= u32::MAX,
            e <= phi.incoming@.len(),
            incoming@ == phi.incoming@.subrange(0, e as int).map_values(
                |x: (IrBlockId, IrId)| (map_block(callee_cfg.blocks@, base as nat, x.0), remap(pairs_map(reg_map@), x.1)),
            ),
        decreases phi.incoming@.len() - e,
    {
        let (b, v) = phi.incoming[e];
        let nb = map_block_exec(callee_cfg, base, b);
        let nv = remap_reg(reg_map, v);
        incoming.push((nb, nv));
        proof {
            assert(incoming@ =~= phi.incoming@.subrange(0, e + 1).map_values(
                |x: (IrBlockId, IrId)| (map_block(callee_cfg.blocks@, base as nat, x.0), remap(pairs_map(reg_map@), x.1)),
            ));
        }
        e = e + 1;
    }
    proof { assert(phi.incoming@.subrange(0, e as int) =~= phi.incoming@); }
    IrPhiNode { dest: remap_reg(reg_map, phi.dest), incoming, ty: phi.ty.copy_type() }
}

fn remap_terminator(
    term: &IrTerminator,
    reg_map: &Vec<(IrId, IrId)>,
    callee_cfg: &crate::blocks::IrControlFlowGraph,
    base: u32,
    cont: IrBlockId,
) -> (r: IrTerminator)
    requires
        forall|t: int| 0 <= t < crate::instructions::term_targets(*term).len()
            ==> crate::blocks::block_pos(callee_cfg.blocks@, #[trigger] crate::instructions::term_targets(*term)[t]) >= 0,
        base + callee_cfg.blocks@.len() <= u32::MAX,
    ensures
        term_remapped(*term, r, pairs_map(reg_map@), callee_cfg.blocks@, base as nat, cont),
{
    match term {
        IrTerminator::Return { .. } => IrTerminator::Branch { target: cont },
        IrTerminator::Branch { target } => {
            proof { assert(crate::instructions::term_targets(*term)[0] == *target); }
            IrTerminator::Branch { target: map_block_exec(callee_cfg, base, *target) }
        },
        IrTerminator::CondBranch { condition, true_target, false_target } => {
            proof {
                assert(crate::instructions::term_targets(*term)[0] == *true_target);
                assert(crate::instructions::term_targets(*term)[1] == *false_target);
            }
            IrTerminator::CondBranch {
                condition: remap_reg(reg_map, *condition),
                true_target: map_block_exec(callee_cfg, base, *true_target),
                false_target: map_block_exec(callee_cfg, base, *false_target),
            }
        },
        IrTerminator::Switch { value, cases, default } => {
            let ghost tt = crate::instructions::term_targets(*term);
            proof {
                assert(tt[cases@.len() as int] == *default);
                assert forall|q: int| 0 <= q < cases@.len() implies crate::blocks::block_pos(callee_cfg.blocks@, (#[trigger] cases@[q]).1) >= 0 by {
                    assert(tt[q] == cases@[q].1);
                }
            }
            let mut new_cases: Vec<(i64, IrBlockId)> = Vec::new();
            let mut q: usize = 0;
            while q < cases.len()
                invariant
                    forall|q2: int| 0 <= q2 < cases@.len() ==> crate::blocks::block_pos(callee_cfg.blocks@, (#[trigger] cases@[q2]).1) >= 0,
                    base + callee_cfg.blocks@.len() <= u32::MAX,
                    q <= cases@.len(),
                    new_cases@ == cases@.subrange(0, q as int).map_values(|c: (i64, IrBlockId)| (c.0, map_block(callee_cfg.blocks@, base as nat, c.1))),
                decreases cases@.len() - q,
            {
                let (v, t) = cases[q];
                new_cases.push((v, map_block_exec(callee_cfg, base, t)));
                proof {
                    assert(new_cases@ =~= cases@.subrange(0, q + 1).map_values(|c: (i64, IrBlockId)| (c.0, map_block(callee_cfg.blocks@, base as nat, c.1))));
                }
                q = q + 1;
            }
            proof { assert(cases@.subrange(0, q as int) =~= cases@); }
            IrTerminator::Switch {
                value: remap_reg(reg_map, *value),
                cases: new_cases,
                default: map_block_exec(callee_cfg, base, *default),
            }
        },
        IrTerminator::Unreachable => IrTerminator::Unreachable,
    }
}

/// The copy, as block `id` of the caller, of the callee block `block`.
fn inline_block(
    block: &IrBasicBlock,
    id: IrBlockId,
    reg_map: &Vec<(IrId, IrId)>,
    callee_cfg: &crate::blocks::IrControlFlowGraph,
    base: u32,
    cont: IrBlockId,
) -> (r: IrBasicBlock)
    requires
        forall|t: int| 0 <= t < crate::instructions::term_targets(block.terminator).len()
            ==> crate::blocks::block_pos(callee_cfg.blocks@, #[trigger] crate::instructions::term_targets(block.terminator)[t]) >= 0,
        forall|p: int, e: int| 0 <= p < block.phi_nodes@.len() && 0 <= e < block.phi_nodes@[p].incoming@.len()
            ==> crate::blocks::block_pos(callee_cfg.blocks@, (#[trigger] block.phi_nodes@[p].incoming@[e]).0) >= 0,
        base + callee_cfg.blocks@.len() <= u32::MAX,
    ensures
        block_inlined(*block, r, id, pairs_map(reg_map@), callee_cfg.blocks@, base as nat, cont),
        r.predecessors@.len() == 0,
{
    let mut phis: Vec<IrPhiNode> = Vec::new();
    let mut p: usize = 0;
    while p < block.phi_nodes.len()
        invariant
            forall|p2: int, e: int| 0 <= p2 < block.phi_nodes@.len() && 0 <= e < block.phi_nodes@[p2].incoming@.len()
                ==> crate::blocks::block_pos(callee_cfg.blocks@, (#[trigger] block.phi_nodes@[p2].incoming@[e]).0) >= 0,
            base + callee_cfg.blocks@.len() <= u32::MAX,
            p <= block.phi_nodes@.len(),
            phis@.len() == p,
            forall|p2: int| 0 <= p2 < p ==> phi_remapped(block.phi_nodes@[p2], #[trigger] phis@[p2], pairs_map(reg_map@), callee_cfg.blocks@, base as nat),
        decreases block.phi_nodes@.len() - p,
    {
        let phi = remap_phi(&block.phi_nodes[p], reg_map, callee_cfg, base);
        phis.push(phi);
        p = p + 1;
    }
    let mut insts: Vec<IrInstruction> = Vec::new();
    let mut i: usize = 0;
    while i < block.instructions.len()
        invariant
            i <= block.instructions@.len(),
            insts@.len() == i,
            forall|i2: int| 0 <= i2 < i ==> inst_remapped(block.instructions@[i2], #[trigger] insts@[i2], pairs_map(reg_map@)),
        decreases block.instructions@.len() - i,
    {
        let inst = remap_instruction(&block.instructions[i], reg_map);
        insts.push(inst);
        i = i + 1;
    }
    let terminator = remap_terminator(&block.terminator, reg_map, callee_cfg, base, cont);
    IrBasicBlock { id, label: None, phi_nodes: phis, instructions: insts, terminator, predecessors: Vec::new() }
}

/// Why a call site could not be inlined.
#[derive(Debug, PartialEq, Eq, Structural)]
pub enum InlineError {
    CalleeNotFound(IrFunctionId),
    CallerNotFound(IrFunctionId),
}

/// What inlining `site` needs: a well-formed caller graph holding the block
/// of the site and the call at its index, a callee whose branches and phi
/// nodes name its own blocks, and room for the new blocks and registers.
pub open spec fn can_inline(m: IrModule, site: CallSite, next: u32) -> bool {
    let fs = m.functions@;
    let ci = crate::module::fn_pos(fs, site.callee);
    let ri = crate::module::fn_pos(fs, site.caller);
    ci >= 0 && ri >= 0 ==> {
        let callee = fs[ci];
        let caller = fs[ri];
        let cb = crate::blocks::block_pos(caller.cfg.blocks@, site.block);
        &&& caller.cfg.wf()
        &&& site.block.0 < caller.cfg.next_block_id
        &&& refs_ok(callee.cfg.blocks@)
        &&& crate::blocks::block_pos(callee.cfg.blocks@, callee.cfg.entry_block) >= 0
        &&& caller.cfg.next_block_id + callee.cfg.blocks@.len() + 1 <= u32::MAX
        &&& assign(param_pairs(callee.signature.parameters@, site.args@), next as nat, block_defs(callee.cfg.blocks@)).1 <= u32::MAX
        &&& cb >= 0 ==> site.instruction_index < caller.cfg.blocks@[cb].instructions@.len()
    }
}

/// `m1` is `m0` after inlining `site`, the register counter going from `n0`
/// to `n1`: the callee's blocks are copied, with fresh registers, to fresh
/// blocks of the caller; the block of the call keeps what precedes the call
/// and jumps to the copy of the callee's entry; a continuation block gets
/// the copies of the returned value, what followed the call and the block's
/// old terminator; returns jump to the continuation.
pub open spec fn inlined(m0: IrModule, m1: IrModule, site: CallSite, n0: u32, n1: u32) -> bool {
    let fs = m0.functions@;
    let callee = fs[crate::module::fn_pos(fs, site.callee)];
    let ri = crate::module::fn_pos(fs, site.caller);
    let caller = fs[ri];
    let cbs = callee.cfg.blocks@;
    let ob = caller.cfg.blocks@;
    let n = ob.len() as int;
    let cn = cbs.len() as int;
    let base = caller.cfg.next_block_id as nat;
    let cont = IrBlockId((base + cn) as u32);
    let assigned = assign(param_pairs(callee.signature.parameters@, site.args@), n0 as nat, block_defs(cbs));
    let rm = pairs_map(assigned.0);
    let qe = crate::blocks::block_pos(cbs, callee.cfg.entry_block);
    let entry = map_block(cbs, base, callee.cfg.entry_block);
    let cb = crate::blocks::block_pos(ob, site.block);
    let idx = site.instruction_index as int;
    let nf = m1.functions@[ri];
    let nb = nf.cfg.blocks@;
    &&& n1 == assigned.1
    &&& m1 == (IrModule { functions: m1.functions, ..m0 })
    &&& m1.functions@.len() == fs.len()
    &&& forall|k: int| 0 <= k < fs.len() && k != ri ==> #[trigger] m1.functions@[k] == fs[k]
    &&& nf == (IrFunction { cfg: nf.cfg, ..caller })
    &&& nf.cfg.entry_block == caller.cfg.entry_block
    &&& nf.cfg.next_block_id == base + cn + 1
    &&& nb.len() == n + cn + 1
    &&& forall|k: int| 0 <= k < n && k != cb ==> #[trigger] nb[k] == ob[k]
    &&& cb >= 0 ==> {
        &&& nb[cb].id == ob[cb].id
        &&& nb[cb].label == ob[cb].label
        &&& nb[cb].phi_nodes == ob[cb].phi_nodes
        &&& nb[cb].predecessors == ob[cb].predecessors
        &&& nb[cb].instructions@ == ob[cb].instructions@.subrange(0, idx)
        &&& nb[cb].terminator == IrTerminator::Branch { target: entry }
    }
    &&& forall|q: int| 0 <= q < cn ==> block_inlined(cbs[q], #[trigger] nb[n + q], IrBlockId((base + q) as u32), rm, cbs, base, cont)
    &&& forall|q: int| 0 <= q < cn ==> (#[trigger] nb[n + q]).predecessors@ == if q == qe {
        seq![site.block]
    } else {
        Seq::<IrBlockId>::empty()
    }
    &&& nb[n + cn].id == cont
    &&& nb[n + cn].label is None
    &&& nb[n + cn].phi_nodes@.len() == 0
    &&& nb[n + cn].predecessors@.len() == 0
    &&& nb[n + cn].instructions@ == ret_copies(cbs, site.dest, rm) + if cb >= 0 {
        ob[cb].instructions@.subrange(idx + 1, ob[cb].instructions@.len() as int)
    } else {
        Seq::<IrInstruction>::empty()
    }
    &&& nb[n + cn].terminator == if cb >= 0 { ob[cb].terminator } else { IrTerminator::Unreachable }
}

/// Inlining keeps the caller's graph well formed: the copies of the
/// callee's blocks and the continuation block get fresh, distinct ids below
/// the new block counter; and the module keeps its function ids.
pub proof fn lemma_inlining_keeps_wf(m0: IrModule, m1: IrModule, site: CallSite, n0: u32, n1: u32)
    requires
        can_inline(m0, site, n0),
        crate::module::fn_pos(m0.functions@, site.callee) >= 0,
        crate::module::fn_pos(m0.functions@, site.caller) >= 0,
        inlined(m0, m1, site, n0, n1),
    ensures
        m1.functions@[crate::module::fn_pos(m0.functions@, site.caller)].cfg.wf(),
        m0.wf() ==> m1.wf(),
{
    let fs = m0.functions@;
    let ri = crate::module::fn_pos(fs, site.caller);
    let ci = crate::module::fn_pos(fs, site.callee);
    crate::module::lemma_fn_pos_range(fs, site.caller);
    crate::module::lemma_fn_pos_range(fs, site.callee);
    let caller = fs[ri];
    let callee = fs[ci];
    let cbs = callee.cfg.blocks@;
    let ob = caller.cfg.blocks@;
    let n = ob.len() as int;
    let cn = cbs.len() as int;
    let base = caller.cfg.next_block_id as nat;
    let cont = IrBlockId((base + cn) as u32);
    let assigned = assign(param_pairs(callee.signature.parameters@, site.args@), n0 as nat, block_defs(cbs));
    let rm = pairs_map(assigned.0);
    let cb = crate::blocks::block_pos(ob, site.block);
    let nf = m1.functions@[ri];
    let nb = nf.cfg.blocks@;
    assert forall|k: int| 0 <= k < nb.len() implies {
        &&& (#[trigger] nb[k]).id.0 < nf.cfg.next_block_id
        &&& k < n ==> nb[k].id == ob[k].id
        &&& n <= k ==> nb[k].id.0 == base + (k - n)
    } by {
        if k < n {
            if k != cb {
                assert(nb[k] == ob[k]);
            }
        } else if k < n + cn {
            assert(block_inlined(cbs[k - n], nb[n + (k - n)], IrBlockId((base + (k - n)) as u32), rm, cbs, base, cont));
        }
    }
    assert forall|k1: int, k2: int| 0 <= k1 < k2 < nb.len() implies nb[k1].id != nb[k2].id by {
        assert(nb[k1].id.0 < nf.cfg.next_block_id);
        assert(nb[k2].id.0 < nf.cfg.next_block_id);
        if k2 < n {
            assert(ob[k1].id != ob[k2].id);
        }
    }
    if m0.wf() {
        assert forall|k: int| 0 <= k < m1.functions@.len() implies (#[trigger] m1.functions@[k]).id.0 < m1.next_function_id by {
            if k != ri {
                assert(m1.functions@[k] == fs[k]);
            }
        }
    }
}

/// Inlines the call `call_site` into its caller; fresh registers are
/// taken from `*next_reg_id` on.
#[verifier::spinoff_prover]
#[verifier::rlimit(40)]
pub fn inline_call_site(module: &mut IrModule, call_site: &CallSite, next_reg_id: &mut u32) -> (r: Result<(), InlineError>)
    requires
        can_inline(*old(module), *call_site, *old(next_reg_id)),
    ensures
        match r {
            Err(InlineError::CalleeNotFound(f)) => {
                &&& f == call_site.callee
                &&& crate::module::fn_pos(old(module).functions@, call_site.callee) < 0
                &&& *final(module) == *old(module)
                &&& *final(next_reg_id) == *old(next_reg_id)
            },
            Err(InlineError::CallerNotFound(f)) => {
                &&& f == call_site.caller
                &&& crate::module::fn_pos(old(module).functions@, call_site.callee) >= 0
                &&& crate::module::fn_pos(old(module).functions@, call_site.caller) < 0
                &&& *final(module) == *old(module)
                &&& *final(next_reg_id) == *old(next_reg_id)
            },
            Ok(()) => {
                &&& crate::module::fn_pos(old(module).functions@, call_site.callee) >= 0
                &&& crate::module::fn_pos(old(module).functions@, call_site.caller) >= 0
                &&& inlined(*old(module), *final(module), *call_site, *old(next_reg_id), *final(next_reg_id))
            },
        },
{
    let ghost m0 = *module;
    let ghost n0 = *next_reg_id;
    let ci = match module.find_function(call_site.callee) {
        Some(i) => i,
        None => return Err(InlineError::CalleeNotFound(call_site.callee)),
    };
    let ri = match module.find_function(call_site.caller) {
        Some(i) => i,
        None => return Err(InlineError::CallerNotFound(call_site.caller)),
    };
    let ghost callee = m0.functions@[ci as int];
    let ghost caller = m0.functions@[ri as int];
    let ghost cbs = callee.cfg.blocks@;
    let ghost ob = caller.cfg.blocks@;
    let base = module.functions[ri].cfg.next_block_id;
    let n_callee = module.functions[ci].cfg.blocks.len();
    let n_caller = module.functions[ri].cfg.blocks.len();
    // Callee parameters become the call's arguments.

    let mut reg_map: Vec<(IrId, IrId)> = Vec::new();
    let params = &module.functions[ci].signature.parameters;
    let mut i: usize = 0;
    while i < params.len() && i < call_site.args.len()
        invariant
            *params == callee.signature.parameters,
            i <= params@.len(),
            i <= call_site.args@.len(),
            reg_map@ == param_pairs(params@, call_site.args@).subrange(0, i as int),
        decreases params@.len() - i,
    {
        reg_map.push((params[i].reg, call_site.args[i]));
        proof {
            assert(reg_map@ =~= param_pairs(params@, call_site.args@).subrange(0, i + 1));
        }
        i = i + 1;
    }
    proof {
        assert(reg_map@ =~= param_pairs(params@, call_site.args@));
    }
    // Fresh registers for what the callee defines.

    assign_registers(&mut reg_map, &module.functions[ci].cfg.blocks, next_reg_id);
    let ghost rm = pairs_map(reg_map@);
    let cont = IrBlockId(base + n_callee as u32);
    // The copies of the callee's blocks, and the copies of returned values.

    let mut new_blocks: Vec<IrBasicBlock> = Vec::new();
    let mut copies: Vec<IrInstruction> = Vec::new();
    let mut q: usize = 0;
    while q < n_callee
        invariant
            *module == m0,
            ci < m0.functions@.len(),
            m0.functions@[ci as int] == callee,
            cbs == callee.cfg.blocks@,
            n_callee == cbs.len(),
            refs_ok(cbs),
            base + cbs.len() + 1 <= u32::MAX,
            cont == IrBlockId((base + cbs.len()) as u32),
            rm == pairs_map(reg_map@),
            q <= n_callee,
            new_blocks@.len() == q,
            forall|q2: int| 0 <= q2 < q ==> block_inlined(cbs[q2], #[trigger] new_blocks@[q2], IrBlockId((base + q2) as u32), rm, cbs, base as nat, cont),
            forall|q2: int| 0 <= q2 < q ==> (#[trigger] new_blocks@[q2]).predecessors@.len() == 0,
            copies@ == ret_copies(cbs.subrange(0, q as int), call_site.dest, rm),
        decreases n_callee - q,
    {
        let cblock = &module.functions[ci].cfg.blocks[q];
        proof {
            assert forall|t: int| 0 <= t < crate::instructions::term_targets(cblock.terminator).len()
                implies crate::blocks::block_pos(cbs, #[trigger] crate::instructions::term_targets(cblock.terminator)[t]) >= 0 by {
                assert(cbs[q as int] == *cblock);
            }
            assert forall|p: int, e: int| 0 <= p < cblock.phi_nodes@.len() && 0 <= e < cblock.phi_nodes@[p].incoming@.len()
                implies crate::blocks::block_pos(cbs, (#[trigger] cblock.phi_nodes@[p].incoming@[e]).0) >= 0 by {
                assert(cbs[q as int] == *cblock);
            }
            assert(cbs.subrange(0, q + 1).drop_last() =~= cbs.subrange(0, q as int));
        }
        let nb = inline_block(cblock, IrBlockId(base + q as u32), &reg_map, &module.functions[ci].cfg, base, cont);
        new_blocks.push(nb);
        match (call_site.dest, &cblock.terminator) {
            (Some(d), IrTerminator::Return { value: Some(v) }) => {
                copies.push(IrInstruction::Copy { dest: d, src: remap_reg(&reg_map, *v) });
            },
            _ => {},
        }
        proof {
            assert(copies@ =~= ret_copies(cbs.subrange(0, q + 1), call_site.dest, rm));
        }
        q = q + 1;
    }
    proof { assert(cbs.subrange(0, q as int) =~= cbs); }
    let entry_new = map_block_exec(&module.functions[ci].cfg, base, module.functions[ci].cfg.entry_block);
    // The caller gets the new blocks and the continuation.

    let ghost qe = crate::blocks::block_pos(cbs, callee.cfg.entry_block);
    let ghost nbs = new_blocks@;
    module.functions[ri].cfg.blocks.append(&mut new_blocks);
    module.functions[ri].cfg.blocks.push(IrBasicBlock {
        id: cont,
        label: None,
        phi_nodes: Vec::new(),
        instructions: copies,
        terminator: IrTerminator::Unreachable,
        predecessors: Vec::new(),
    });
    module.functions[ri].cfg.next_block_id = base + n_callee as u32 + 1;
    let ghost b1 = module.functions@[ri as int].cfg.blocks@;
    proof {
        assert forall|k: int| 0 <= k < n_caller implies #[trigger] b1[k] == ob[k] by {}
        // the ids of the new blocks are fresh
        assert(is_first_block_at(b1, entry_new, n_caller + qe)) by {
            crate::blocks::lemma_block_pos_range(cbs, callee.cfg.entry_block);
            assert forall|j: int| 0 <= j < n_caller + qe implies b1[j].id != entry_new by {
                if j < n_caller {
                    assert(b1[j] == ob[j]);
                } else {
                    assert(b1[j].id == IrBlockId((base + (j - n_caller)) as u32));
                }
            }
        }
        crate::blocks::lemma_block_pos(b1, entry_new, n_caller + qe);
        crate::blocks::lemma_block_pos_range(ob, call_site.block);
        if crate::blocks::block_pos(ob, call_site.block) >= 0 {
            let cbk = crate::blocks::block_pos(ob, call_site.block);
            assert(crate::blocks::is_first_block(b1, call_site.block, cbk)) by {
                assert(crate::blocks::is_first_block(ob, call_site.block, cbk)) by {
                    if !crate::blocks::is_first_block(ob, call_site.block, cbk) {
                        let j = choose|j: int| 0 <= j < cbk && ob[j].id == call_site.block;
                    }
                }
            }
            crate::blocks::lemma_block_pos(b1, call_site.block, cbk);
        } else {
            assert forall|j: int| 0 <= j < b1.len() implies b1[j].id != call_site.block by {
                if j >= n_caller {
                    assert(b1[j].id.0 >= base);
                }
            }
            crate::blocks::lemma_block_pos_none(b1, call_site.block);
        }
    }
    // The block of the call jumps to the inlined entry; what followed the
    // call moves to the continuation.

    match module.functions[ri].cfg.find_block(call_site.block) {
        Some(cbk) => {
            let idx = call_site.instruction_index;
            let len = module.functions[ri].cfg.blocks[cbk].instructions.len();
            assert(idx < len);
            let mut after_call = module.functions[ri].cfg.blocks[cbk].instructions.split_off(idx + 1);
            module.functions[ri].cfg.blocks[cbk].instructions.remove(idx);
            let mut old_terminator = IrTerminator::Branch { target: entry_new };
            std::mem::swap(&mut module.functions[ri].cfg.blocks[cbk].terminator, &mut old_terminator);
            let cont_k = module.functions[ri].cfg.blocks.len() - 1;
            module.functions[ri].cfg.blocks[cont_k].instructions.append(&mut after_call);
            module.functions[ri].cfg.blocks[cont_k].terminator = old_terminator;
            proof {
                let ins = ob[cbk as int].instructions@;
                assert(ins.subrange(0, idx + 1).remove(idx as int) =~= ins.subrange(0, idx as int));
            }
        },
        None => {},
    }
    let ghost b2 = module.functions@[ri as int].cfg.blocks@;
    proof {
        assert(same_ids_ext(b1, b2));
        crate::blocks::lemma_block_pos_ids(b1, b2, entry_new);
    }
    module.functions[ri].cfg.connect_blocks(call_site.block, entry_new);
    proof {
        let nb = module.functions@[ri as int].cfg.blocks@;
        assert(nb[n_caller + qe].predecessors@ =~= seq![call_site.block]);
        assert forall|q2: int| 0 <= q2 < n_callee implies (#[trigger] nb[n_caller + q2]).predecessors@ == if q2 == qe {
            seq![call_site.block]
        } else {
            Seq::<IrBlockId>::empty()
        } by {
            assert(b1[n_caller + q2] == nbs[q2]);
            assert(b2[n_caller + q2] == b1[n_caller + q2]);
            if q2 != qe {
                assert(nb[n_caller + q2] == b2[n_caller + q2]);
                assert(nb[n_caller + q2].predecessors@ =~= Seq::<IrBlockId>::empty());
            }
        }
    }
    Ok(())
}

/// `b` has, at index `i`, the first block named `id`.
pub open spec fn is_first_block_at(b: Seq<IrBasicBlock>, id: IrBlockId, i: int) -> bool {
    crate::blocks::is_first_block(b, id, i)
}

pub open spec fn same_ids_ext(a: Seq<IrBasicBlock>, b: Seq<IrBasicBlock>) -> bool {
    crate::blocks::same_ids(a, b)
}

// ----------------------------------------------------------------------
// Driving the inlining pass
// ----------------------------------------------------------------------

fn cfg_wf_check(cfg: &crate::blocks::IrControlFlowGraph) -> (r: bool)
    ensures
        r == cfg.wf(),
{
    let n = cfg.blocks.len();
    let mut k: usize = 0;
    while k < n
        invariant
            n == cfg.blocks@.len(),
            k <= n,
            forall|k2: int| 0 <= k2 < k ==> (#[trigger] cfg.blocks@[k2]).id.0 < cfg.next_block_id,
            forall|k1: int, k2: int| 0 <= k1 < k2 < n && k1 < k ==> cfg.blocks@[k1].id != cfg.blocks@[k2].id,
        decreases n - k,
    {
        if cfg.blocks[k].id.0 >= cfg.next_block_id {
            return false;
        }
        let mut k2: usize = k + 1;
        while k2 < n
            invariant
                n == cfg.blocks@.len(),
                k < n,
                k < k2 <= n,
                forall|j: int| k < j < k2 ==> cfg.blocks@[k as int].id != cfg.blocks@[j].id,
            decreases n - k2,
        {
            if cfg.blocks[k].id == cfg.blocks[k2].id {
                return false;
            }
            k2 = k2 + 1;
        }
        k = k + 1;
    }
    true
}

fn refs_check(cfg: &crate::blocks::IrControlFlowGraph) -> (r: bool)
    ensures
        r == refs_ok(cfg.blocks@),
{
    let ghost cbs = cfg.blocks@;
    let mut q: usize = 0;
    while q < cfg.blocks.len()
        invariant
            cbs == cfg.blocks@,
            q <= cbs.len(),
            forall|q2: int, t: int|
                0 <= q2 < q && 0 <= t < crate::instructions::term_targets(cbs[q2].terminator).len()
                    ==> crate::blocks::block_pos(cbs, #[trigger] crate::instructions::term_targets(cbs[q2].terminator)[t]) >= 0,
            forall|q2: int, p: int, e: int|
                0 <= q2 < q && 0 <= p < cbs[q2].phi_nodes@.len() && 0 <= e < cbs[q2].phi_nodes@[p].incoming@.len()
                    ==> crate::blocks::block_pos(cbs, (#[trigger] cbs[q2].phi_nodes@[p].incoming@[e]).0) >= 0,
        decreases cbs.len() - q,
    {
        let block = &cfg.blocks[q];
        let targets = crate::instructions::terminator_targets(&block.terminator);
        let mut t: usize = 0;
        while t < targets.len()
            invariant
                cbs == cfg.blocks@,
                q < cbs.len(),
                *block == cbs[q as int],
                targets@ == crate::instructions::term_targets(block.terminator),
                t <= targets@.len(),
                forall|t2: int| 0 <= t2 < t ==> crate::blocks::block_pos(cbs, #[trigger] targets@[t2]) >= 0,
            decreases targets@.len() - t,
        {
            if cfg.find_block(targets[t]).is_none() {
                return false;
            }
            t = t + 1;
        }
        let mut p: usize = 0;
        while p < block.phi_nodes.len()
            invariant
                cbs == cfg.blocks@,
                q < cbs.len(),
                *block == cbs[q as int],
                p <= block.phi_nodes@.len(),
                forall|p2: int, e: int|
                    0 <= p2 < p && 0 <= e < block.phi_nodes@[p2].incoming@.len()
                        ==> crate::blocks::block_pos(cbs, (#[trigger] block.phi_nodes@[p2].incoming@[e]).0) >= 0,
            decreases block.phi_nodes@.len() - p,
        {
            let phi = &block.phi_nodes[p];
            let mut e: usize = 0;
            while e < phi.incoming.len()
                invariant
                    cbs == cfg.blocks@,
                    q < cbs.len(),
                    *block == cbs[q as int],
                    p < block.phi_nodes@.len(),
                    *phi == block.phi_nodes@[p as int],
                    e <= phi.incoming@.len(),
                    forall|e2: int| 0 <= e2 < e ==> crate::blocks::block_pos(cbs, (#[trigger] phi.incoming@[e2]).0) >= 0,
                    forall|p2: int, e2: int|
                        0 <= p2 < p && 0 <= e2 < block.phi_nodes@[p2].incoming@.len()
                            ==> crate::blocks::block_pos(cbs, (#[trigger] block.phi_nodes@[p2].incoming@[e2]).0) >= 0,
                decreases phi.incoming@.len() - e,
            {
                if cfg.find_block(phi.incoming[e].0).is_none() {
                    return false;
                }
                e = e + 1;
            }
            p = p + 1;
        }
        q = q + 1;
    }
    true
}

/// Whether the fresh registers that inlining needs, counted from `next`, fit.
fn fresh_registers_fit(pairs: &Vec<(IrId, IrId)>, blocks: &Vec<IrBasicBlock>, next: u32) -> (r: bool)
    ensures
        r == (assign(pairs@, next as nat, block_defs(blocks@)).1 <= u32::MAX),
{
    let mut map: Vec<(IrId, IrId)> = copy_pairs(pairs);
    let ghost p0 = pairs@;
    let ghost n0 = next as nat;
    let ghost all = block_defs(blocks@);
    let ghost mut done: Seq<IrId> = Seq::empty();
    let mut counter: u32 = next;
    let mut k: usize = 0;
    while k < blocks.len()
        invariant
            k <= blocks@.len(),
            all == block_defs(blocks@),
            p0 == pairs@,
            n0 == next as nat,
            done == block_defs(blocks@.subrange(0, k as int)),
            (map@, counter as nat) == assign(p0, n0, done),
        decreases blocks@.len() - k,
    {
        proof {
            assert(blocks@.subrange(0, k + 1).drop_last() =~= blocks@.subrange(0, k as int));
        }
        let block = &blocks[k];
        let ghost base_done = done;
        let mut p: usize = 0;
        while p < block.phi_nodes.len()
            invariant
                k < blocks@.len(),
                *block == blocks@[k as int],
                p <= block.phi_nodes@.len(),
                all == block_defs(blocks@),
                p0 == pairs@,
                n0 == next as nat,
            p0 == pairs@,
            n0 == next as nat,
                block_defs(blocks@.subrange(0, k + 1)) == base_done + phi_dests(block.phi_nodes@) + inst_dests(block.instructions@),
                done == base_done + phi_dests(block.phi_nodes@.subrange(0, p as int)),
                (map@, counter as nat) == assign(p0, n0, done),
            decreases block.phi_nodes@.len() - p,
        {
            let d = block.phi_nodes[p].dest;
            proof {
                lemma_assign_step(p0, n0, done, d);
                assert(done.push(d) =~= base_done + phi_dests(block.phi_nodes@.subrange(0, p + 1)));
                let full = block_defs(blocks@.subrange(0, k + 1));
                assert(full.subrange(0, done.len() as int + 1) =~= done.push(d));
                lemma_block_defs_prefix_le(blocks@, k as int + 1, p0, n0, done.push(d));
            }
            if map_lookup(&map, d).is_none() {
                if counter == u32::MAX {
                    return false;
                }
                map.push((d, IrId(counter)));
                counter = counter + 1;
            }
            proof { done = done.push(d); }
            p = p + 1;
        }
        proof {
            assert(block.phi_nodes@.subrange(0, p as int) =~= block.phi_nodes@);
        }
        let ghost mid_done = done;
        let mut m: usize = 0;
        while m < block.instructions.len()
            invariant
                k < blocks@.len(),
                *block == blocks@[k as int],
                m <= block.instructions@.len(),
                all == block_defs(blocks@),
                p0 == pairs@,
                n0 == next as nat,
            p0 == pairs@,
            n0 == next as nat,
                block_defs(blocks@.subrange(0, k + 1)) == mid_done + inst_dests(block.instructions@),
                done == mid_done + inst_dests(block.instructions@.subrange(0, m as int)),
                (map@, counter as nat) == assign(p0, n0, done),
            decreases block.instructions@.len() - m,
        {
            proof {
                let s = block.instructions@.subrange(0, m + 1);
                assert(s.drop_last() =~= block.instructions@.subrange(0, m as int));
            }
            match block.instructions[m].dest() {
                Some(d) => {
                    proof {
                        lemma_assign_step(p0, n0, done, d);
                        assert(done.push(d) =~= mid_done + inst_dests(block.instructions@.subrange(0, m + 1)));
                        lemma_inst_dests_prefix(block.instructions@, m + 1);
                        let full = block_defs(blocks@.subrange(0, k + 1));
                        let pre = inst_dests(block.instructions@.subrange(0, m + 1));
                        assert(full.subrange(0, done.len() as int + 1) =~= mid_done + pre);
                        lemma_block_defs_prefix_le(blocks@, k as int + 1, p0, n0, done.push(d));
                    }
                    if map_lookup(&map, d).is_none() {
                        if counter == u32::MAX {
                            return false;
                        }
                        map.push((d, IrId(counter)));
                        counter = counter + 1;
                    }
                    proof { done = done.push(d); }
                },
                None => {
                    proof { assert(done =~= mid_done + inst_dests(block.instructions@.subrange(0, m + 1))); }
                },
            }
            m = m + 1;
        }
        proof {
            assert(block.instructions@.subrange(0, m as int) =~= block.instructions@);
        }
        k = k + 1;
    }
    proof { assert(blocks@.subrange(0, k as int) =~= blocks@); }
    true
}

fn copy_pairs(v: &Vec<(IrId, IrId)>) -> (r: Vec<(IrId, IrId)>)
    ensures
        r@ == v@,
{
    let mut r: Vec<(IrId, IrId)> = Vec::new();
    let mut i: usize = 0;
    while i < v.len()
        invariant
            i <= v@.len(),
            r@ == v@.subrange(0, i as int),
        decreases v@.len() - i,
    {
        r.push(v[i]);
        proof { assert(r@ =~= v@.subrange(0, i + 1)); }
        i = i + 1;
    }
    proof { assert(v@.subrange(0, i as int) =~= v@); }
    r
}

/// Whether `inline_call_site` can inline `site` with registers counted from `next`.
pub fn check_inline(module: &IrModule, site: &CallSite, next: u32) -> (r: bool)
    ensures
        r == can_inline(*module, *site, next),
{
    let ci = match module.find_function(site.callee) {
        Some(i) => i,
        None => return true,
    };
    let ri = match module.find_function(site.caller) {
        Some(i) => i,
        None => return true,
    };
    let callee = &module.functions[ci];
    let caller = &module.functions[ri];
    if !cfg_wf_check(&caller.cfg) {
        return false;
    }
    if site.block.0 >= caller.cfg.next_block_id {
        return false;
    }
    if !refs_check(&callee.cfg) {
        return false;
    }
    if callee.cfg.find_block(callee.cfg.entry_block).is_none() {
        return false;
    }
    if callee.cfg.blocks.len() >= u32::MAX as usize
        || caller.cfg.next_block_id as u64 + callee.cfg.blocks.len() as u64 + 1 > u32::MAX as u64 {
        return false;
    }
    let mut pairs: Vec<(IrId, IrId)> = Vec::new();
    let params = &callee.signature.parameters;
    let mut i: usize = 0;
    while i < params.len() && i < site.args.len()
        invariant
            i <= params@.len(),
            i <= site.args@.len(),
            pairs@ == param_pairs(params@, site.args@).subrange(0, i as int),
        decreases params@.len() - i,
    {
        pairs.push((params[i].reg, site.args[i]));
        proof { assert(pairs@ =~= param_pairs(params@, site.args@).subrange(0, i + 1)); }
        i = i + 1;
    }
    proof { assert(pairs@ =~= param_pairs(params@, site.args@)); }
    if !fresh_registers_fit(&pairs, &callee.cfg.blocks, next) {
        return false;
    }
    match caller.cfg.find_block(site.block) {
        Some(cb) => site.instruction_index < caller.cfg.blocks[cb].instructions.len(),
        None => true,
    }
}

/// No site is decided for inlining (site `i` is decided when `decisions[i]`).
pub open spec fn none_decided(sites: Seq<CallSite>, decisions: Seq<bool>) -> bool {
    forall|i: int| 0 <= i < sites.len() && i < decisions.len() ==> !decisions[i]
}

/// Site `i` is decided for inlining and is the first of the decided sites
/// with the greatest loop depth.
pub open spec fn is_selected(sites: Seq<CallSite>, decisions: Seq<bool>, i: int) -> bool {
    &&& 0 <= i < sites.len()
    &&& i < decisions.len()
    &&& decisions[i]
    &&& forall|j: int| 0 <= j < sites.len() && j < decisions.len() && decisions[j]
        ==> sites[j].loop_depth <= sites[i].loop_depth
    &&& forall|j: int| 0 <= j < i && j < decisions.len() && decisions[j]
        ==> sites[j].loop_depth < sites[i].loop_depth
}

/// The site to inline next: among the sites decided for inlining (index
/// `i` is decided when `decisions[i]`), the first of those with the
/// greatest loop depth.
pub fn select_candidate(call_graph: &CallGraph, decisions: &Vec<bool>) -> (r: Option<usize>)
    ensures
        match r {
            None => none_decided(call_graph.call_sites@, decisions@),
            Some(i) => is_selected(call_graph.call_sites@, decisions@, i as int),
        },
{
    let sites = &call_graph.call_sites;
    let mut best: Option<usize> = None;
    let mut i: usize = 0;
    while i < sites.len()
        invariant
            i <= sites@.len(),
            match best {
                None => forall|j: int| 0 <= j < i && j < decisions@.len() ==> !decisions@[j],
                Some(b) => {
                    &&& b < i
                    &&& b < decisions@.len()
                    &&& decisions@[b as int]
                    &&& forall|j: int| 0 <= j < i && j < decisions@.len() && decisions@[j] ==> sites@[j].loop_depth <= sites@[b as int].loop_depth
                    &&& forall|j: int| 0 <= j < b && j < decisions@.len() && decisions@[j] ==> sites@[j].loop_depth < sites@[b as int].loop_depth
                },
            },
        decreases sites@.len() - i,
    {
        if i < decisions.len() && decisions[i] {
            match best {
                None => {
                    best = Some(i);
                },
                Some(b) => {
                    if sites[i].loop_depth > sites[b].loop_depth {
                        best = Some(i);
                    }
                },
            }
        }
        i = i + 1;
    }
    best
}

/// One past the greatest register that a phi node or an instruction of
/// `regs` defines (0 if none).
pub open spec fn reg_bound(regs: Seq<IrId>) -> nat
    decreases regs.len(),
{
    if regs.len() == 0 {
        0
    } else {
        let b = reg_bound(regs.drop_last());
        if b >= regs.last().0 + 1 {
            b
        } else {
            (regs.last().0 + 1) as nat
        }
    }
}

/// The registers defined in the functions `fs`, in order.
pub open spec fn module_defs(fs: Seq<IrFunction>) -> Seq<IrId>
    decreases fs.len(),
{
    if fs.len() == 0 {
        Seq::empty()
    } else {
        module_defs(fs.drop_last()) + block_defs(fs.last().cfg.blocks@)
    }
}

proof fn lemma_reg_bound_mono(a: Seq<IrId>, b: Seq<IrId>)
    ensures
        reg_bound(a) <= reg_bound(a + b),
    decreases b.len(),
{
    if b.len() > 0 {
        lemma_reg_bound_mono(a, b.drop_last());
        assert((a + b).drop_last() =~= a + b.drop_last());
    } else {
        assert(a + b =~= a);
    }
}

proof fn lemma_reg_bound_push(a: Seq<IrId>, x: IrId)
    ensures
        reg_bound(a.push(x)) == if reg_bound(a) >= x.0 + 1 { reg_bound(a) } else { (x.0 + 1) as nat },
{
    assert(a.push(x).drop_last() =~= a);
}

/// The bound is above every register of `regs`.
pub proof fn lemma_reg_bound_above(regs: Seq<IrId>)
    ensures
        forall|i: int| 0 <= i < regs.len() ==> (#[trigger] regs[i]).0 < reg_bound(regs),
    decreases regs.len(),
{
    if regs.len() > 0 {
        lemma_reg_bound_above(regs.drop_last());
        assert forall|i: int| 0 <= i < regs.len() implies (#[trigger] regs[i]).0 < reg_bound(regs) by {
            if i < regs.len() - 1 {
                assert(regs.drop_last()[i] == regs[i]);
            }
        }
    }
}

/// The registers that inlining hands out to the values a callee defines
/// are fresh: they come in order from `next` on, one per value not mapped
/// yet, every value gets one, and the mapping given before is kept.
pub proof fn lemma_assign_fresh(pairs: Seq<(IrId, IrId)>, next: nat, ds: Seq<IrId>)
    ensures
        ({
            let (p, n) = assign(pairs, next, ds);
            &&& n >= next
            &&& p.len() == pairs.len() + (n - next)
            &&& forall|j: int| 0 <= j < pairs.len() ==> #[trigger] p[j] == pairs[j]
            &&& forall|j: int| 0 <= j < n - next ==> (#[trigger] p[pairs.len() + j]).1 == IrId((next + j) as u32)
            &&& forall|i: int| 0 <= i < ds.len() ==> pairs_map(p).contains_key(#[trigger] ds[i])
        }),
    decreases ds.len(),
{
    if ds.len() > 0 {
        lemma_assign_fresh(pairs, next, ds.drop_last());
        let (p0, n0) = assign(pairs, next, ds.drop_last());
        let d = ds.last();
        assert(ds.drop_last().push(d) =~= ds);
        lemma_assign_step(pairs, next, ds.drop_last(), d);
        if !pairs_map(p0).contains_key(d) {
            let p1 = p0.push((d, IrId(n0 as u32)));
            assert(p1.drop_last() =~= p0);
            assert(pairs_map(p1) == pairs_map(p0).insert(d, IrId(n0 as u32)));
            assert forall|i: int| 0 <= i < ds.len() implies pairs_map(p1).contains_key(#[trigger] ds[i]) by {
                if i < ds.len() - 1 {
                    assert(ds.drop_last()[i] == ds[i]);
                }
            }
        } else {
            assert forall|i: int| 0 <= i < ds.len() implies pairs_map(p0).contains_key(#[trigger] ds[i]) by {
                if i < ds.len() - 1 {
                    assert(ds.drop_last()[i] == ds[i]);
                }
            }
        }
    } else {
        assert forall|i: int| 0 <= i < ds.len() implies pairs_map(pairs).contains_key(#[trigger] ds[i]) by {}
    }
}

/// A register above every register the module defines: one past the
/// greatest; `None` when that one is past the largest register.
pub fn next_register(module: &IrModule) -> (r: Option<u32>)
    ensures
        match r {
            Some(n) => n as nat == reg_bound(module_defs(module.functions@)),
            None => reg_bound(module_defs(module.functions@)) > u32::MAX,
        },
{
    let ghost fs = module.functions@;
    let ghost mut done: Seq<IrId> = Seq::empty();
    let mut next: u64 = 0;
    let mut i: usize = 0;
    while i < module.functions.len()
        invariant
            fs == module.functions@,
            i <= fs.len(),
            done == module_defs(fs.subrange(0, i as int)),
            next as nat == reg_bound(done),
        decreases fs.len() - i,
    {
        proof { assert(fs.subrange(0, i + 1).drop_last() =~= fs.subrange(0, i as int)); }
        let blocks = &module.functions[i].cfg.blocks;
        let ghost fn_done = done;
        let mut k: usize = 0;
        while k < blocks.len()
            invariant
                fs == module.functions@,
                i < fs.len(),
                *blocks == fs[i as int].cfg.blocks,
                k <= blocks@.len(),
                done == fn_done + block_defs(blocks@.subrange(0, k as int)),
                module_defs(fs.subrange(0, i + 1)) == fn_done + block_defs(blocks@),
                next as nat == reg_bound(done),
            decreases blocks@.len() - k,
        {
            proof { assert(blocks@.subrange(0, k + 1).drop_last() =~= blocks@.subrange(0, k as int)); }
            let block = &blocks[k];
            let ghost block_start = done;
            let mut p: usize = 0;
            while p < block.phi_nodes.len()
                invariant
                    fs == module.functions@,
                    i < fs.len(),
                    *blocks == fs[i as int].cfg.blocks,
                    k < blocks@.len(),
                    *block == blocks@[k as int],
                    p <= block.phi_nodes@.len(),
                    done == block_start + phi_dests(block.phi_nodes@.subrange(0, p as int)),
                    block_start == fn_done + block_defs(blocks@.subrange(0, k as int)),
                    module_defs(fs.subrange(0, i + 1)) == fn_done + block_defs(blocks@),
                    next as nat == reg_bound(done),
                decreases block.phi_nodes@.len() - p,
            {
                let d = block.phi_nodes[p].dest;
                proof {
                    lemma_reg_bound_push(done, d);
                    assert(done.push(d) =~= block_start + phi_dests(block.phi_nodes@.subrange(0, p + 1)));
                }
                if d.0 as u64 + 1 > next {
                    next = d.0 as u64 + 1;
                }
                proof { done = done.push(d); }
                p = p + 1;
            }
            proof { assert(block.phi_nodes@.subrange(0, p as int) =~= block.phi_nodes@); }
            let ghost mid = done;
            let mut m: usize = 0;
            while m < block.instructions.len()
                invariant
                    fs == module.functions@,
                    i < fs.len(),
                    *blocks == fs[i as int].cfg.blocks,
                    k < blocks@.len(),
                    *block == blocks@[k as int],
                    m <= block.instructions@.len(),
                    mid == block_start + phi_dests(block.phi_nodes@),
                    done == mid + inst_dests(block.instructions@.subrange(0, m as int)),
                    block_start == fn_done + block_defs(blocks@.subrange(0, k as int)),
                    module_defs(fs.subrange(0, i + 1)) == fn_done + block_defs(blocks@),
                    next as nat == reg_bound(done),
                decreases block.instructions@.len() - m,
            {
                proof {
                    let s = block.instructions@.subrange(0, m + 1);
                    assert(s.drop_last() =~= block.instructions@.subrange(0, m as int));
                }
                match block.instructions[m].dest() {
                    Some(d) => {
                        proof {
                            lemma_reg_bound_push(done, d);
                            assert(done.push(d) =~= mid + inst_dests(block.instructions@.subrange(0, m + 1)));
                        }
                        if d.0 as u64 + 1 > next {
                            next = d.0 as u64 + 1;
                        }
                        proof { done = done.push(d); }
                    },
                    None => {
                        proof { assert(done =~= mid + inst_dests(block.instructions@.subrange(0, m + 1))); }
                    },
                }
                m = m + 1;
            }
            proof {
                assert(block.instructions@.subrange(0, m as int) =~= block.instructions@);
                assert(done =~= fn_done + block_defs(blocks@.subrange(0, k + 1)));
            }
            k = k + 1;
        }
        proof {
            assert(blocks@.subrange(0, k as int) =~= blocks@);
        }
        i = i + 1;
    }
    proof { assert(fs.subrange(0, i as int) =~= fs); }
    if next > u32::MAX as u64 {
        None
    } else {
        Some(next as u32)
    }
}


/// What one round of inlining did.
#[derive(Debug, PartialEq, Eq, Structural)]
pub enum InlineStep {
    /// No site was decided for inlining; the module is unchanged.
    NoCandidate,
    /// The selected site, with this index, was inlined.
    Inlined(usize),
    /// The selected site names a function the module lacks; the module is unchanged.
    Failed(usize, InlineError),
    /// The selected site cannot be inlined: the module's registers are
    /// exhausted, or the site does not describe a call of a well-formed
    /// caller, or the blocks or registers needed do not fit; the module is unchanged.
    Unsupported(usize),
}

/// One round of inlining: selects a site among those decided for inlining
/// (`select_candidate`), numbers fresh registers from one past the greatest
/// register the module defines (`next_register`), and inlines the site.
pub fn inline_step(module: &mut IrModule, call_graph: &CallGraph, decisions: &Vec<bool>) -> (r: InlineStep)
    ensures
        ({
            let sites = call_graph.call_sites@;
            let m0 = *old(module);
            let bound = reg_bound(module_defs(m0.functions@));
            match r {
                InlineStep::NoCandidate => none_decided(sites, decisions@) && *final(module) == m0,
                InlineStep::Unsupported(i) => {
                    &&& is_selected(sites, decisions@, i as int)
                    &&& (bound > u32::MAX || !can_inline(m0, sites[i as int], bound as u32))
                    &&& *final(module) == m0
                },
                InlineStep::Failed(i, e) => {
                    let site = sites[i as int];
                    &&& is_selected(sites, decisions@, i as int)
                    &&& bound <= u32::MAX
                    &&& can_inline(m0, site, bound as u32)
                    &&& *final(module) == m0
                    &&& match e {
                        InlineError::CalleeNotFound(f) => f == site.callee
                            && crate::module::fn_pos(m0.functions@, site.callee) < 0,
                        InlineError::CallerNotFound(f) => f == site.caller
                            && crate::module::fn_pos(m0.functions@, site.callee) >= 0
                            && crate::module::fn_pos(m0.functions@, site.caller) < 0,
                    }
                },
                InlineStep::Inlined(i) => {
                    let site = sites[i as int];
                    &&& is_selected(sites, decisions@, i as int)
                    &&& bound <= u32::MAX
                    &&& can_inline(m0, site, bound as u32)
                    &&& crate::module::fn_pos(m0.functions@, site.callee) >= 0
                    &&& crate::module::fn_pos(m0.functions@, site.caller) >= 0
                    &&& exists|n1: u32| #[trigger] inlined(m0, *final(module), site, bound as u32, n1)
                },
            }
        }),
{
    let i = match select_candidate(call_graph, decisions) {
        Some(i) => i,
        None => return InlineStep::NoCandidate,
    };
    let site = &call_graph.call_sites[i];
    let mut next = match next_register(module) {
        Some(n) => n,
        None => return InlineStep::Unsupported(i),
    };
    if !check_inline(module, site, next) {
        return InlineStep::Unsupported(i);
    }
    match inline_call_site(module, site, &mut next) {
        Ok(()) => InlineStep::Inlined(i),
        Err(e) => InlineStep::Failed(i, e),
    }
}
} // verus!
