//! The layout of a closure environment: each captured variable gets one
//! pointer-sized slot, in capture order.

use vstd::prelude::*;
use crate::blocks::{same_but_instructions, same_ids};
use crate::builder::{
    appends, emits, fn_replaced, lemma_replaced_positions, same_blocks_but, same_context,
    same_module_but_fn, IrBuilder,
};
use crate::functions::{bumped, IrFunction, IrLocal};
use crate::ids::{IrId, SymbolId};
use crate::instructions::IrInstruction;
use crate::types::{BinaryOp, IrSourceLocation, IrType, IrValue, TypeModel};

verus! {

/// One captured variable of a closure environment.
#[derive(Debug)]
pub struct EnvironmentField {
    /// Position among the captures.
    pub index: usize,
    /// The captured variable.
    pub symbol: SymbolId,
    /// The type the closure body works with.
    pub ty: IrType,
    /// The type of the slot that holds it.
    pub storage_ty: IrType,
    /// Byte offset of the slot.
    pub offset: usize,
    /// Whether a cast from `storage_ty` to `ty` is needed on load.
    pub needs_cast: bool,
}

/// The layout of a closure environment.
#[derive(Debug)]
pub struct EnvironmentLayout {
    /// The fields, in capture order.
    pub fields: Vec<EnvironmentField>,
    /// Total size in bytes.
    pub total_size: usize,
    /// Alignment in bytes.
    pub alignment: usize,
}

impl Clone for EnvironmentField {
    fn clone(&self) -> (r: EnvironmentField)
        ensures
            r.index == self.index,
            r.symbol == self.symbol,
            r.ty@ == self.ty@,
            r.storage_ty@ == self.storage_ty@,
            r.offset == self.offset,
            r.needs_cast == self.needs_cast,
    {
        EnvironmentField {
            index: self.index,
            symbol: self.symbol,
            ty: self.ty.copy_type(),
            storage_ty: self.storage_ty.copy_type(),
            offset: self.offset,
            needs_cast: self.needs_cast,
        }
    }
}

/// Size in bytes of every slot.
pub const SLOT_SIZE: usize = 8;

/// A value of type `ty` kept in a 64-bit slot must be narrowed on load:
/// integers narrower than 64 bits and booleans. Pointers, references and
/// aggregates keep the full 64-bit value.
pub open spec fn needs_cast_spec(ty: TypeModel) -> bool {
    ||| ty is I8
    ||| ty is I16
    ||| ty is I32
    ||| ty is U8
    ||| ty is U16
    ||| ty is U32
    ||| ty is Bool
}

fn type_needs_cast(ty: &IrType) -> (r: bool)
    ensures
        r == needs_cast_spec(ty@),
{
    match ty {
        IrType::I8 | IrType::I16 | IrType::I32 => true,
        IrType::U8 | IrType::U16 | IrType::U32 => true,
        IrType::Bool => true,
        _ => false,
    }
}

/// `f` is the field that holds capture number `i`, of variable `symbol` and type `ty`.
pub open spec fn is_capture_field(f: EnvironmentField, i: int, symbol: SymbolId, ty: TypeModel) -> bool {
    &&& f.index == i
    &&& f.symbol == symbol
    &&& f.ty@ == ty
    &&& f.storage_ty@ == TypeModel::I64
    &&& f.offset == 8 * i
    &&& f.needs_cast == needs_cast_spec(ty)
}

/// `l` is the layout of the captures `(symbol, type)`, in order.
pub open spec fn is_layout_of(l: EnvironmentLayout, captures: Seq<(SymbolId, IrType)>) -> bool {
    &&& l.fields@.len() == captures.len()
    &&& forall|i: int|
        0 <= i < captures.len() ==> is_capture_field(#[trigger] l.fields@[i], i, captures[i].0, captures[i].1@)
    &&& l.total_size == 8 * captures.len()
    &&& l.alignment == SLOT_SIZE
}

/// The slots of a layout do not overlap and lie within its size, in capture order.
pub proof fn lemma_layout_slots_disjoint(l: EnvironmentLayout, captures: Seq<(SymbolId, IrType)>)
    requires
        is_layout_of(l, captures),
    ensures
        forall|i: int, j: int|
            0 <= i < j < l.fields@.len() ==> #[trigger] l.fields@[i].offset + SLOT_SIZE <= #[trigger] l.fields@[j].offset,
        forall|i: int| 0 <= i < l.fields@.len() ==> #[trigger] l.fields@[i].offset + SLOT_SIZE <= l.total_size,
{
    assert forall|i: int, j: int|
        0 <= i < j < l.fields@.len() implies #[trigger] l.fields@[i].offset + SLOT_SIZE <= #[trigger] l.fields@[j].offset by {
        assert(is_capture_field(l.fields@[i], i, captures[i].0, captures[i].1@));
        assert(is_capture_field(l.fields@[j], j, captures[j].0, captures[j].1@));
    }
    assert forall|i: int| 0 <= i < l.fields@.len() implies #[trigger] l.fields@[i].offset + SLOT_SIZE <= l.total_size by {
        assert(is_capture_field(l.fields@[i], i, captures[i].0, captures[i].1@));
    }
}

/// A captured pointer, reference or aggregate is never narrowed: its slot
/// holds the full 64-bit value and is read back without a cast.
pub proof fn lemma_pointers_not_cast(l: EnvironmentLayout, captures: Seq<(SymbolId, IrType)>, i: int)
    requires
        is_layout_of(l, captures),
        0 <= i < captures.len(),
        ({
            let t = captures[i].1@;
            ||| t is Ptr
            ||| t is Ref
            ||| t is Struct
            ||| t is Union
            ||| t is Function
            ||| t is Str
            ||| t is Array
            ||| t is Slice
            ||| t is Any
            ||| t is Opaque
            ||| t is TypeVar
        }),
    ensures
        !l.fields@[i].needs_cast,
{
    assert(is_capture_field(l.fields@[i], i, captures[i].0, captures[i].1@));
}

/// A captured variable is found in the layout: at its own capture or at an
/// earlier capture of the same variable.
pub proof fn lemma_capture_found(l: EnvironmentLayout, captures: Seq<(SymbolId, IrType)>, i: int)
    requires
        is_layout_of(l, captures),
        0 <= i < captures.len(),
    ensures
        0 <= field_pos(l.fields@, captures[i].0) <= i,
        l.fields@[field_pos(l.fields@, captures[i].0)].symbol == captures[i].0,
{
    assert(is_capture_field(l.fields@[i], i, captures[i].0, captures[i].1@));
    lemma_first_field_exists(l.fields@, captures[i].0, i);
}

/// A symbol held by field `i` has a first field, at `i` or before.
pub proof fn lemma_first_field_exists(fields: Seq<EnvironmentField>, symbol: SymbolId, i: int)
    requires
        0 <= i < fields.len(),
        fields[i].symbol == symbol,
    ensures
        0 <= field_pos(fields, symbol) <= i,
        fields[field_pos(fields, symbol)].symbol == symbol,
    decreases i,
{
    if exists|k: int| 0 <= k < i && (#[trigger] fields[k]).symbol == symbol {
        let k = choose|k: int| 0 <= k < i && (#[trigger] fields[k]).symbol == symbol;
        lemma_first_field_exists(fields, symbol, k);
    } else {
        assert(is_first_field(fields, symbol, i));
        lemma_field_pos(fields, symbol, i);
    }
}

/// Field `i` is the first field of `symbol`.
pub open spec fn is_first_field(fields: Seq<EnvironmentField>, symbol: SymbolId, i: int) -> bool {
    &&& 0 <= i < fields.len()
    &&& fields[i].symbol == symbol
    &&& forall|k: int| 0 <= k < i ==> (#[trigger] fields[k]).symbol != symbol
}

/// The index of the first field of `symbol`, or -1.
pub open spec fn field_pos(fields: Seq<EnvironmentField>, symbol: SymbolId) -> int {
    if exists|i: int| is_first_field(fields, symbol, i) {
        choose|i: int| is_first_field(fields, symbol, i)
    } else {
        -1
    }
}

/// The first field of a symbol is its only first field.
pub proof fn lemma_field_pos(fields: Seq<EnvironmentField>, symbol: SymbolId, i: int)
    requires
        is_first_field(fields, symbol, i),
    ensures
        field_pos(fields, symbol) == i,
{
    let j = field_pos(fields, symbol);
    assert(is_first_field(fields, symbol, j));
    if j < i {
        assert(fields[j].symbol != symbol);
    } else if i < j {
        assert(fields[i].symbol != symbol);
    }
}

/// A symbol with no field has position -1.
pub proof fn lemma_field_pos_none(fields: Seq<EnvironmentField>, symbol: SymbolId)
    requires
        forall|k: int| 0 <= k < fields.len() ==> (#[trigger] fields[k]).symbol != symbol,
    ensures
        field_pos(fields, symbol) == -1,
{
}

/// `b` is `a` where the function being built has `n` more registers, the
/// block being built has `insts` appended, and the function has `locs`
/// appended to its locals; nothing else changed.
pub open spec fn grown(
    a: IrBuilder,
    b: IrBuilder,
    insts: Seq<IrInstruction>,
    locs: Seq<(IrId, IrLocal)>,
    n: nat,
) -> bool {
    let f = a.func();
    let g = b.the_module().functions@[a.fpos()];
    let j = a.bpos();
    &&& same_context(a, b)
    &&& same_module_but_fn(a.the_module(), b.the_module(), a.fpos())
    &&& g.id == f.id
    &&& g.symbol_id == f.symbol_id
    &&& g.name == f.name
    &&& g.signature == f.signature
    &&& g.cfg.entry_block == f.cfg.entry_block
    &&& g.cfg.next_block_id == f.cfg.next_block_id
    &&& same_blocks_but(f.cfg.blocks@, g.cfg.blocks@, j)
    &&& same_but_instructions(f.cfg.blocks@[j], g.cfg.blocks@[j])
    &&& g.cfg.blocks@[j].instructions@ == f.cfg.blocks@[j].instructions@ + insts
    &&& g.locals@ == f.locals@ + locs
    &&& g.next_reg_id == f.next_reg_id + n
}

/// `e` records register `reg` as an unnamed, immutable local whose type has model `ty`.
pub open spec fn is_local_of(e: (IrId, IrLocal), reg: IrId, ty: TypeModel) -> bool {
    &&& e.0 == reg
    &&& e.1.name@ == Seq::<char>::empty()
    &&& e.1.ty@ == ty
    &&& !e.1.mutable
    &&& e.1.source_location == IrSourceLocation::unknown_spec()
}

/// The register `base + k`.
pub open spec fn reg_at(base: int, k: int) -> IrId {
    IrId((base + k) as u32)
}

/// The type a loaded value is recorded with: pointer-like values keep the
/// type the closure body works with, the others the type of their slot.
pub open spec fn loaded_type(f: EnvironmentField) -> TypeModel {
    match f.ty@ {
        TypeModel::Ptr(_) | TypeModel::Ref(_) | TypeModel::Str | TypeModel::Any => f.ty@,
        _ => f.storage_ty@,
    }
}

/// The instructions and locals that load field `f` through `env_ptr`, with
/// registers numbered from `base`: the slot address `env_ptr + offset`, a
/// load of the slot, and a cast to the field's type where it needs one.
pub open spec fn load_code(
    insts: Seq<IrInstruction>,
    locs: Seq<(IrId, IrLocal)>,
    env_ptr: IrId,
    base: int,
    f: EnvironmentField,
) -> bool {
    &&& insts.len() == if f.needs_cast { 4int } else { 3int }
    &&& insts[0] == IrInstruction::Const { dest: reg_at(base, 0), value: IrValue::I64(f.offset as i64) }
    &&& insts[1] == IrInstruction::BinOp {
        dest: reg_at(base, 1),
        op: BinaryOp::Add,
        left: env_ptr,
        right: reg_at(base, 0),
    }
    &&& insts[2] matches IrInstruction::Load { dest, ptr, ty }
        && dest == reg_at(base, 2) && ptr == reg_at(base, 1) && ty@ == f.storage_ty@
    &&& f.needs_cast ==> (insts[3] matches IrInstruction::Cast { dest, src, from_ty, to_ty }
        && dest == reg_at(base, 3) && src == reg_at(base, 2)
        && from_ty@ == f.storage_ty@ && to_ty@ == f.ty@)
    &&& locs.len() == if f.needs_cast { 3int } else { 2int }
    &&& is_local_of(locs[0], reg_at(base, 1), TypeModel::Ptr(Box::new(TypeModel::Void)))
    &&& is_local_of(locs[1], reg_at(base, 2), loaded_type(f))
    &&& f.needs_cast ==> is_local_of(locs[2], reg_at(base, 3), f.ty@)
}

/// The instructions and locals that store `value` into field `f` through
/// `env_ptr`, with registers numbered from `base`: a cast to the slot's type
/// where the field needs one, the slot address `env_ptr + offset`, and the store.
pub open spec fn store_code(
    insts: Seq<IrInstruction>,
    locs: Seq<(IrId, IrLocal)>,
    env_ptr: IrId,
    value: IrId,
    base: int,
    f: EnvironmentField,
) -> bool {
    let k: int = if f.needs_cast { 1 } else { 0 };
    let stored = if f.needs_cast { reg_at(base, 0) } else { value };
    &&& insts.len() == k + 3
    &&& f.needs_cast ==> (insts[0] matches IrInstruction::Cast { dest, src, from_ty, to_ty }
        && dest == reg_at(base, 0) && src == value
        && from_ty@ == f.ty@ && to_ty@ == f.storage_ty@)
    &&& insts[k] == IrInstruction::Const { dest: reg_at(base, k), value: IrValue::I64(f.offset as i64) }
    &&& insts[k + 1] == IrInstruction::BinOp {
        dest: reg_at(base, k + 1),
        op: BinaryOp::Add,
        left: env_ptr,
        right: reg_at(base, k),
    }
    &&& insts[k + 2] == IrInstruction::Store { ptr: reg_at(base, k + 1), value: stored }
    &&& locs.len() == 1
    &&& is_local_of(locs[0], reg_at(base, k + 1), TypeModel::Ptr(Box::new(TypeModel::Void)))
}

/// Storing into a field and loading it back go through the same slot: both
/// add the field's offset to the environment pointer, and the cast that a
/// store makes to the slot's type is undone by the cast the load makes back.
pub proof fn lemma_store_load_same_slot(
    f: EnvironmentField,
    env_ptr: IrId,
    value: IrId,
    store_base: int,
    store_insts: Seq<IrInstruction>,
    store_locs: Seq<(IrId, IrLocal)>,
    load_base: int,
    load_insts: Seq<IrInstruction>,
    load_locs: Seq<(IrId, IrLocal)>,
)
    requires
        store_code(store_insts, store_locs, env_ptr, value, store_base, f),
        load_code(load_insts, load_locs, env_ptr, load_base, f),
    ensures
        ({
            let k: int = if f.needs_cast { 1 } else { 0 };
            &&& store_insts[k] matches IrInstruction::Const { value: v1, .. }
            &&& load_insts[0] matches IrInstruction::Const { value: v2, .. }
            &&& v1 == v2
            &&& store_insts[k + 1] matches IrInstruction::BinOp { op: o1, left: l1, .. }
            &&& load_insts[1] matches IrInstruction::BinOp { op: o2, left: l2, .. }
            &&& o1 == o2 && l1 == l2
        }),
        f.needs_cast ==> (store_insts[0] matches IrInstruction::Cast { from_ty: sf, to_ty: st, .. }
            && load_insts[3] matches IrInstruction::Cast { from_ty: lf, to_ty: lt, .. }
            && sf@ == lt@ && st@ == lf@),
{
}

/// Registers needed to load the field of `symbol`.
pub open spec fn load_regs(fields: Seq<EnvironmentField>, symbol: SymbolId) -> int {
    let p = field_pos(fields, symbol);
    if p < 0 { 0 } else if fields[p].needs_cast { 4 } else { 3 }
}

/// Registers needed to store into the field of `symbol`.
pub open spec fn store_regs(fields: Seq<EnvironmentField>, symbol: SymbolId) -> int {
    let p = field_pos(fields, symbol);
    if p < 0 { 0 } else if fields[p].needs_cast { 3 } else { 2 }
}

/// Enough registers are left in the function being built.
pub open spec fn regs_fit(b: IrBuilder, n: int) -> bool {
    b.has_fn() ==> b.func().next_reg_id + n <= u32::MAX
}

proof fn lemma_void_ptr_view()
    ensures
        IrType::Ptr(Box::new(IrType::Void))@ == TypeModel::Ptr(Box::new(TypeModel::Void)),
{
    assert(IrType::Void@ == TypeModel::Void);
}

proof fn lemma_grown_start(a: IrBuilder)
    requires
        a.has_block(),
    ensures
        grown(a, a, Seq::empty(), Seq::empty(), 0),
{
    let f = a.func();
    assert(f.cfg.blocks@[a.bpos()].instructions@ + Seq::<IrInstruction>::empty()
        =~= f.cfg.blocks@[a.bpos()].instructions@);
    assert(f.locals@ + Seq::<(IrId, IrLocal)>::empty() =~= f.locals@);
}

/// The function that `grown` speaks of keeps the positions of the
/// function and block being built.
proof fn lemma_grown_positions(
    a: IrBuilder,
    mid: IrBuilder,
    insts: Seq<IrInstruction>,
    locs: Seq<(IrId, IrLocal)>,
    n: nat,
)
    requires
        a.has_block(),
        grown(a, mid, insts, locs, n),
    ensures
        mid.has_block(),
        mid.fpos() == a.fpos(),
        mid.bpos() == a.bpos(),
        mid.func() == mid.the_module().functions@[a.fpos()],
{
    let g = mid.the_module().functions@[a.fpos()];
    let f = a.func();
    assert(same_ids(f.cfg.blocks@, g.cfg.blocks@)) by {
        assert forall|k: int| 0 <= k < f.cfg.blocks@.len() implies (#[trigger] g.cfg.blocks@[k]).id
            == f.cfg.blocks@[k].id by {
            if k != a.bpos() {
                assert(g.cfg.blocks@[k] == f.cfg.blocks@[k]);
            }
        }
    }
    lemma_replaced_positions(a, mid, g);
}

proof fn lemma_grown_emit(
    a: IrBuilder,
    mid: IrBuilder,
    b: IrBuilder,
    insts: Seq<IrInstruction>,
    locs: Seq<(IrId, IrLocal)>,
    n: nat,
    r: Option<IrId>,
    mk: spec_fn(IrId) -> IrInstruction,
)
    requires
        a.has_block(),
        grown(a, mid, insts, locs, n),
        a.func().next_reg_id + n < u32::MAX,
        emits(mid, b, r, mk),
    ensures
        r == Some(reg_at(a.func().next_reg_id as int, n as int)),
        grown(a, b, insts.push(mk(r->0)), locs, n + 1),
{
    lemma_grown_positions(a, mid, insts, locs, n);
    let j = a.bpos();
    let f = a.func();
    let g = mid.func();
    let h = b.the_module().functions@[a.fpos()];
    assert(h.cfg.blocks@[j].instructions@ == g.cfg.blocks@[j].instructions@.push(mk(r->0)));
    assert(f.cfg.blocks@[j].instructions@ + insts.push(mk(r->0))
        =~= (f.cfg.blocks@[j].instructions@ + insts).push(mk(r->0)));
    assert forall|k: int| 0 <= k < f.cfg.blocks@.len() && k != j implies #[trigger] h.cfg.blocks@[k]
        == f.cfg.blocks@[k] by {
        assert(g.cfg.blocks@[k] == f.cfg.blocks@[k]);
    }
    assert forall|k: int| 0 <= k < a.the_module().functions@.len() && k != a.fpos()
        implies #[trigger] b.the_module().functions@[k] == a.the_module().functions@[k] by {
        assert(mid.the_module().functions@[k] == a.the_module().functions@[k]);
    }
}

proof fn lemma_grown_append(
    a: IrBuilder,
    mid: IrBuilder,
    b: IrBuilder,
    insts: Seq<IrInstruction>,
    locs: Seq<(IrId, IrLocal)>,
    n: nat,
    r: Option<()>,
    inst: IrInstruction,
)
    requires
        a.has_block(),
        grown(a, mid, insts, locs, n),
        appends(mid, b, r, inst),
    ensures
        r == Some(()),
        grown(a, b, insts.push(inst), locs, n),
{
    lemma_grown_positions(a, mid, insts, locs, n);
    let j = a.bpos();
    let f = a.func();
    let g = mid.func();
    let h = b.the_module().functions@[a.fpos()];
    assert(f.cfg.blocks@[j].instructions@ + insts.push(inst)
        =~= (f.cfg.blocks@[j].instructions@ + insts).push(inst));
    assert forall|k: int| 0 <= k < f.cfg.blocks@.len() && k != j implies #[trigger] h.cfg.blocks@[k]
        == f.cfg.blocks@[k] by {
        assert(g.cfg.blocks@[k] == f.cfg.blocks@[k]);
    }
    assert forall|k: int| 0 <= k < a.the_module().functions@.len() && k != a.fpos()
        implies #[trigger] b.the_module().functions@[k] == a.the_module().functions@[k] by {
        assert(mid.the_module().functions@[k] == a.the_module().functions@[k]);
    }
}

proof fn lemma_grown_local(
    a: IrBuilder,
    mid: IrBuilder,
    b: IrBuilder,
    insts: Seq<IrInstruction>,
    locs: Seq<(IrId, IrLocal)>,
    n: nat,
    nf: IrFunction,
)
    requires
        a.has_block(),
        grown(a, mid, insts, locs, n),
        fn_replaced(mid, b, nf),
        nf == (IrFunction { locals: nf.locals, ..mid.func() }),
        nf.locals@.len() == mid.func().locals@.len() + 1,
        nf.locals@.drop_last() == mid.func().locals@,
    ensures
        grown(a, b, insts, locs.push(nf.locals@.last()), n),
{
    lemma_grown_positions(a, mid, insts, locs, n);
    let f = a.func();
    assert(nf.locals@ =~= nf.locals@.drop_last().push(nf.locals@.last()));
    assert(f.locals@ + locs.push(nf.locals@.last()) =~= (f.locals@ + locs).push(nf.locals@.last()));
    assert forall|k: int| 0 <= k < a.the_module().functions@.len() && k != a.fpos()
        implies #[trigger] b.the_module().functions@[k] == a.the_module().functions@[k] by {
        assert(mid.the_module().functions@[k] == a.the_module().functions@[k]);
    }
}

impl EnvironmentLayout {
    /// The layout of the captures `(symbol, type)`, in order: capture `i`
    /// lives at offset `8 * i` in a 64-bit slot.
    pub fn new(captures: &[(SymbolId, IrType)]) -> (r: EnvironmentLayout)
        requires
            8 * captures@.len() <= usize::MAX,
        ensures
            is_layout_of(r, captures@),
    {
        let mut offset: usize = 0;
        let mut fields: Vec<EnvironmentField> = Vec::new();
        let mut index: usize = 0;
        while index < captures.len()
            invariant
                8 * captures@.len() <= usize::MAX,
                index <= captures@.len(),
                offset == 8 * index,
                fields@.len() == index,
                forall|i: int|
                    0 <= i < index ==> is_capture_field(
                        #[trigger] fields@[i],
                        i,
                        captures@[i].0,
                        captures@[i].1@,
                    ),
            decreases captures@.len() - index,
        {
            let capture = &captures[index];
            let final_ty = capture.1.copy_type();
            let needs_cast = type_needs_cast(&final_ty);
            fields.push(EnvironmentField {
                index,
                symbol: capture.0,
                ty: final_ty,
                storage_ty: IrType::I64,
                offset,
                needs_cast,
            });
            offset = offset + SLOT_SIZE;
            index = index + 1;
        }
        EnvironmentLayout { fields, total_size: offset, alignment: SLOT_SIZE }
    }

    fn field_index(&self, symbol: SymbolId) -> (r: Option<usize>)
        ensures
            match r {
                Some(i) => i == field_pos(self.fields@, symbol),
                None => field_pos(self.fields@, symbol) == -1,
            },
    {
        let mut i: usize = 0;
        while i < self.fields.len()
            invariant
                i <= self.fields@.len(),
                forall|k: int| 0 <= k < i ==> (#[trigger] self.fields@[k]).symbol != symbol,
            decreases self.fields@.len() - i,
        {
            if self.fields[i].symbol == symbol {
                proof { lemma_field_pos(self.fields@, symbol, i as int); }
                return Some(i);
            }
            i = i + 1;
        }
        proof { lemma_field_pos_none(self.fields@, symbol); }
        None
    }

    /// The first field of `symbol`.
    pub fn find_field(&self, symbol: SymbolId) -> (r: Option<&EnvironmentField>)
        ensures
            field_pos(self.fields@, symbol) < 0 ==> r is None,
            field_pos(self.fields@, symbol) >= 0 ==> r == Some(&self.fields@[field_pos(self.fields@, symbol)]),
    {
        match self.field_index(symbol) {
            Some(i) => Some(&self.fields[i]),
            None => None,
        }
    }

    /// Emits code that loads the captured variable `symbol` from the
    /// environment at `env_ptr`, and gives the register that holds its value
    /// (after the cast, where the field needs one). `None` where the layout
    /// has no such field or no block is being built.
    pub fn load_field(&self, builder: &mut IrBuilder, env_ptr: IrId, symbol: SymbolId) -> (r: Option<IrId>)
        requires
            regs_fit(*old(builder), load_regs(self.fields@, symbol)),
        ensures
            ({
                let p = field_pos(self.fields@, symbol);
                let f = self.fields@[p];
                let a = *old(builder);
                let base = a.func().next_reg_id as int;
                if p < 0 || !a.has_fn() {
                    r is None && *final(builder) == a
                } else if !a.has_block() {
                    r is None && fn_replaced(a, *final(builder), bumped(a.func()))
                } else {
                    &&& r == Some(reg_at(base, if f.needs_cast { 3int } else { 2int }))
                    &&& exists|insts: Seq<IrInstruction>, locs: Seq<(IrId, IrLocal)>|
                        #[trigger] grown(a, *final(builder), insts, locs, load_regs(self.fields@, symbol) as nat)
                        && load_code(insts, locs, env_ptr, base, f)
                }
            }),
    {
        let ghost a = *builder;
        let ghost p = field_pos(self.fields@, symbol);
        let field = match self.find_field(symbol) {
            Some(f) => f,
            None => return None,
        };
        let ghost base = a.func().next_reg_id as int;
        let offset_const = match builder.build_int(field.offset as i64, IrType::I64) {
            Some(c) => c,
            None => return None,
        };
        let ghost b1 = *builder;
        proof {
            lemma_grown_start(a);
            lemma_grown_emit(a, a, b1, Seq::empty(), Seq::empty(), 0, Some(offset_const),
                |d: IrId| IrInstruction::Const { dest: d, value: IrValue::I64(field.offset as i64) });
            lemma_grown_positions(a, b1, seq![IrInstruction::Const { dest: offset_const, value: IrValue::I64(field.offset as i64) }], Seq::empty(), 1);
        }
        let ghost insts1 = seq![IrInstruction::Const { dest: offset_const, value: IrValue::I64(field.offset as i64) }];
        let field_ptr = match builder.build_binop(BinaryOp::Add, env_ptr, offset_const) {
            Some(p) => p,
            None => return None,
        };
        let ghost b2 = *builder;
        let ghost insts2 = insts1.push(IrInstruction::BinOp { dest: field_ptr, op: BinaryOp::Add, left: env_ptr, right: offset_const });
        proof {
            lemma_grown_emit(a, b1, b2, insts1, Seq::empty(), 1, Some(field_ptr),
                |d: IrId| IrInstruction::BinOp { dest: d, op: BinaryOp::Add, left: env_ptr, right: offset_const });
            lemma_grown_positions(a, b2, insts2, Seq::empty(), 2);
        }
        let _ = builder.register_local(field_ptr, IrType::Ptr(Box::new(IrType::Void)));
        let ghost b3 = *builder;
        let ghost locs3 = seq![b3.the_module().functions@[a.fpos()].locals@.last()];
        proof {
            lemma_grown_local(a, b2, b3, insts2, Seq::empty(), 2, b3.the_module().functions@[a.fpos()]);
            assert(Seq::<(IrId, IrLocal)>::empty().push(b3.the_module().functions@[a.fpos()].locals@.last()) == locs3);
            lemma_grown_positions(a, b3, insts2, locs3, 2);
            lemma_void_ptr_view();
        }
        let sty = field.storage_ty.copy_type();
        let ghost sty_g = sty;
        let loaded = match builder.build_load(field_ptr, sty) {
            Some(l) => l,
            None => return None,
        };
        let ghost b4 = *builder;
        let ghost insts4 = insts2.push(IrInstruction::Load { dest: loaded, ptr: field_ptr, ty: sty_g });
        proof {
            lemma_grown_emit(a, b3, b4, insts2, locs3, 2, Some(loaded),
                |d: IrId| IrInstruction::Load { dest: d, ptr: field_ptr, ty: sty_g });
            lemma_grown_positions(a, b4, insts4, locs3, 3);
        }
        let register_ty = match &field.ty {
            IrType::Ptr(_) | IrType::Ref(_) | IrType::String | IrType::Any => field.ty.copy_type(),
            _ => field.storage_ty.copy_type(),
        };
        let ghost rty = register_ty;
        let _ = builder.register_local(loaded, register_ty);
        let ghost b5 = *builder;
        let ghost locs5 = locs3.push(b5.the_module().functions@[a.fpos()].locals@.last());
        proof {
            lemma_grown_local(a, b4, b5, insts4, locs3, 3, b5.the_module().functions@[a.fpos()]);
            lemma_grown_positions(a, b5, insts4, locs5, 3);
            assert(rty@ == loaded_type(*field));
        }
        if field.needs_cast {
            let from_ty = field.storage_ty.copy_type();
            let to_ty = field.ty.copy_type();
            let ghost from_g = from_ty;
            let ghost to_g = to_ty;
            let casted = match builder.build_cast(loaded, from_ty, to_ty) {
                Some(c) => c,
                None => return None,
            };
            let ghost b6 = *builder;
            let ghost insts6 = insts4.push(IrInstruction::Cast { dest: casted, src: loaded, from_ty: from_g, to_ty: to_g });
            proof {
                lemma_grown_emit(a, b5, b6, insts4, locs5, 3, Some(casted),
                    |d: IrId| IrInstruction::Cast { dest: d, src: loaded, from_ty: from_g, to_ty: to_g });
                lemma_grown_positions(a, b6, insts6, locs5, 4);
            }
            let _ = builder.register_local(casted, field.ty.copy_type());
            let ghost b7 = *builder;
            let ghost locs7 = locs5.push(b7.the_module().functions@[a.fpos()].locals@.last());
            proof {
                lemma_grown_local(a, b6, b7, insts6, locs5, 4, b7.the_module().functions@[a.fpos()]);
                assert(load_code(insts6, locs7, env_ptr, base, *field));
                assert(grown(a, b7, insts6, locs7, load_regs(self.fields@, symbol) as nat));
            }
            Some(casted)
        } else {
            proof {
                assert(load_code(insts4, locs5, env_ptr, base, *field));
                assert(grown(a, b5, insts4, locs5, load_regs(self.fields@, symbol) as nat));
            }
            Some(loaded)
        }
    }

    /// Emits code that stores `value` into the slot of the captured variable
    /// `symbol` in the environment at `env_ptr`, cast to the slot's type
    /// first where the field needs it. `None` where the layout has no such
    /// field or no block is being built.
    pub fn store_field(&self, builder: &mut IrBuilder, env_ptr: IrId, symbol: SymbolId, value: IrId) -> (r: Option<()>)
        requires
            regs_fit(*old(builder), store_regs(self.fields@, symbol)),
        ensures
            ({
                let p = field_pos(self.fields@, symbol);
                let f = self.fields@[p];
                let a = *old(builder);
                let base = a.func().next_reg_id as int;
                if p < 0 || !a.has_fn() {
                    r is None && *final(builder) == a
                } else if !a.has_block() {
                    r is None && fn_replaced(a, *final(builder), bumped(a.func()))
                } else {
                    &&& r == Some(())
                    &&& exists|insts: Seq<IrInstruction>, locs: Seq<(IrId, IrLocal)>|
                        #[trigger] grown(a, *final(builder), insts, locs, store_regs(self.fields@, symbol) as nat)
                        && store_code(insts, locs, env_ptr, value, base, f)
                }
            }),
    {
        let ghost a = *builder;
        let ghost p = field_pos(self.fields@, symbol);
        let field = match self.find_field(symbol) {
            Some(f) => f,
            None => return None,
        };
        let ghost base = a.func().next_reg_id as int;
        let ghost k: int = if field.needs_cast { 1 } else { 0 };
        let ghost mut insts0: Seq<IrInstruction> = Seq::empty();
        let ghost mut b0 = a;
        let store_value = if field.needs_cast {
            let from_ty = field.ty.copy_type();
            let to_ty = field.storage_ty.copy_type();
            let ghost from_g = from_ty;
            let ghost to_g = to_ty;
            let casted = match builder.build_cast(value, from_ty, to_ty) {
                Some(c) => c,
                None => return None,
            };
            proof {
                lemma_grown_start(a);
                lemma_grown_emit(a, a, *builder, Seq::empty(), Seq::empty(), 0, Some(casted),
                    |d: IrId| IrInstruction::Cast { dest: d, src: value, from_ty: from_g, to_ty: to_g });
                insts0 = seq![IrInstruction::Cast { dest: casted, src: value, from_ty: from_g, to_ty: to_g }];
                b0 = *builder;
                lemma_grown_positions(a, b0, insts0, Seq::empty(), 1);
            }
            casted
        } else {
            value
        };
        let offset_const = match builder.build_int(field.offset as i64, IrType::I64) {
            Some(c) => c,
            None => return None,
        };
        let ghost b1 = *builder;
        let ghost insts1 = insts0.push(IrInstruction::Const { dest: offset_const, value: IrValue::I64(field.offset as i64) });
        proof {
            if !field.needs_cast {
                lemma_grown_start(a);
            }
            lemma_grown_emit(a, b0, b1, insts0, Seq::empty(), k as nat, Some(offset_const),
                |d: IrId| IrInstruction::Const { dest: d, value: IrValue::I64(field.offset as i64) });
            lemma_grown_positions(a, b1, insts1, Seq::empty(), (k + 1) as nat);
        }
        let field_ptr = match builder.build_binop(BinaryOp::Add, env_ptr, offset_const) {
            Some(p) => p,
            None => return None,
        };
        let ghost b2 = *builder;
        let ghost insts2 = insts1.push(IrInstruction::BinOp { dest: field_ptr, op: BinaryOp::Add, left: env_ptr, right: offset_const });
        proof {
            lemma_grown_emit(a, b1, b2, insts1, Seq::empty(), (k + 1) as nat, Some(field_ptr),
                |d: IrId| IrInstruction::BinOp { dest: d, op: BinaryOp::Add, left: env_ptr, right: offset_const });
            lemma_grown_positions(a, b2, insts2, Seq::empty(), (k + 2) as nat);
        }
        let _ = builder.register_local(field_ptr, IrType::Ptr(Box::new(IrType::Void)));
        let ghost b3 = *builder;
        let ghost locs3 = seq![b3.the_module().functions@[a.fpos()].locals@.last()];
        proof {
            lemma_grown_local(a, b2, b3, insts2, Seq::empty(), (k + 2) as nat, b3.the_module().functions@[a.fpos()]);
            assert(Seq::<(IrId, IrLocal)>::empty().push(b3.the_module().functions@[a.fpos()].locals@.last()) == locs3);
            lemma_grown_positions(a, b3, insts2, locs3, (k + 2) as nat);
            lemma_void_ptr_view();
        }
        let stored = builder.build_store(field_ptr, store_value);
        proof {
            let insts4 = insts2.push(IrInstruction::Store { ptr: field_ptr, value: store_value });
            lemma_grown_append(a, b3, *builder, insts2, locs3, (k + 2) as nat, stored,
                IrInstruction::Store { ptr: field_ptr, value: store_value });
            assert(store_code(insts4, locs3, env_ptr, value, base, *field));
            assert(grown(a, *builder, insts4, locs3, store_regs(self.fields@, symbol) as nat));
        }
        Some(())
    }
}

} // verus!
