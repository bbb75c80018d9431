//! The type definitions that lowering registers in the module for the
//! types a module declares, and the field indices it records for field
//! access.

use vstd::prelude::*;
use crate::builder::IrBuilder;
use crate::externs::{first_where, lemma_first_where, lemma_first_where_none};
use crate::hir::{
    AnonymousField, HirAbstract, HirClass, HirClassField, HirEnum, HirInterface, HirTypeAlias, HirTypeDecl, PropertyAccessInfo,
    PropertyAccessor, TypeId, TypeKind, TypeTable,
};
use crate::lowering::{convert_type, conversion, converts, find_type, type_entry};
use crate::text::{decimal, push_decimal};
use crate::ids::SymbolId;
use crate::lowering::HirToMirContext;
use crate::module::{IrEnumVariant, IrField, IrModule, IrTypeDef, IrTypeDefId, IrTypeDefinition};
use crate::types::{IrSourceLocation, IrType};

verus! {

/// `b` is `a` with one more type definition, under the next type definition
/// id; nothing else of the builder changes.
pub open spec fn typedef_added(a: IrBuilder, b: IrBuilder) -> bool {
    let m0 = a.the_module();
    let m1 = b.the_module();
    &&& b == (IrBuilder { module: m1, ..a })
    &&& m1 == (IrModule { types: m1.types, next_typedef_id: (m0.next_typedef_id + 1) as u32, ..m0 })
    &&& m1.types@.len() == m0.types@.len() + 1
    &&& m1.types@.drop_last() == m0.types@
    &&& m1.types@.last().id == IrTypeDefId(m0.next_typedef_id)
    &&& m1.types@.last().source_location == IrSourceLocation::unknown_spec()
}

/// The discriminant of the `i`-th variant: the one given, else `i` (as the
/// front end's 32-bit discriminants hold it).
pub open spec fn discriminant_of(given: Option<i32>, i: int) -> i64 {
    match given {
        Some(d) => d as i64,
        None => (i as i32) as i64,
    }
}

/// `fields` are fields of type `Any` without offsets, named as `names`.
pub open spec fn untyped_fields(fields: Seq<IrField>, names: Seq<Seq<char>>) -> bool {
    &&& fields.len() == names.len()
    &&& forall|k: int|
        0 <= k < fields.len() ==> {
            &&& (#[trigger] fields[k]).name@ == names[k]
            &&& fields[k].ty == IrType::Any
            &&& fields[k].offset is None
        }
}

/// What `register_enum_metadata` records of `decl`: each variant with its
/// name, discriminant and untyped fields, with `I32` discriminants.
pub open spec fn is_enum_def(d: IrTypeDefinition, decl: HirEnum) -> bool {
    match d {
        IrTypeDefinition::Enum { variants, discriminant_type } => {
            &&& discriminant_type == IrType::I32
            &&& variants@.len() == decl.variants@.len()
            &&& forall|i: int|
                0 <= i < variants@.len() ==> {
                    let v = #[trigger] variants@[i];
                    let dv = decl.variants@[i];
                    &&& v.name@ == dv.name@
                    &&& v.discriminant == discriminant_of(dv.discriminant, i)
                    &&& untyped_fields(v.fields@, dv.fields@.map_values(|f: crate::hir::HirEnumField| f.name@))
                }
        },
        _ => false,
    }
}

/// The type of an interface method slot: a pointer to a function of `Any`.
pub open spec fn method_slot_type(t: IrType) -> bool {
    match t {
        IrType::Ptr(inner) => match *inner {
            IrType::Function { params, return_type, varargs } => {
                &&& params@ == seq![IrType::Any]
                &&& *return_type == IrType::Any
                &&& !varargs
            },
            _ => false,
        },
        _ => false,
    }
}

/// What `register_interface_metadata` records of `decl`: an unpacked
/// struct with a method slot for each method, in order.
pub open spec fn is_interface_def(d: IrTypeDefinition, decl: HirInterface) -> bool {
    match d {
        IrTypeDefinition::Struct { fields, packed } => {
            &&& !packed
            &&& fields@.len() == decl.methods@.len()
            &&& forall|k: int|
                0 <= k < fields@.len() ==> {
                    &&& (#[trigger] fields@[k]).name@ == decl.methods@[k].name@
                    &&& method_slot_type(fields@[k].ty)
                    &&& fields@[k].offset is None
                }
        },
        _ => false,
    }
}

fn method_slot() -> (r: IrType)
    ensures
        method_slot_type(r),
{
    let mut params: Vec<IrType> = Vec::new();
    params.push(IrType::Any);
    proof {
        assert(params@ =~= seq![IrType::Any]);
    }
    IrType::Ptr(Box::new(IrType::Function { params, return_type: Box::new(IrType::Any), varargs: false }))
}

// ---------------------------------------------------------------------------
// Maps kept as vectors of (key, value), looked up by the first entry
// ---------------------------------------------------------------------------

/// An entry for key `k`.
pub open spec fn key_entry<K, V>(k: K) -> spec_fn((K, V)) -> bool {
    |e: (K, V)| e.0 == k
}

/// The value of key `k`, by its first entry.
pub open spec fn map_get<K, V>(m: Seq<(K, V)>, k: K) -> Option<V> {
    let p = first_where(m, key_entry::<K, V>(k));
    if p >= 0 {
        Some(m[p].1)
    } else {
        None
    }
}

/// The value of key `k` after the present `entries` were inserted into
/// `m` in order, each replacing the value of its key.
pub open spec fn get_after<K, V>(m: Seq<(K, V)>, entries: Seq<Option<(K, V)>>, k: K) -> Option<V>
    decreases entries.len(),
{
    if entries.len() == 0 {
        map_get(m, k)
    } else {
        match entries.last() {
            Some(e) => if e.0 == k {
                Some(e.1)
            } else {
                get_after(m, entries.drop_last(), k)
            },
            None => get_after(m, entries.drop_last(), k),
        }
    }
}

proof fn lemma_map_update<K, V>(m: Seq<(K, V)>, i: int, key: K, value: V)
    requires
        0 <= i < m.len(),
        first_where(m, key_entry::<K, V>(key)) == i,
    ensures
        forall|k: K|
            #[trigger] map_get(m.update(i, (key, value)), k) == if k == key {
                Some(value)
            } else {
                map_get(m, k)
            },
{
    let n = m.update(i, (key, value));
    crate::externs::lemma_first_where_props(m, key_entry::<K, V>(key));
    assert forall|k: K| #[trigger] map_get(n, k) == if k == key { Some(value) } else { map_get(m, k) } by {
        let p = key_entry::<K, V>(k);
        let q = first_where(m, p);
        crate::externs::lemma_first_where_props(m, p);
        if k == key {
            assert(crate::externs::is_first_where(n, p, i));
            lemma_first_where(n, p, i);
        } else if q >= 0 {
            assert(q != i);
            assert(crate::externs::is_first_where(n, p, q));
            lemma_first_where(n, p, q);
        } else {
            assert forall|j: int| 0 <= j < n.len() implies !p(#[trigger] n[j]) by {
                if j != i {
                    assert(n[j] == m[j]);
                }
            }
            lemma_first_where_none(n, p);
        }
    }
}

proof fn lemma_map_push<K, V>(m: Seq<(K, V)>, key: K, value: V)
    requires
        first_where(m, key_entry::<K, V>(key)) == -1,
    ensures
        forall|k: K|
            #[trigger] map_get(m.push((key, value)), k) == if k == key {
                Some(value)
            } else {
                map_get(m, k)
            },
{
    let n = m.push((key, value));
    crate::externs::lemma_first_where_props(m, key_entry::<K, V>(key));
    assert forall|k: K| #[trigger] map_get(n, k) == if k == key { Some(value) } else { map_get(m, k) } by {
        let p = key_entry::<K, V>(k);
        let q = first_where(m, p);
        crate::externs::lemma_first_where_props(m, p);
        if k == key {
            assert(crate::externs::is_first_where(n, p, m.len() as int));
            lemma_first_where(n, p, m.len() as int);
        } else if q >= 0 {
            assert(crate::externs::is_first_where(n, p, q));
            lemma_first_where(n, p, q);
        } else {
            assert forall|j: int| 0 <= j < n.len() implies !p(#[trigger] n[j]) by {
                if j < m.len() {
                    assert(n[j] == m[j]);
                }
            }
            lemma_first_where_none(n, p);
        }
    }
}

/// The register `sym` is held in, by its first entry.
pub(crate) fn lookup_symbol(map: &Vec<(SymbolId, crate::ids::IrId)>, sym: SymbolId) -> (r: Option<crate::ids::IrId>)
    ensures
        r == map_get(map@, sym),
{
    let ghost p = key_entry::<SymbolId, crate::ids::IrId>(sym);
    let mut i: usize = 0;
    while i < map.len()
        invariant
            i <= map@.len(),
            p == key_entry::<SymbolId, crate::ids::IrId>(sym),
            forall|j: int| 0 <= j < i ==> !p(#[trigger] map@[j]),
        decreases map@.len() - i,
    {
        if map[i].0 == sym {
            proof {
                assert(crate::externs::is_first_where(map@, p, i as int));
                lemma_first_where(map@, p, i as int);
            }
            return Some(map[i].1);
        }
        i = i + 1;
    }
    proof { lemma_first_where_none(map@, p); }
    None
}

/// Sets the function of `key` in `map`, in place of its first entry, or as
/// a new entry.
pub(crate) fn insert_function(map: &mut Vec<(SymbolId, crate::ids::IrFunctionId)>, key: SymbolId, value: crate::ids::IrFunctionId)
    ensures
        forall|k: SymbolId|
            #[trigger] map_get(final(map)@, k) == if k == key {
                Some(value)
            } else {
                map_get(old(map)@, k)
            },
{
    insert_by_symbol(map, key, value);
}

/// Sets the function of type `key` in `map`, in place of its first entry,
/// or as a new entry.
pub(crate) fn insert_by_type(map: &mut Vec<(TypeId, crate::ids::IrFunctionId)>, key: TypeId, value: crate::ids::IrFunctionId)
    ensures
        forall|k: TypeId|
            #[trigger] map_get(final(map)@, k) == if k == key {
                Some(value)
            } else {
                map_get(old(map)@, k)
            },
{
    let ghost p = key_entry::<TypeId, crate::ids::IrFunctionId>(key);
    let mut i: usize = 0;
    while i < map.len()
        invariant
            i <= map@.len(),
            *map == *old(map),
            p == key_entry::<TypeId, crate::ids::IrFunctionId>(key),
            forall|j: int| 0 <= j < i ==> !p(#[trigger] map@[j]),
        decreases map@.len() - i,
    {
        if map[i].0 == key {
            proof {
                assert(crate::externs::is_first_where(map@, p, i as int));
                lemma_first_where(map@, p, i as int);
                lemma_map_update(map@, i as int, key, value);
            }
            map[i] = (key, value);
            return;
        }
        i = i + 1;
    }
    proof {
        lemma_first_where_none(map@, p);
        lemma_map_push(map@, key, value);
    }
    map.push((key, value));
}

/// Sets the value of `key` in `map`, in place of its first entry, or as a
/// new entry.
pub(crate) fn insert_by_symbol<V>(map: &mut Vec<(SymbolId, V)>, key: SymbolId, value: V)
    ensures
        forall|k: SymbolId|
            #[trigger] map_get(final(map)@, k) == if k == key {
                Some(value)
            } else {
                map_get(old(map)@, k)
            },
{
    let ghost p = key_entry::<SymbolId, V>(key);
    let mut i: usize = 0;
    while i < map.len()
        invariant
            i <= map@.len(),
            *map == *old(map),
            p == key_entry::<SymbolId, V>(key),
            forall|j: int| 0 <= j < i ==> !p(#[trigger] map@[j]),
        decreases map@.len() - i,
    {
        if map[i].0 == key {
            proof {
                assert(crate::externs::is_first_where(map@, p, i as int));
                lemma_first_where(map@, p, i as int);
                lemma_map_update(map@, i as int, key, value);
            }
            map[i] = (key, value);
            return;
        }
        i = i + 1;
    }
    proof {
        lemma_first_where_none(map@, p);
        lemma_map_push(map@, key, value);
    }
    map.push((key, value));
}

/// Sets the value of `key` in `map`, in place of its first entry, or as a
/// new entry.
fn insert_by_name(map: &mut Vec<((TypeId, u32), u32)>, key: (TypeId, u32), value: u32)
    ensures
        forall|k: (TypeId, u32)|
            #[trigger] map_get(final(map)@, k) == if k == key {
                Some(value)
            } else {
                map_get(old(map)@, k)
            },
{
    let ghost p = key_entry::<(TypeId, u32), u32>(key);
    let mut i: usize = 0;
    while i < map.len()
        invariant
            i <= map@.len(),
            *map == *old(map),
            p == key_entry::<(TypeId, u32), u32>(key),
            forall|j: int| 0 <= j < i ==> !p(#[trigger] map@[j]),
        decreases map@.len() - i,
    {
        if map[i].0.0 == key.0 && map[i].0.1 == key.1 {
            proof {
                assert(map@[i as int].0 == key);
                assert(crate::externs::is_first_where(map@, p, i as int));
                lemma_first_where(map@, p, i as int);
                lemma_map_update(map@, i as int, key, value);
            }
            map[i] = (key, value);
            return;
        }
        i = i + 1;
    }
    proof {
        lemma_first_where_none(map@, p);
        lemma_map_push(map@, key, value);
    }
    map.push((key, value));
}

// ---------------------------------------------------------------------------
// Aliases of anonymous structures
// ---------------------------------------------------------------------------

/// A field symbol named `name` (by interned id).
pub open spec fn name_entry(name: u32) -> spec_fn((SymbolId, u32)) -> bool {
    |e: (SymbolId, u32)| e.1 == name
}

/// The first of the field symbols `symbols` (symbol, interned name) named
/// `name`.
pub open spec fn field_symbol_named(symbols: Seq<(SymbolId, u32)>, name: u32) -> Option<SymbolId> {
    let p = first_where(symbols, name_entry(name));
    if p >= 0 {
        Some(symbols[p].0)
    } else {
        None
    }
}

/// The fields of the anonymous structure that type `aliased` is, if it is
/// one.
pub open spec fn aliased_fields(types: Seq<(TypeId, TypeKind)>, aliased: TypeId) -> Option<Seq<AnonymousField>> {
    let p = first_where(types, type_entry(aliased));
    if p >= 0 {
        match types[p].1 {
            TypeKind::Anonymous { fields } => Some(fields@),
            _ => None,
        }
    } else {
        None
    }
}

/// The name of the `idx`-th field: its text, or `field_` and its index.
pub open spec fn field_label(f: AnonymousField, idx: int) -> Seq<char> {
    match f.name.text {
        Some(t) => t@,
        None => "field_"@ + decimal(idx as nat),
    }
}

/// The layout of an aliased anonymous structure: each field with its name,
/// converted type and an offset of 8 bytes per field before it.
pub open spec fn is_anonymous_struct_def(d: IrTypeDefinition, types: Seq<(TypeId, TypeKind)>, fields: Seq<AnonymousField>) -> bool {
    match d {
        IrTypeDefinition::Struct { fields: fs, packed } => {
            &&& !packed
            &&& fs@.len() == fields.len()
            &&& forall|k: int|
                0 <= k < fs@.len() ==> {
                    &&& (#[trigger] fs@[k]).name@ == field_label(fields[k], k)
                    &&& fs@[k].ty@ == conversion(types, fields[k].type_id)
                    &&& fs@[k].offset == Some((k * 8) as u32)
                }
        },
        _ => false,
    }
}

/// The entries an alias of an anonymous structure puts in the map from
/// (alias, field name) to field index.
pub open spec fn name_entries(type_id: TypeId, fields: Seq<AnonymousField>) -> Seq<Option<((TypeId, u32), u32)>> {
    Seq::new(fields.len(), |i: int| Some(((type_id, fields[i].name.raw), i as u32)))
}

/// The entries an alias of an anonymous structure puts in the map from
/// field symbol to (type, index): one for each field a field symbol is
/// named like.
pub open spec fn symbol_entries(symbols: Seq<(SymbolId, u32)>, type_id: TypeId, fields: Seq<AnonymousField>) -> Seq<Option<(SymbolId, (TypeId, u32))>> {
    Seq::new(
        fields.len(),
        |i: int|
            match field_symbol_named(symbols, fields[i].name.raw) {
                Some(s) => Some((s, (type_id, i as u32))),
                None => None,
            },
    )
}

/// The first of `symbols` named `name`.
fn find_field_symbol(symbols: &Vec<(SymbolId, u32)>, name: u32) -> (r: Option<SymbolId>)
    ensures
        r == field_symbol_named(symbols@, name),
{
    let ghost p = name_entry(name);
    let mut i: usize = 0;
    while i < symbols.len()
        invariant
            i <= symbols@.len(),
            p == name_entry(name),
            forall|j: int| 0 <= j < i ==> !p(#[trigger] symbols@[j]),
        decreases symbols@.len() - i,
    {
        if symbols[i].1 == name {
            proof {
                assert(crate::externs::is_first_where(symbols@, p, i as int));
                lemma_first_where(symbols@, p, i as int);
            }
            return Some(symbols[i].0);
        }
        i = i + 1;
    }
    proof { lemma_first_where_none(symbols@, p); }
    None
}

// ---------------------------------------------------------------------------
// Classes and the fields they inherit
// ---------------------------------------------------------------------------

/// The declaration of type `id`.
pub open spec fn decl_entry(id: TypeId) -> spec_fn((TypeId, HirTypeDecl)) -> bool {
    |e: (TypeId, HirTypeDecl)| e.0 == id
}

/// A declared class with symbol `sym`.
pub open spec fn class_with_symbol(sym: SymbolId) -> spec_fn((TypeId, HirTypeDecl)) -> bool {
    |e: (TypeId, HirTypeDecl)|
        match e.1 {
            HirTypeDecl::Class(c) => c.symbol_id == sym,
            _ => false,
        }
}

/// The class a parent type `pid` stands for: the module's declaration of
/// `pid` when it is a class; else, when the type table holds `pid` as a
/// class, the first declared class with that class's symbol.
pub open spec fn parent_class(hir_types: Seq<(TypeId, HirTypeDecl)>, types: Seq<(TypeId, TypeKind)>, pid: TypeId) -> Option<HirClass> {
    let p = first_where(hir_types, decl_entry(pid));
    let direct = if p >= 0 {
        match hir_types[p].1 {
            HirTypeDecl::Class(c) => Some(c),
            _ => None,
        }
    } else {
        None
    };
    match direct {
        Some(c) => Some(c),
        None => {
            let q = first_where(types, type_entry(pid));
            if q >= 0 {
                match types[q].1 {
                    TypeKind::Class { symbol_id } => {
                        let c = first_where(hir_types, class_with_symbol(symbol_id));
                        if c >= 0 {
                            match hir_types[c].1 {
                                HirTypeDecl::Class(k) => Some(k),
                                _ => None,
                            }
                        } else {
                            None
                        }
                    },
                    _ => None,
                }
            } else {
                None
            }
        },
    }
}

/// The fields a class with parent `parent` inherits, the most distant
/// ancestor's first, where the chain of parents ends within `fuel` steps.
pub open spec fn inherited(
    hir_types: Seq<(TypeId, HirTypeDecl)>,
    types: Seq<(TypeId, TypeKind)>,
    parent: Option<TypeId>,
    fuel: nat,
) -> Option<Seq<HirClassField>>
    decreases fuel,
{
    if fuel == 0 {
        None
    } else {
        match parent {
            None => Some(Seq::empty()),
            Some(pid) => match parent_class(hir_types, types, pid) {
                None => Some(Seq::empty()),
                Some(pc) => match inherited(hir_types, types, pc.extends, (fuel - 1) as nat) {
                    Some(anc) => Some(anc + pc.fields@),
                    None => None,
                },
            },
        }
    }
}

/// The chain of parents from `parent` ends (no class is its own ancestor).
pub open spec fn inheritance_ends(hir_types: Seq<(TypeId, HirTypeDecl)>, types: Seq<(TypeId, TypeKind)>, parent: Option<TypeId>) -> bool {
    exists|fuel: nat| #[trigger] inherited(hir_types, types, parent, fuel) is Some
}

/// The fields a class with parent `parent` inherits, where the chain ends.
pub open spec fn inherited_fields(hir_types: Seq<(TypeId, HirTypeDecl)>, types: Seq<(TypeId, TypeKind)>, parent: Option<TypeId>) -> Seq<HirClassField> {
    inherited(hir_types, types, parent, choose|fuel: nat| #[trigger] inherited(hir_types, types, parent, fuel) is Some)->0
}

/// More fuel gives the same fields.
pub proof fn lemma_inherited_fuel(
    hir_types: Seq<(TypeId, HirTypeDecl)>,
    types: Seq<(TypeId, TypeKind)>,
    parent: Option<TypeId>,
    f: nat,
    g: nat,
)
    requires
        inherited(hir_types, types, parent, f) is Some,
        f <= g,
    ensures
        inherited(hir_types, types, parent, g) == inherited(hir_types, types, parent, f),
    decreases f,
{
    if let Some(pid) = parent {
        if let Some(pc) = parent_class(hir_types, types, pid) {
            lemma_inherited_fuel(hir_types, types, pc.extends, (f - 1) as nat, (g - 1) as nat);
        }
    }
}

/// Any fuel that suffices gives the inherited fields.
pub proof fn lemma_inherited_fields(hir_types: Seq<(TypeId, HirTypeDecl)>, types: Seq<(TypeId, TypeKind)>, parent: Option<TypeId>, f: nat)
    requires
        inherited(hir_types, types, parent, f) is Some,
    ensures
        inherited(hir_types, types, parent, f) == Some(inherited_fields(hir_types, types, parent)),
{
    let c = choose|fuel: nat| #[trigger] inherited(hir_types, types, parent, fuel) is Some;
    if f <= c {
        lemma_inherited_fuel(hir_types, types, parent, f, c);
    } else {
        lemma_inherited_fuel(hir_types, types, parent, c, f);
    }
}

/// The entries that laying out `fs`, from index `start` on, puts in the map
/// from field symbol to (class, index).
pub open spec fn class_entries(fs: Seq<HirClassField>, class_type: TypeId, start: int) -> Seq<Option<(SymbolId, (TypeId, u32))>> {
    Seq::new(fs.len(), |k: int| Some((fs[k].symbol_id, (class_type, (start + k) as u32))))
}

/// The entries that the properties among `fs` put in the map from field
/// symbol to accessors.
pub open spec fn property_entries(fs: Seq<HirClassField>) -> Seq<Option<(SymbolId, PropertyAccessInfo)>> {
    Seq::new(
        fs.len(),
        |k: int|
            match fs[k].property_access {
                Some(info) => Some((fs[k].symbol_id, info)),
                None => None,
            },
    )
}

/// `fields` lays out `fs`: each with its name and converted type, without
/// offsets.
pub open spec fn lays_out(fields: Seq<IrField>, types: Seq<(TypeId, TypeKind)>, fs: Seq<HirClassField>) -> bool {
    &&& fields.len() == fs.len()
    &&& forall|k: int|
        0 <= k < fs.len() ==> {
            &&& (#[trigger] fields[k]).name@ == fs[k].name@
            &&& fields[k].ty@ == conversion(types, fs[k].ty)
            &&& fields[k].offset is None
        }
}

/// Every field of `fs` has a type whose conversion ends.
pub open spec fn fields_convert(types: Seq<(TypeId, TypeKind)>, fs: Seq<HirClassField>) -> bool {
    forall|k: int| 0 <= k < fs.len() ==> converts(types, #[trigger] fs[k].ty)
}

proof fn lemma_get_after_push<K, V>(m: Seq<(K, V)>, e: Seq<Option<(K, V)>>, x: Option<(K, V)>, k: K)
    ensures
        get_after(m, e.push(x), k) == match x {
            Some(p) => if p.0 == k {
                Some(p.1)
            } else {
                get_after(m, e, k)
            },
            None => get_after(m, e, k),
        },
{
    assert(e.push(x).drop_last() =~= e);
}

/// The first declaration of type `id`.
fn find_decl(hir_types: &Vec<(TypeId, HirTypeDecl)>, id: TypeId) -> (r: Option<usize>)
    ensures
        match r {
            Some(p) => p == first_where(hir_types@, decl_entry(id)),
            None => first_where(hir_types@, decl_entry(id)) == -1,
        },
{
    let ghost p = decl_entry(id);
    let mut i: usize = 0;
    while i < hir_types.len()
        invariant
            i <= hir_types@.len(),
            p == decl_entry(id),
            forall|j: int| 0 <= j < i ==> !p(#[trigger] hir_types@[j]),
        decreases hir_types@.len() - i,
    {
        if hir_types[i].0 == id {
            proof {
                assert(crate::externs::is_first_where(hir_types@, p, i as int));
                lemma_first_where(hir_types@, p, i as int);
            }
            return Some(i);
        }
        i = i + 1;
    }
    proof { lemma_first_where_none(hir_types@, p); }
    None
}

/// The first declared class with symbol `sym`.
fn find_class_with_symbol(hir_types: &Vec<(TypeId, HirTypeDecl)>, sym: SymbolId) -> (r: Option<usize>)
    ensures
        match r {
            Some(p) => p == first_where(hir_types@, class_with_symbol(sym)),
            None => first_where(hir_types@, class_with_symbol(sym)) == -1,
        },
{
    let ghost p = class_with_symbol(sym);
    let mut i: usize = 0;
    while i < hir_types.len()
        invariant
            i <= hir_types@.len(),
            p == class_with_symbol(sym),
            forall|j: int| 0 <= j < i ==> !p(#[trigger] hir_types@[j]),
        decreases hir_types@.len() - i,
    {
        let hit = match &hir_types[i].1 {
            HirTypeDecl::Class(c) => c.symbol_id == sym,
            _ => false,
        };
        if hit {
            proof {
                assert(crate::externs::is_first_where(hir_types@, p, i as int));
                lemma_first_where(hir_types@, p, i as int);
            }
            return Some(i);
        }
        i = i + 1;
    }
    proof { lemma_first_where_none(hir_types@, p); }
    None
}

/// The class parent type `pid` stands for.
fn find_parent_class<'a>(table: &TypeTable, hir_types: &'a Vec<(TypeId, HirTypeDecl)>, pid: TypeId) -> (r: Option<&'a HirClass>)
    ensures
        match r {
            Some(c) => parent_class(hir_types@, table.types@, pid) == Some(*c),
            None => parent_class(hir_types@, table.types@, pid) is None,
        },
{
    if let Some(p) = find_decl(hir_types, pid) {
        if let HirTypeDecl::Class(c) = &hir_types[p].1 {
            return Some(c);
        }
    }
    if let Some(q) = find_type(table, pid) {
        if let TypeKind::Class { symbol_id } = &table.types[q].1 {
            if let Some(c) = find_class_with_symbol(hir_types, *symbol_id) {
                if let HirTypeDecl::Class(k) = &hir_types[c].1 {
                    return Some(k);
                }
            }
        }
    }
    None
}

/// `fields`, from index `start` on, lays out `fs`: each field with its
/// name and converted type, without an offset.
pub open spec fn lays_out_from(fields: Seq<IrField>, start: int, types: Seq<(TypeId, TypeKind)>, fs: Seq<HirClassField>) -> bool {
    forall|k: int|
        0 <= k < fs.len() ==> {
            &&& fields[start + k].name@ == (#[trigger] fs[k]).name@
            &&& fields[start + k].ty@ == conversion(types, fs[k].ty)
            &&& fields[start + k].offset is None
        }
}

fn copy_accessor(a: &PropertyAccessor) -> (r: PropertyAccessor)
    ensures
        r == *a,
{
    match a {
        PropertyAccessor::Default => PropertyAccessor::Default,
        PropertyAccessor::Null => PropertyAccessor::Null,
        PropertyAccessor::Never => PropertyAccessor::Never,
        PropertyAccessor::Dynamic => PropertyAccessor::Dynamic,
        PropertyAccessor::Method(name) => PropertyAccessor::Method(name.clone()),
    }
}

fn copy_property_info(info: &PropertyAccessInfo) -> (r: PropertyAccessInfo)
    ensures
        r == *info,
{
    PropertyAccessInfo { getter: copy_accessor(&info.getter), setter: copy_accessor(&info.setter) }
}

// ---------------------------------------------------------------------------
// What registering each kind of type declaration does
// ---------------------------------------------------------------------------

/// `b` is `a` after registering enum `decl` as type `type_id`.
pub open spec fn enum_registered(a: HirToMirContext, b: HirToMirContext, type_id: TypeId, decl: HirEnum) -> bool {
    let td = b.builder.the_module().types@.last();
    &&& a.same_but_builder(b)
    &&& typedef_added(a.builder, b.builder)
    &&& td.name@ == decl.name@
    &&& td.type_id == type_id
    &&& is_enum_def(td.definition, decl)
}

/// `b` is `a` after registering interface `decl` as type `type_id`.
pub open spec fn interface_registered(a: HirToMirContext, b: HirToMirContext, type_id: TypeId, decl: HirInterface) -> bool {
    let td = b.builder.the_module().types@.last();
    &&& a.same_but_builder(b)
    &&& typedef_added(a.builder, b.builder)
    &&& td.name@ == decl.name@
    &&& td.type_id == type_id
    &&& is_interface_def(td.definition, decl)
}

/// `b` is `a` after registering abstract type `decl` as type `type_id`.
pub open spec fn abstract_registered(a: HirToMirContext, b: HirToMirContext, type_id: TypeId, decl: HirAbstract) -> bool {
    let td = b.builder.the_module().types@.last();
    &&& a.same_but_builder(b)
    &&& typedef_added(a.builder, b.builder)
    &&& td.name@ == decl.name@
    &&& td.type_id == type_id
    &&& td.definition == (IrTypeDefinition::Alias { aliased_type: IrType::Any })
}

/// A class can be laid out: its chain of parents ends, every field type's
/// conversion ends, and its fields can be counted in 32 bits.
pub open spec fn class_registrable(types: Seq<(TypeId, TypeKind)>, hir_types: Seq<(TypeId, HirTypeDecl)>, class: HirClass) -> bool {
    &&& inheritance_ends(hir_types, types, class.extends)
    &&& fields_convert(types, inherited_fields(hir_types, types, class.extends) + class.fields@)
    &&& inherited_fields(hir_types, types, class.extends).len() + class.fields@.len() <= u32::MAX
}

/// `b` is `a` after registering class `class` as type `type_id`.
pub open spec fn class_registered(
    a: HirToMirContext,
    b: HirToMirContext,
    types: Seq<(TypeId, TypeKind)>,
    hir_types: Seq<(TypeId, HirTypeDecl)>,
    type_id: TypeId,
    class: HirClass,
) -> bool {
    let all = inherited_fields(hir_types, types, class.extends) + class.fields@;
    let td = b.builder.the_module().types@.last();
    &&& typedef_added(a.builder, b.builder)
    &&& td.name@ == class.name@
    &&& td.type_id == type_id
    &&& td.definition matches IrTypeDefinition::Struct { fields, packed } && !packed && fields@.len() == all.len()
        && lays_out_from(fields@, 0, types, all)
    &&& forall|s: SymbolId|
        #[trigger] map_get(b.field_index_map@, s) == get_after(a.field_index_map@, class_entries(all, type_id, 0), s)
    &&& forall|s: SymbolId|
        #[trigger] map_get(b.property_access_map@, s) == get_after(
            a.property_access_map@,
            property_entries(class.fields@),
            s,
        )
    &&& b == (HirToMirContext {
        builder: b.builder,
        field_index_map: b.field_index_map,
        property_access_map: b.property_access_map,
        ..a
    })
}

/// An alias can be laid out: if it names an anonymous structure, every
/// field type's conversion ends and the byte offsets fit a `usize`.
pub open spec fn alias_registrable(types: Seq<(TypeId, TypeKind)>, alias: HirTypeAlias) -> bool {
    aliased_fields(types, alias.aliased_type) matches Some(fields) ==> {
        &&& fields.len() * 8 <= usize::MAX
        &&& forall|k: int| 0 <= k < fields.len() ==> converts(types, #[trigger] fields[k].type_id)
    }
}

/// `b` is `a` after registering alias `alias` as type `type_id`.
pub open spec fn alias_registered(
    a: HirToMirContext,
    b: HirToMirContext,
    types: Seq<(TypeId, TypeKind)>,
    field_symbols: Seq<(SymbolId, u32)>,
    type_id: TypeId,
    alias: HirTypeAlias,
) -> bool {
    let td = b.builder.the_module().types@.last();
    &&& typedef_added(a.builder, b.builder)
    &&& td.name@ == alias.name@
    &&& td.type_id == type_id
    &&& b == (HirToMirContext {
        builder: b.builder,
        field_index_map: b.field_index_map,
        typedef_field_map: b.typedef_field_map,
        ..a
    })
    &&& match aliased_fields(types, alias.aliased_type) {
        Some(fields) => {
            &&& is_anonymous_struct_def(td.definition, types, fields)
            &&& forall|k: (TypeId, u32)|
                #[trigger] map_get(b.typedef_field_map@, k) == get_after(a.typedef_field_map@, name_entries(type_id, fields), k)
            &&& forall|s: SymbolId|
                #[trigger] map_get(b.field_index_map@, s) == get_after(
                    a.field_index_map@,
                    symbol_entries(field_symbols, type_id, fields),
                    s,
                )
        },
        None => {
            &&& td.definition == (IrTypeDefinition::Alias { aliased_type: IrType::Any })
            &&& b.typedef_field_map == a.typedef_field_map
            &&& b.field_index_map == a.field_index_map
        },
    }
}

/// What registering declaration `decl` as type `type_id` requires.
pub open spec fn type_registrable(
    types: Seq<(TypeId, TypeKind)>,
    hir_types: Seq<(TypeId, HirTypeDecl)>,
    decl: HirTypeDecl,
) -> bool {
    match decl {
        HirTypeDecl::Class(c) => class_registrable(types, hir_types, c),
        HirTypeDecl::TypeAlias(al) => alias_registrable(types, al),
        _ => true,
    }
}

/// `b` is `a` after registering declaration `decl` as type `type_id`.
pub open spec fn type_registered(
    a: HirToMirContext,
    b: HirToMirContext,
    types: Seq<(TypeId, TypeKind)>,
    hir_types: Seq<(TypeId, HirTypeDecl)>,
    field_symbols: Seq<(SymbolId, u32)>,
    type_id: TypeId,
    decl: HirTypeDecl,
) -> bool {
    match decl {
        HirTypeDecl::Class(c) => class_registered(a, b, types, hir_types, type_id, c),
        HirTypeDecl::Interface(i) => interface_registered(a, b, type_id, i),
        HirTypeDecl::Enum(e) => enum_registered(a, b, type_id, e),
        HirTypeDecl::Abstract(ab) => abstract_registered(a, b, type_id, ab),
        HirTypeDecl::TypeAlias(al) => alias_registered(a, b, types, field_symbols, type_id, al),
    }
}

impl HirToMirContext {
    /// Everything but the builder is unchanged.
    pub open spec fn same_but_builder(&self, other: HirToMirContext) -> bool {
        other == (HirToMirContext { builder: other.builder, ..*self })
    }

    /// Adds `typedef` to the module under a fresh id.
    fn add_typedef(&mut self, name: String, type_id: TypeId, definition: IrTypeDefinition)
        requires
            old(self).builder.the_module().next_typedef_id < u32::MAX,
        ensures
            old(self).same_but_builder(*final(self)),
            typedef_added(old(self).builder, final(self).builder),
            final(self).builder.the_module().types@.last().name == name,
            final(self).builder.the_module().types@.last().type_id == type_id,
            final(self).builder.the_module().types@.last().definition == definition,
    {
        let id = self.builder.module.alloc_typedef_id();
        let typedef = IrTypeDef { id, name, type_id, definition, source_location: IrSourceLocation::unknown() };
        self.builder.module.add_type(typedef);
        proof {
            assert(self.builder.the_module().types@.drop_last() =~= old(self).builder.the_module().types@);
        }
    }

    /// Registers an enum: its variants with their discriminants.
    pub fn register_enum_metadata(&mut self, type_id: TypeId, enum_decl: &HirEnum)
        requires
            old(self).builder.the_module().next_typedef_id < u32::MAX,
        ensures
            enum_registered(*old(self), *final(self), type_id, *enum_decl),
    {
        let mut variants: Vec<IrEnumVariant> = Vec::new();
        let mut i: usize = 0;
        while i < enum_decl.variants.len()
            invariant
                i <= enum_decl.variants@.len(),
                variants@.len() == i,
                forall|k: int|
                    0 <= k < i ==> {
                        let v = #[trigger] variants@[k];
                        let dv = enum_decl.variants@[k];
                        &&& v.name@ == dv.name@
                        &&& v.discriminant == discriminant_of(dv.discriminant, k)
                        &&& untyped_fields(v.fields@, dv.fields@.map_values(|f: crate::hir::HirEnumField| f.name@))
                    },
            decreases enum_decl.variants@.len() - i,
        {
            let variant = &enum_decl.variants[i];
            let d: i32 = match variant.discriminant {
                Some(d) => d,
                None => {
                    #[verifier::truncate]
                    (i as i32)
                },
            };
            let mut fields: Vec<IrField> = Vec::new();
            let mut j: usize = 0;
            while j < variant.fields.len()
                invariant
                    j <= variant.fields@.len(),
                    untyped_fields(fields@, variant.fields@.take(j as int).map_values(|f: crate::hir::HirEnumField| f.name@)),
                decreases variant.fields@.len() - j,
            {
                fields.push(IrField { name: variant.fields[j].name.clone(), ty: IrType::Any, offset: None });
                proof {
                    assert(variant.fields@.take(j + 1).map_values(|f: crate::hir::HirEnumField| f.name@) =~= variant.fields@.take(
                        j as int,
                    ).map_values(|f: crate::hir::HirEnumField| f.name@).push(variant.fields@[j as int].name@));
                }
                j = j + 1;
            }
            proof {
                assert(variant.fields@.take(j as int) =~= variant.fields@);
            }
            variants.push(IrEnumVariant { name: variant.name.clone(), discriminant: d as i64, fields });
            i = i + 1;
        }
        let definition = IrTypeDefinition::Enum { variants, discriminant_type: IrType::I32 };
        self.add_typedef(enum_decl.name.clone(), type_id, definition);
    }

    /// Registers an interface: a slot for each method.
    pub fn register_interface_metadata(&mut self, type_id: TypeId, interface: &HirInterface)
        requires
            old(self).builder.the_module().next_typedef_id < u32::MAX,
        ensures
            interface_registered(*old(self), *final(self), type_id, *interface),
    {
        let mut fields: Vec<IrField> = Vec::new();
        let mut k: usize = 0;
        while k < interface.methods.len()
            invariant
                k <= interface.methods@.len(),
                fields@.len() == k,
                forall|q: int|
                    0 <= q < k ==> {
                        &&& (#[trigger] fields@[q]).name@ == interface.methods@[q].name@
                        &&& method_slot_type(fields@[q].ty)
                        &&& fields@[q].offset is None
                    },
            decreases interface.methods@.len() - k,
        {
            fields.push(IrField { name: interface.methods[k].name.clone(), ty: method_slot(), offset: None });
            k = k + 1;
        }
        self.add_typedef(interface.name.clone(), type_id, IrTypeDefinition::Struct { fields, packed: false });
    }

    /// Registers an abstract type: an alias of `Any`.
    pub fn register_abstract_metadata(&mut self, type_id: TypeId, abstract_decl: &HirAbstract)
        requires
            old(self).builder.the_module().next_typedef_id < u32::MAX,
        ensures
            abstract_registered(*old(self), *final(self), type_id, *abstract_decl),
    {
        self.add_typedef(abstract_decl.name.clone(), type_id, IrTypeDefinition::Alias { aliased_type: IrType::Any });
    }

    /// Lays out, after `fields`, the fields inherited through parent
    /// `parent`, most distant ancestor first, each recorded under the child
    /// class `child_type` with the next index of `field_index`.
    fn collect_inherited_fields(
        &mut self,
        table: &TypeTable,
        hir_types: &Vec<(TypeId, HirTypeDecl)>,
        parent: Option<TypeId>,
        child_type: TypeId,
        fields: &mut Vec<IrField>,
        field_index: &mut u32,
        Ghost(fuel): Ghost<nat>,
    )
        requires
            inherited(hir_types@, table.types@, parent, fuel) is Some,
            fields_convert(table.types@, inherited(hir_types@, table.types@, parent, fuel)->0),
            *old(field_index) + inherited(hir_types@, table.types@, parent, fuel)->0.len() <= u32::MAX,
        ensures
            ({
                let anc = inherited(hir_types@, table.types@, parent, fuel)->0;
                let l0 = old(fields)@.len() as int;
                &&& final(fields)@.len() == l0 + anc.len()
                &&& final(fields)@.take(l0) == old(fields)@
                &&& lays_out_from(final(fields)@, l0, table.types@, anc)
                &&& *final(field_index) == *old(field_index) + anc.len()
                &&& forall|s: SymbolId|
                    #[trigger] map_get(final(self).field_index_map@, s) == get_after(
                        old(self).field_index_map@,
                        class_entries(anc, child_type, *old(field_index) as int),
                        s,
                    )
                &&& *final(self) == (HirToMirContext { field_index_map: final(self).field_index_map, ..*old(self) })
            }),
        decreases fuel, 0nat,
    {
        proof {
            assert(old(fields)@.take(old(fields)@.len() as int) =~= old(fields)@);
        }
        if let Some(pid) = parent {
            if let Some(pc) = find_parent_class(table, hir_types, pid) {
                self.add_parent_fields(table, hir_types, pc, child_type, fields, field_index, Ghost((fuel - 1) as nat));
                return;
            }
        }
        proof {
            assert forall|s: SymbolId|
                #[trigger] map_get(self.field_index_map@, s) == get_after(
                    old(self).field_index_map@,
                    class_entries(Seq::empty(), child_type, *old(field_index) as int),
                    s,
                ) by {
                assert(class_entries(Seq::<HirClassField>::empty(), child_type, *old(field_index) as int).len() == 0);
            }
        }
    }

    /// Lays out, after `fields`, the fields `parent_class` has and inherits,
    /// each recorded under the child class `child_type`.
    fn add_parent_fields(
        &mut self,
        table: &TypeTable,
        hir_types: &Vec<(TypeId, HirTypeDecl)>,
        parent_class: &HirClass,
        child_type: TypeId,
        fields: &mut Vec<IrField>,
        field_index: &mut u32,
        Ghost(fuel): Ghost<nat>,
    )
        requires
            inherited(hir_types@, table.types@, parent_class.extends, fuel) is Some,
            fields_convert(
                table.types@,
                inherited(hir_types@, table.types@, parent_class.extends, fuel)->0 + parent_class.fields@,
            ),
            *old(field_index) + inherited(hir_types@, table.types@, parent_class.extends, fuel)->0.len()
                + parent_class.fields@.len() <= u32::MAX,
        ensures
            ({
                let all = inherited(hir_types@, table.types@, parent_class.extends, fuel)->0 + parent_class.fields@;
                let l0 = old(fields)@.len() as int;
                &&& final(fields)@.len() == l0 + all.len()
                &&& final(fields)@.take(l0) == old(fields)@
                &&& lays_out_from(final(fields)@, l0, table.types@, all)
                &&& *final(field_index) == *old(field_index) + all.len()
                &&& forall|s: SymbolId|
                    #[trigger] map_get(final(self).field_index_map@, s) == get_after(
                        old(self).field_index_map@,
                        class_entries(all, child_type, *old(field_index) as int),
                        s,
                    )
                &&& *final(self) == (HirToMirContext { field_index_map: final(self).field_index_map, ..*old(self) })
            }),
        decreases fuel, 1nat,
    {
        let ghost anc = inherited(hir_types@, table.types@, parent_class.extends, fuel)->0;
        let ghost l0 = fields@.len() as int;
        let ghost i0 = *field_index as int;
        let ghost f0 = fields@;
        let ghost m0 = self.field_index_map@;
        proof {
            assert forall|k: int| 0 <= k < anc.len() implies converts(table.types@, #[trigger] anc[k].ty) by {
                assert((anc + parent_class.fields@)[k] == anc[k]);
            }
        }
        self.collect_inherited_fields(table, hir_types, parent_class.extends, child_type, fields, field_index, Ghost(fuel));
        let mut j: usize = 0;
        while j < parent_class.fields.len()
            invariant
                anc == inherited(hir_types@, table.types@, parent_class.extends, fuel)->0,
                fields_convert(table.types@, anc + parent_class.fields@),
                i0 + anc.len() + parent_class.fields@.len() <= u32::MAX,
                l0 >= 0,
                i0 >= 0,
                j <= parent_class.fields@.len(),
                fields@.len() == l0 + anc.len() + j,
                fields@.take(l0) == f0,
                lays_out_from(fields@, l0, table.types@, anc + parent_class.fields@.take(j as int)),
                *field_index == i0 + anc.len() + j,
                forall|s: SymbolId|
                    #[trigger] map_get(self.field_index_map@, s) == get_after(
                        m0,
                        class_entries(anc + parent_class.fields@.take(j as int), child_type, i0),
                        s,
                    ),
                *self == (HirToMirContext { field_index_map: self.field_index_map, ..*old(self) }),
            decreases parent_class.fields@.len() - j,
        {
            let parent_field = &parent_class.fields[j];
            let ghost before = self.field_index_map@;
            let ghost fb = fields@;
            insert_by_symbol(&mut self.field_index_map, parent_field.symbol_id, (child_type, *field_index));
            proof {
                assert((anc + parent_class.fields@)[anc.len() + j] == parent_class.fields@[j as int]);
            }
            let ty = convert_type(table, parent_field.ty);
            fields.push(IrField { name: parent_field.name.clone(), ty, offset: None });
            *field_index = *field_index + 1;
            proof {
                let e0 = class_entries(anc + parent_class.fields@.take(j as int), child_type, i0);
                let e1 = class_entries(anc + parent_class.fields@.take(j + 1), child_type, i0);
                assert(anc + parent_class.fields@.take(j + 1) =~= (anc + parent_class.fields@.take(j as int)).push(
                    parent_class.fields@[j as int],
                ));
                assert(e1 =~= e0.push(Some((parent_field.symbol_id, (child_type, (i0 + anc.len() + j) as u32)))));
                assert forall|s: SymbolId| #[trigger] map_get(self.field_index_map@, s) == get_after(m0, e1, s) by {
                    lemma_get_after_push(
                        m0,
                        e0,
                        Some((parent_field.symbol_id, (child_type, (i0 + anc.len() + j) as u32))),
                        s,
                    );
                }
                assert(fields@.take(l0) =~= fb.take(l0));
                let fs1 = anc + parent_class.fields@.take(j + 1);
                assert forall|k: int| 0 <= k < fs1.len() implies {
                    &&& fields@[l0 + k].name@ == (#[trigger] fs1[k]).name@
                    &&& fields@[l0 + k].ty@ == conversion(table.types@, fs1[k].ty)
                    &&& fields@[l0 + k].offset is None
                } by {
                    if k < fs1.len() - 1 {
                        assert(fs1[k] == (anc + parent_class.fields@.take(j as int))[k]);
                        assert(fields@[l0 + k] == fb[l0 + k]);
                    }
                }
            }
            j = j + 1;
        }
        proof {
            assert(parent_class.fields@.take(parent_class.fields@.len() as int) =~= parent_class.fields@);
        }
    }

    /// Registers a class: its inherited fields, then its own, as an
    /// unpacked struct; records each field's class and index, and the
    /// accessors of its own properties.
    pub fn register_class_metadata(
        &mut self,
        table: &TypeTable,
        hir_types: &Vec<(TypeId, HirTypeDecl)>,
        type_id: TypeId,
        class: &HirClass,
    )
        requires
            old(self).builder.the_module().next_typedef_id < u32::MAX,
            class_registrable(table.types@, hir_types@, *class),
        ensures
            class_registered(*old(self), *final(self), table.types@, hir_types@, type_id, *class),
    {
        let ghost fuel = choose|fuel: nat| #[trigger] inherited(hir_types@, table.types@, class.extends, fuel) is Some;
        proof {
            lemma_inherited_fields(hir_types@, table.types@, class.extends, fuel);
        }
        let ghost anc = inherited_fields(hir_types@, table.types@, class.extends);
        let ghost m0 = self.field_index_map@;
        let ghost p0 = self.property_access_map@;
        let mut fields: Vec<IrField> = Vec::new();
        let mut field_index: u32 = 0;
        proof {
            assert forall|k: int| 0 <= k < anc.len() implies converts(table.types@, #[trigger] anc[k].ty) by {
                assert((anc + class.fields@)[k] == anc[k]);
            }
        }
        self.collect_inherited_fields(table, hir_types, class.extends, type_id, &mut fields, &mut field_index, Ghost(fuel));
        let mut j: usize = 0;
        while j < class.fields.len()
            invariant
                anc == inherited_fields(hir_types@, table.types@, class.extends),
                fields_convert(table.types@, anc + class.fields@),
                anc.len() + class.fields@.len() <= u32::MAX,
                j <= class.fields@.len(),
                fields@.len() == anc.len() + j,
                lays_out_from(fields@, 0, table.types@, anc + class.fields@.take(j as int)),
                field_index == anc.len() + j,
                forall|s: SymbolId|
                    #[trigger] map_get(self.field_index_map@, s) == get_after(
                        m0,
                        class_entries(anc + class.fields@.take(j as int), type_id, 0),
                        s,
                    ),
                forall|s: SymbolId|
                    #[trigger] map_get(self.property_access_map@, s) == get_after(
                        p0,
                        property_entries(class.fields@.take(j as int)),
                        s,
                    ),
                *self == (HirToMirContext {
                    field_index_map: self.field_index_map,
                    property_access_map: self.property_access_map,
                    ..*old(self)
                }),
            decreases class.fields@.len() - j,
        {
            let field = &class.fields[j];
            let ghost fb = fields@;
            insert_by_symbol(&mut self.field_index_map, field.symbol_id, (type_id, field_index));
            let ghost pb = self.property_access_map@;
            match &field.property_access {
                Some(info) => {
                    let copied = copy_property_info(info);
                    insert_by_symbol(&mut self.property_access_map, field.symbol_id, copied);
                },
                None => {},
            }
            proof {
                assert((anc + class.fields@)[anc.len() + j] == class.fields@[j as int]);
            }
            let ty = convert_type(table, field.ty);
            fields.push(IrField { name: field.name.clone(), ty, offset: None });
            field_index = field_index + 1;
            proof {
                let e0 = class_entries(anc + class.fields@.take(j as int), type_id, 0);
                let e1 = class_entries(anc + class.fields@.take(j + 1), type_id, 0);
                assert(anc + class.fields@.take(j + 1) =~= (anc + class.fields@.take(j as int)).push(class.fields@[j as int]));
                assert(e1 =~= e0.push(Some((field.symbol_id, (type_id, (anc.len() + j) as u32)))));
                assert forall|s: SymbolId| #[trigger] map_get(self.field_index_map@, s) == get_after(m0, e1, s) by {
                    lemma_get_after_push(m0, e0, Some((field.symbol_id, (type_id, (anc.len() + j) as u32))), s);
                }
                let q0 = property_entries(class.fields@.take(j as int));
                let q1 = property_entries(class.fields@.take(j + 1));
                let x = q1[j as int];
                assert(q1 =~= q0.push(x));
                assert forall|s: SymbolId| #[trigger] map_get(self.property_access_map@, s) == get_after(p0, q1, s) by {
                    lemma_get_after_push(p0, q0, x, s);
                }
                let fs1 = anc + class.fields@.take(j + 1);
                assert forall|k: int| 0 <= k < fs1.len() implies {
                    &&& fields@[0 + k].name@ == (#[trigger] fs1[k]).name@
                    &&& fields@[0 + k].ty@ == conversion(table.types@, fs1[k].ty)
                    &&& fields@[0 + k].offset is None
                } by {
                    if k < fs1.len() - 1 {
                        assert(fs1[k] == (anc + class.fields@.take(j as int))[k]);
                        assert(fields@[k] == fb[k]);
                    }
                }
            }
            j = j + 1;
        }
        proof {
            assert(class.fields@.take(class.fields@.len() as int) =~= class.fields@);
        }
        self.add_typedef(class.name.clone(), type_id, IrTypeDefinition::Struct { fields, packed: false });
    }

    /// Registers the runtime type information of a declared type.
    pub fn register_type_metadata(
        &mut self,
        table: &TypeTable,
        hir_types: &Vec<(TypeId, HirTypeDecl)>,
        field_symbols: &Vec<(SymbolId, u32)>,
        type_id: TypeId,
        type_decl: &HirTypeDecl,
    )
        requires
            old(self).builder.the_module().next_typedef_id < u32::MAX,
            type_registrable(table.types@, hir_types@, *type_decl),
        ensures
            type_registered(*old(self), *final(self), table.types@, hir_types@, field_symbols@, type_id, *type_decl),
    {
        match type_decl {
            HirTypeDecl::Class(class) => self.register_class_metadata(table, hir_types, type_id, class),
            HirTypeDecl::Interface(interface) => self.register_interface_metadata(type_id, interface),
            HirTypeDecl::Enum(enum_decl) => self.register_enum_metadata(type_id, enum_decl),
            HirTypeDecl::Abstract(abstract_decl) => self.register_abstract_metadata(type_id, abstract_decl),
            HirTypeDecl::TypeAlias(alias) => self.register_alias_metadata(table, field_symbols, type_id, alias),
        }
    }

    /// Registers a type alias. An alias of an anonymous structure records,
    /// for each field, its index under (alias, field name) and under the
    /// first field symbol so named (`field_symbols`: the field symbols of
    /// the symbol table with their interned names), and is laid out as a
    /// struct of 8-byte fields; any other alias stands for `Any`.
    pub fn register_alias_metadata(
        &mut self,
        table: &TypeTable,
        field_symbols: &Vec<(SymbolId, u32)>,
        type_id: TypeId,
        alias: &HirTypeAlias,
    )
        requires
            old(self).builder.the_module().next_typedef_id < u32::MAX,
            alias_registrable(table.types@, *alias),
        ensures
            alias_registered(*old(self), *final(self), table.types@, field_symbols@, type_id, *alias),
    {
        if let Some(p) = find_type(table, alias.aliased_type) {
            if let TypeKind::Anonymous { fields } = &table.types[p].1 {
                let ghost fs = fields@;
                let ghost names = name_entries(type_id, fs);
                let ghost syms = symbol_entries(field_symbols@, type_id, fs);
                let mut index: usize = 0;
                while index < fields.len()
                    invariant
                        fs == fields@,
                        names == name_entries(type_id, fs),
                        syms == symbol_entries(field_symbols@, type_id, fs),
                        index <= fs.len(),
                        self.builder == old(self).builder,
                        *self == (HirToMirContext {
                            field_index_map: self.field_index_map,
                            typedef_field_map: self.typedef_field_map,
                            ..*old(self)
                        }),
                        forall|k: (TypeId, u32)|
                            #[trigger] map_get(self.typedef_field_map@, k) == get_after(
                                old(self).typedef_field_map@,
                                names.take(index as int),
                                k,
                            ),
                        forall|s: SymbolId|
                            #[trigger] map_get(self.field_index_map@, s) == get_after(
                                old(self).field_index_map@,
                                syms.take(index as int),
                                s,
                            ),
                    decreases fs.len() - index,
                {
                    let raw = fields[index].name.raw;
                    #[verifier::truncate]
                    let idx32: u32 = index as u32;
                    let ghost t0 = self.typedef_field_map@;
                    let ghost f0 = self.field_index_map@;
                    insert_by_name(&mut self.typedef_field_map, (type_id, raw), idx32);
                    let found = find_field_symbol(field_symbols, raw);
                    match found {
                        Some(sym) => {
                            insert_by_symbol(&mut self.field_index_map, sym, (type_id, idx32));
                        },
                        None => {},
                    }
                    proof {
                        assert(names.take(index + 1).drop_last() =~= names.take(index as int));
                        assert(syms.take(index + 1).drop_last() =~= syms.take(index as int));
                        assert(names.take(index + 1).last() == names[index as int]);
                        assert(syms.take(index + 1).last() == syms[index as int]);
                    }
                    index = index + 1;
                }
                proof {
                    assert(names.take(fs.len() as int) =~= names);
                    assert(syms.take(fs.len() as int) =~= syms);
                }
                let mut ir_fields: Vec<IrField> = Vec::new();
                let mut idx: usize = 0;
                while idx < fields.len()
                    invariant
                        fs == fields@,
                        fs.len() * 8 <= usize::MAX,
                        forall|k: int| 0 <= k < fs.len() ==> converts(table.types@, #[trigger] fs[k].type_id),
                        idx <= fs.len(),
                        ir_fields@.len() == idx,
                        forall|k: int|
                            0 <= k < idx ==> {
                                &&& (#[trigger] ir_fields@[k]).name@ == field_label(fs[k], k)
                                &&& ir_fields@[k].ty@ == conversion(table.types@, fs[k].type_id)
                                &&& ir_fields@[k].offset == Some((k * 8) as u32)
                            },
                    decreases fs.len() - idx,
                {
                    let f = &fields[idx];
                    let name = match &f.name.text {
                        Some(t) => t.clone(),
                        None => {
                            let mut s = "field_".to_owned();
                            push_decimal(&mut s, idx);
                            s
                        },
                    };
                    let ty = convert_type(table, f.type_id);
                    #[verifier::truncate]
                    let offset: u32 = (idx * 8) as u32;
                    ir_fields.push(IrField { name, ty, offset: Some(offset) });
                    idx = idx + 1;
                }
                self.add_typedef(alias.name.clone(), type_id, IrTypeDefinition::Struct { fields: ir_fields, packed: false });
                return;
            }
        }
        self.add_typedef(alias.name.clone(), type_id, IrTypeDefinition::Alias { aliased_type: IrType::Any });
    }
}

} // verus!
