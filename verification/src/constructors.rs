//! Registering class constructors before any body is lowered, so that
//! `new` expressions find them by class symbol, by type or by name.

use vstd::prelude::*;
use crate::externs::{first_where, is_first_where, lemma_first_where, lemma_first_where_none, lemma_first_where_props};
use crate::functions::{param_with_reg, IrFunctionSignature, IrParameter};
use crate::hir::{ClassSymbolNames, HirConstructor, HirConstructorParam, HirTypeParam, TypeId, TypeKind, TypeTable};
use crate::ids::{IrFunctionId, IrId, SymbolId};
use crate::lowering::{
    conversion, converts, convert_type, push_type_param_names, type_param_names, void_ptr, void_ptr_type, HirToMirContext,
};
use crate::module::IrModule;
use crate::text::{decimal, push_decimal};
use crate::type_metadata::{insert_by_type, insert_function, map_get};
use crate::types::{CallingConvention, IrType};

verus! {

/// The name of a constructor parameter: its text, or `param_` and its
/// symbol's number.
pub open spec fn ctor_param_name(p: HirConstructorParam) -> Seq<char> {
    match p.name {
        Some(n) => n@,
        None => "param_"@ + decimal(p.symbol_id.0 as nat),
    }
}

/// Every parameter type of `ctor` converts.
pub open spec fn ctor_converts(types: Seq<(TypeId, TypeKind)>, ctor: HirConstructor) -> bool {
    forall|i: int| 0 <= i < ctor.params@.len() ==> converts(types, (#[trigger] ctor.params@[i]).ty)
}

/// `f` is the constructor that registering `ctor` of class `class_symbol`
/// (with type parameters `class_tps`) creates with id `id`: a function
/// `new` taking the instance as `this`, then the constructor's parameters,
/// each in the register of its position, and returning nothing.
pub open spec fn is_registered_constructor(
    f: crate::functions::IrFunction,
    id: IrFunctionId,
    class_symbol: SymbolId,
    types: Seq<(TypeId, TypeKind)>,
    ctor: HirConstructor,
    class_tps: Seq<HirTypeParam>,
) -> bool {
    let sig = f.signature;
    &&& f.id == id
    &&& f.symbol_id == class_symbol
    &&& f.name@ == "new"@
    &&& sig.type_params@.map_values(|t: String| t@) == type_param_names(class_tps)
    &&& sig.parameters@.len() == ctor.params@.len() + 1
    &&& sig.parameters@[0].name@ == "this"@
    &&& sig.parameters@[0].ty@ == void_ptr()
    &&& sig.parameters@[0].reg == IrId(0)
    &&& !sig.parameters@[0].by_ref
    &&& forall|i: int| 0 <= i < ctor.params@.len() ==> {
        let p = #[trigger] sig.parameters@[i + 1];
        &&& p.name@ == ctor_param_name(ctor.params@[i])
        &&& p.ty@ == conversion(types, ctor.params@[i].ty)
        &&& p.reg == IrId((i + 1) as u32)
        &&& !p.by_ref
    }
    &&& sig.return_type == IrType::Void
    &&& sig.calling_convention == CallingConvention::Haxe
    &&& !sig.can_throw
    &&& f.cfg.blocks@.len() == 1
}

/// The name a constructor is found by: the class's qualified name, else
/// its simple name.
pub open spec fn ctor_lookup_name(names: Option<ClassSymbolNames>) -> Option<Seq<char>> {
    match names {
        Some(n) => match n.qualified {
            Some(q) => Some(q@),
            None => match n.name {
                Some(s) => Some(s@),
                None => None,
            },
        },
        None => None,
    }
}

/// An entry for text `k`.
pub open spec fn text_entry<V>(k: Seq<char>) -> spec_fn((String, V)) -> bool {
    |e: (String, V)| e.0@ == k
}

/// The value of text `k`, by its first entry.
pub open spec fn text_get<V>(m: Seq<(String, V)>, k: Seq<char>) -> Option<V> {
    let p = first_where(m, text_entry::<V>(k));
    if p >= 0 {
        Some(m[p].1)
    } else {
        None
    }
}

proof fn lemma_text_update<V>(m: Seq<(String, V)>, i: int, key: String, value: V)
    requires
        0 <= i < m.len(),
        first_where(m, text_entry::<V>(key@)) == i,
    ensures
        forall|k: Seq<char>|
            #[trigger] text_get(m.update(i, (key, value)), k) == if k == key@ {
                Some(value)
            } else {
                text_get(m, k)
            },
{
    let n = m.update(i, (key, value));
    lemma_first_where_props(m, text_entry::<V>(key@));
    assert forall|k: Seq<char>| #[trigger] text_get(n, k) == if k == key@ { Some(value) } else { text_get(m, k) } by {
        let p = text_entry::<V>(k);
        let q = first_where(m, p);
        lemma_first_where_props(m, p);
        if k == key@ {
            assert(is_first_where(n, p, i));
            lemma_first_where(n, p, i);
        } else if q >= 0 {
            assert(q != i);
            assert(is_first_where(n, p, q));
            lemma_first_where(n, p, q);
        } else {
            assert forall|j: int| 0 <= j < n.len() implies !p(#[trigger] n[j]) by {
                if j != i {
                    assert(n[j] == m[j]);
                }
            }
            lemma_first_where_none(n, p);
        }
    }
}

proof fn lemma_text_push<V>(m: Seq<(String, V)>, key: String, value: V)
    requires
        first_where(m, text_entry::<V>(key@)) == -1,
    ensures
        forall|k: Seq<char>|
            #[trigger] text_get(m.push((key, value)), k) == if k == key@ {
                Some(value)
            } else {
                text_get(m, k)
            },
{
    let n = m.push((key, value));
    lemma_first_where_props(m, text_entry::<V>(key@));
    assert forall|k: Seq<char>| #[trigger] text_get(n, k) == if k == key@ { Some(value) } else { text_get(m, k) } by {
        let p = text_entry::<V>(k);
        let q = first_where(m, p);
        lemma_first_where_props(m, p);
        if k == key@ {
            assert(is_first_where(n, p, m.len() as int));
            lemma_first_where(n, p, m.len() as int);
        } else if q >= 0 {
            assert(is_first_where(n, p, q));
            lemma_first_where(n, p, q);
        } else {
            assert forall|j: int| 0 <= j < n.len() implies !p(#[trigger] n[j]) by {
                if j < m.len() {
                    assert(n[j] == m[j]);
                }
            }
            lemma_first_where_none(n, p);
        }
    }
}

/// Sets the value of `key` in `map`, in place of its first entry, or as a
/// new entry.
fn insert_by_text(map: &mut Vec<(String, IrFunctionId)>, key: String, value: IrFunctionId)
    ensures
        forall|k: Seq<char>|
            #[trigger] text_get(final(map)@, k) == if k == key@ {
                Some(value)
            } else {
                text_get(old(map)@, k)
            },
{
    let ghost p = text_entry::<IrFunctionId>(key@);
    let mut i: usize = 0;
    while i < map.len()
        invariant
            i <= map@.len(),
            *map == *old(map),
            p == text_entry::<IrFunctionId>(key@),
            forall|j: int| 0 <= j < i ==> !p(#[trigger] map@[j]),
        decreases map@.len() - i,
    {
        if map[i].0 == key {
            proof {
                assert(is_first_where(map@, p, i as int));
                lemma_first_where(map@, p, i as int);
                lemma_text_update(map@, i as int, key, value);
            }
            map[i] = (key, value);
            return;
        }
        i = i + 1;
    }
    proof {
        lemma_first_where_none(map@, p);
        lemma_text_push(map@, key, value);
    }
    map.push((key, value));
}

impl HirToMirContext {
    /// Records constructor `func_id` under the name the symbol table gives
    /// its class (`names`): the qualified name, else the simple one.
    pub fn register_constructor_by_name(&mut self, names: &Option<ClassSymbolNames>, func_id: IrFunctionId)
        ensures
            forall|k: Seq<char>|
                #[trigger] text_get(final(self).constructor_name_map@, k) == if ctor_lookup_name(*names) == Some(k) {
                    Some(func_id)
                } else {
                    text_get(old(self).constructor_name_map@, k)
                },
            *final(self) == (HirToMirContext { constructor_name_map: final(self).constructor_name_map, ..*old(self) }),
    {
        match names {
            Some(n) => match &n.qualified {
                Some(q) => insert_by_text(&mut self.constructor_name_map, q.clone(), func_id),
                None => match &n.name {
                    Some(simple) => insert_by_text(&mut self.constructor_name_map, simple.clone(), func_id),
                    None => {},
                },
            },
            None => {},
        }
    }

    /// Registers the constructor of a class (with type parameters
    /// `class_type_params`) without lowering its body: a function `new`
    /// taking the instance first, found afterwards by the class symbol, by
    /// the class type `type_id` and the type numbered like the class
    /// symbol, and by the class's name (`class_names`, from the symbol
    /// table). No function is left being built.
    pub fn register_constructor_signature_with_class_type_params(
        &mut self,
        table: &TypeTable,
        class_symbol: SymbolId,
        constructor: &HirConstructor,
        type_id: TypeId,
        class_type_params: &Vec<HirTypeParam>,
        class_names: &Option<ClassSymbolNames>,
    )
        requires
            old(self).builder.the_module().next_function_id < u32::MAX,
            constructor.params@.len() + 1 < u32::MAX,
            ctor_converts(table.types@, *constructor),
        ensures
            ({
                let m0 = old(self).builder.the_module();
                let m1 = final(self).builder.the_module();
                let id = IrFunctionId(m0.next_function_id);
                &&& m1 == (IrModule { functions: m1.functions, next_function_id: m1.next_function_id, ..m0 })
                &&& m1.next_function_id == m0.next_function_id + 1
                &&& m1.functions@.len() == m0.functions@.len() + 1
                &&& m1.functions@.drop_last() == m0.functions@
                &&& is_registered_constructor(m1.functions@.last(), id, class_symbol, table.types@, *constructor, class_type_params@)
                &&& m0.wf() ==> m1.wf()
                &&& final(self).builder.cur_fn() is None
                &&& final(self).builder.cur_block() is None
                &&& final(self).builder.source_location() == old(self).builder.source_location()
                &&& forall|s: SymbolId|
                    #[trigger] map_get(final(self).function_map@, s) == if s == class_symbol {
                        Some(id)
                    } else {
                        map_get(old(self).function_map@, s)
                    }
                &&& forall|t: TypeId|
                    #[trigger] map_get(final(self).constructor_map@, t) == if t == type_id || t == TypeId(class_symbol.0) {
                        Some(id)
                    } else {
                        map_get(old(self).constructor_map@, t)
                    }
                &&& forall|k: Seq<char>|
                    #[trigger] text_get(final(self).constructor_name_map@, k) == if ctor_lookup_name(*class_names) == Some(k) {
                        Some(id)
                    } else {
                        text_get(old(self).constructor_name_map@, k)
                    }
                &&& *final(self) == (HirToMirContext {
                    builder: final(self).builder,
                    function_map: final(self).function_map,
                    constructor_map: final(self).constructor_map,
                    constructor_name_map: final(self).constructor_name_map,
                    ..*old(self)
                })
            }),
    {
        let mut parameters: Vec<IrParameter> = Vec::new();
        parameters.push(IrParameter { name: "this".to_owned(), ty: void_ptr_type(), reg: IrId::new(0), by_ref: false });
        let mut i: usize = 0;
        while i < constructor.params.len()
            invariant
                ctor_converts(table.types@, *constructor),
                constructor.params@.len() + 1 < u32::MAX,
                i <= constructor.params@.len(),
                parameters@.len() == i + 1,
                parameters@[0].name@ == "this"@,
                parameters@[0].ty@ == void_ptr(),
                parameters@[0].reg == IrId(0),
                !parameters@[0].by_ref,
                forall|k: int| 0 <= k < i ==> {
                    let p = #[trigger] parameters@[k + 1];
                    &&& p.name@ == ctor_param_name(constructor.params@[k])
                    &&& p.ty@ == conversion(table.types@, constructor.params@[k].ty)
                    &&& p.reg == IrId((k + 1) as u32)
                    &&& !p.by_ref
                },
            decreases constructor.params@.len() - i,
        {
            let param = &constructor.params[i];
            let name = match &param.name {
                Some(n) => n.clone(),
                None => {
                    let mut s = "param_".to_owned();
                    push_decimal(&mut s, param.symbol_id.0 as usize);
                    s
                },
            };
            let ty = convert_type(table, param.ty);
            parameters.push(IrParameter { name, ty, reg: IrId::new((i + 1) as u32), by_ref: false });
            i = i + 1;
        }
        let mut type_params: Vec<String> = Vec::new();
        push_type_param_names(&mut type_params, class_type_params);
        proof {
            assert(Seq::<String>::empty().map_values(|t: String| t@) =~= Seq::<Seq<char>>::empty());
            assert(Seq::<Seq<char>>::empty() + type_param_names(class_type_params@) =~= type_param_names(class_type_params@));
        }
        let signature = IrFunctionSignature {
            parameters,
            return_type: IrType::Void,
            calling_convention: CallingConvention::Haxe,
            can_throw: false,
            type_params,
        };
        let ghost sig = signature;
        let func_id = self.builder.start_function(class_symbol, "new".to_owned(), signature);
        insert_function(&mut self.function_map, class_symbol, func_id);
        let ghost c0 = self.constructor_map@;
        insert_by_type(&mut self.constructor_map, type_id, func_id);
        self.register_constructor_by_name(class_names, func_id);
        let fallback = TypeId(class_symbol.0);
        if fallback != type_id {
            insert_by_type(&mut self.constructor_map, fallback, func_id);
        }
        self.builder.finish_function();
        proof {
            let f = self.builder.the_module().functions@.last();
            assert forall|k: int| 0 <= k < constructor.params@.len() implies {
                let p = #[trigger] f.signature.parameters@[k + 1];
                &&& p.name@ == ctor_param_name(constructor.params@[k])
                &&& p.ty@ == conversion(table.types@, constructor.params@[k].ty)
                &&& p.reg == IrId((k + 1) as u32)
                &&& !p.by_ref
            } by {
                assert(param_with_reg(sig.parameters@[k + 1], f.signature.parameters@[k + 1], IrId((k + 1) as u32)));
            }
        }
    }

    /// Registers the constructor of a class without type parameters.
    pub fn register_constructor_signature(
        &mut self,
        table: &TypeTable,
        class_symbol: SymbolId,
        constructor: &HirConstructor,
        type_id: TypeId,
        class_names: &Option<ClassSymbolNames>,
    )
        requires
            old(self).builder.the_module().next_function_id < u32::MAX,
            constructor.params@.len() + 1 < u32::MAX,
            ctor_converts(table.types@, *constructor),
        ensures
            ({
                let m0 = old(self).builder.the_module();
                let m1 = final(self).builder.the_module();
                let id = IrFunctionId(m0.next_function_id);
                &&& m1 == (IrModule { functions: m1.functions, next_function_id: m1.next_function_id, ..m0 })
                &&& m1.next_function_id == m0.next_function_id + 1
                &&& m1.functions@.len() == m0.functions@.len() + 1
                &&& m1.functions@.drop_last() == m0.functions@
                &&& is_registered_constructor(m1.functions@.last(), id, class_symbol, table.types@, *constructor, Seq::empty())
                &&& m0.wf() ==> m1.wf()
                &&& final(self).builder.cur_fn() is None
                &&& final(self).builder.cur_block() is None
                &&& final(self).builder.source_location() == old(self).builder.source_location()
                &&& forall|s: SymbolId|
                    #[trigger] map_get(final(self).function_map@, s) == if s == class_symbol {
                        Some(id)
                    } else {
                        map_get(old(self).function_map@, s)
                    }
                &&& forall|t: TypeId|
                    #[trigger] map_get(final(self).constructor_map@, t) == if t == type_id || t == TypeId(class_symbol.0) {
                        Some(id)
                    } else {
                        map_get(old(self).constructor_map@, t)
                    }
                &&& forall|k: Seq<char>|
                    #[trigger] text_get(final(self).constructor_name_map@, k) == if ctor_lookup_name(*class_names) == Some(k) {
                        Some(id)
                    } else {
                        text_get(old(self).constructor_name_map@, k)
                    }
                &&& *final(self) == (HirToMirContext {
                    builder: final(self).builder,
                    function_map: final(self).function_map,
                    constructor_map: final(self).constructor_map,
                    constructor_name_map: final(self).constructor_name_map,
                    ..*old(self)
                })
            }),
    {
        let no_type_params: Vec<HirTypeParam> = Vec::new();
        self.register_constructor_signature_with_class_type_params(
            table,
            class_symbol,
            constructor,
            type_id,
            &no_type_params,
            class_names,
        );
    }
}

} // verus!
