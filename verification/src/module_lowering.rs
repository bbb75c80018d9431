//! Lowering a module: the signature of every function is registered first,
//! so that a call can name any function of the module; then each body is
//! lowered in turn. The module comes back when no error was recorded.

use vstd::prelude::*;
use crate::body_lowering::table_converts;
use crate::builder::{terminates, IrBuilder};
use crate::functions::IrParameter;
use crate::hir::{HirFunction, HirModule, HirParam, TypeId, TypeKind, TypeTable};
use crate::ids::{IrFunctionId, IrId, SymbolId};
use crate::instructions::IrTerminator;
use crate::lowering::{
    fn_entry, fn_of, starts_fresh, lookup_function, register_function_signatures, signature_converts,
    signatures_registered, HirToMirContext, LoweringError,
};
use crate::module::{fn_pos, IrModule};
use crate::statements::{block_lowered, rebound_all, seen};
use crate::type_metadata::{insert_by_symbol, key_entry, map_get};

verus! {

/// Looking a function up by its first entry is `map_get`.
pub proof fn lemma_fn_of_is_map_get(m: Seq<(SymbolId, IrFunctionId)>, s: SymbolId)
    ensures
        fn_of(m, s) == map_get(m, s),
{
    assert(fn_entry(s) =~= key_entry::<SymbolId, IrFunctionId>(s));
}

/// The variables a function's parameters bind, with the registers of the
/// signature's parameters, in order.
pub open spec fn param_binds(hps: Seq<HirParam>, ps: Seq<IrParameter>) -> Seq<(SymbolId, IrId)> {
    Seq::new(
        if hps.len() < ps.len() {
            hps.len()
        } else {
            ps.len()
        },
        |i: int| (hps[i].symbol_id, ps[i].reg),
    )
}

/// `b` is `a` after the block being built was given a return of nothing,
/// unless it ended already.
pub open spec fn terminator_ensured(a: HirToMirContext, b: HirToMirContext) -> bool {
    &&& b == (HirToMirContext { builder: b.builder, ..a })
    &&& if a.builder.has_block() && !(a.builder.block().terminator is Unreachable) {
        b.builder == a.builder
    } else {
        terminates(
            a.builder,
            b.builder,
            if a.builder.has_block() {
                Some(())
            } else {
                None
            },
            IrTerminator::Return { value: None },
        )
    }
}

/// What lowering the body of `f`, registered for `sym`, does: building
/// goes to the entry block of its function; each parameter's variable is
/// held in the signature's register; the body is lowered and given a
/// return where it does not end; the function is finished and the
/// variables forgotten. Nothing happens for a symbol with no function.
pub open spec fn body_lowered(
    types: Seq<(TypeId, TypeKind)>,
    a: HirToMirContext,
    b: HirToMirContext,
    sym: SymbolId,
    f: HirFunction,
) -> bool {
    match map_get(a.function_map@, sym) {
        None => b == a,
        Some(fid) => {
            let p = fn_pos(a.builder.the_module().functions@, fid);
            if p < 0 {
                b == a
            } else {
                let func = a.builder.the_module().functions@[p];
                exists|st: Seq<HirToMirContext>|
                    #![trigger seen(st)]
                    {
                        &&& st.len() == 4
                        &&& st[0] == (HirToMirContext {
                            builder: IrBuilder {
                                current_function: Some(fid),
                                current_block: Some(func.cfg.entry_block),
                                ..a.builder
                            },
                            ..a
                        })
                        &&& rebound_all(st[0], st[1], param_binds(f.params@, func.signature.parameters@))
                        &&& match f.body {
                            Some(blk) => block_lowered(types, st[1], st[2], blk),
                            None => st[2] == st[1],
                        }
                        &&& terminator_ensured(st[2], st[3])
                        &&& b == (HirToMirContext {
                            builder: IrBuilder { current_function: None, current_block: None, ..st[3].builder },
                            symbol_map: b.symbol_map,
                            ..st[3]
                        })
                        &&& b.symbol_map@.len() == 0
                    }
            }
        },
    }
}

/// Lowering the bodies of `fs`, in order.
pub open spec fn functions_lowered(
    types: Seq<(TypeId, TypeKind)>,
    a: HirToMirContext,
    b: HirToMirContext,
    fs: Seq<(SymbolId, HirFunction)>,
) -> bool
    decreases fs.len(),
{
    if fs.len() == 0 {
        b == a
    } else {
        exists|m: HirToMirContext|
            #![trigger seen(m)]
            functions_lowered(types, a, m, fs.drop_last()) && body_lowered(types, m, b, fs.last().0, fs.last().1)
    }
}

/// `b` is `a` with each symbol of `binds` mapped, in turn, to its function.
pub open spec fn functions_mapped(a: HirToMirContext, b: HirToMirContext, binds: Seq<(SymbolId, IrFunctionId)>) -> bool
    decreases binds.len(),
{
    if binds.len() == 0 {
        b == a
    } else {
        exists|m: HirToMirContext|
            #![trigger seen(m)]
            {
                &&& functions_mapped(a, m, binds.drop_last())
                &&& b == (HirToMirContext { function_map: b.function_map, ..m })
                &&& forall|s: SymbolId|
                    #[trigger] map_get(b.function_map@, s) == if s == binds.last().0 {
                        Some(binds.last().1)
                    } else {
                        map_get(m.function_map@, s)
                    }
            }
    }
}

/// The module can be lowered: its functions fit the function ids left,
/// their parameters fit the registers, and their types convert.
pub open spec fn module_lowerable(types: Seq<(TypeId, TypeKind)>, c: HirToMirContext, m: HirModule) -> bool {
    &&& table_converts(types)
    &&& c.builder.the_module().next_function_id + m.functions@.len() <= u32::MAX
    &&& forall|i: int|
        0 <= i < m.functions@.len() ==> {
            &&& (#[trigger] m.functions@[i]).1.params@.len() < u32::MAX
            &&& signature_converts(types, m.functions@[i].1)
        }
}

/// What lowering module `m` does, from state `a` to `b`, giving `r`: the
/// signatures are registered and mapped, the bodies lowered in order; then
/// the module built is handed back, and a new empty one takes its place,
/// when no error was recorded; otherwise the errors are handed back and
/// forgotten.
pub open spec fn module_lowered(
    types: Seq<(TypeId, TypeKind)>,
    a: HirToMirContext,
    b: HirToMirContext,
    m: HirModule,
    r: Result<IrModule, Vec<LoweringError>>,
) -> bool {
    exists|w: (IrBuilder, Seq<(SymbolId, IrFunctionId)>, HirToMirContext, HirToMirContext)|
        #![trigger seen(w)]
        {
            &&& signatures_registered(a.builder, w.0, types, m.functions@, w.1)
            &&& functions_mapped(HirToMirContext { builder: w.0, ..a }, w.2, w.1)
            &&& functions_lowered(types, w.2, w.3, m.functions@)
            &&& if w.3.errors@.len() == 0 {
                &&& r == Ok::<IrModule, Vec<LoweringError>>(w.3.builder.module)
                &&& b == (HirToMirContext { builder: IrBuilder { module: b.builder.module, ..w.3.builder }, ..w.3 })
                &&& b.builder.module.functions@.len() == 0
                &&& b.builder.module.next_function_id == 0
            } else {
                &&& r is Err
                &&& r->Err_0@ == w.3.errors@
                &&& b == (HirToMirContext { errors: b.errors, ..w.3 })
                &&& b.errors@.len() == 0
            }
        }
}

impl HirToMirContext {
    /// Lowers the body of `hir_func`, whose signature was registered for
    /// `symbol_id`.
    pub fn lower_function_body(&mut self, table: &TypeTable, symbol_id: SymbolId, hir_func: &HirFunction)
        requires
            table_converts(table.types@),
        ensures
            body_lowered(table.types@, *old(self), *final(self), symbol_id, *hir_func),
    {
        let ghost a = *self;
        let fid = match lookup_function(&self.function_map, symbol_id) {
            Some(f) => f,
            None => {
                proof {
                    lemma_fn_of_is_map_get(a.function_map@, symbol_id);
                }
                return;
            },
        };
        proof {
            lemma_fn_of_is_map_get(a.function_map@, symbol_id);
        }
        let p = match self.builder.module.find_function(fid) {
            Some(p) => p,
            None => return,
        };
        let entry = self.builder.module.functions[p].cfg.entry_block;
        self.builder.current_function = Some(fid);
        self.builder.current_block = Some(entry);
        let ghost s0 = *self;
        let np = self.builder.module.functions[p].signature.parameters.len();
        let n = if hir_func.params.len() < np {
            hir_func.params.len()
        } else {
            np
        };
        let mut binds: Vec<(SymbolId, IrId)> = Vec::new();
        let mut i: usize = 0;
        while i < n
            invariant
                i <= n,
                *self == s0,
                p < self.builder.module.functions@.len(),
                np == self.builder.module.functions@[p as int].signature.parameters@.len(),
                n as int == (if hir_func.params@.len() < np { hir_func.params@.len() as int } else { np as int }),
                binds@ =~= param_binds(hir_func.params@, self.builder.module.functions@[p as int].signature.parameters@).take(
                    i as int,
                ),
            decreases n - i,
        {
            binds.push((hir_func.params[i].symbol_id, self.builder.module.functions[p].signature.parameters[i].reg));
            i = i + 1;
        }
        proof {
            assert(binds@ =~= param_binds(hir_func.params@, s0.builder.module.functions@[p as int].signature.parameters@));
        }
        self.rebind_all(&binds);
        let ghost s1 = *self;
        match &hir_func.body {
            Some(blk) => self.lower_block(table, blk),
            None => {},
        }
        let ghost s2 = *self;
        self.ensure_terminator();
        let ghost s3 = *self;
        self.builder.finish_function();
        self.symbol_map = Vec::new();
        proof {
            assert(self.builder == (IrBuilder { current_function: None, current_block: None, ..s3.builder }));
            assert(seen(seq![s0, s1, s2, s3]));
        }
    }

    /// Lowers module `hir_module`: its module of IR when no error was
    /// recorded, else the errors.
    pub fn lower_module(&mut self, table: &TypeTable, hir_module: &HirModule) -> (r: Result<IrModule, Vec<LoweringError>>)
        requires
            module_lowerable(table.types@, *old(self), *hir_module),
        ensures
            module_lowered(table.types@, *old(self), *final(self), *hir_module, r),
    {
        let ghost a = *self;
        let map = register_function_signatures(&mut self.builder, table, &hir_module.functions);
        let ghost b1 = self.builder;
        let ghost s1 = *self;
        let mut i: usize = 0;
        while i < map.len()
            invariant
                i <= map@.len(),
                functions_mapped(s1, *self, map@.take(i as int)),
            decreases map@.len() - i,
        {
            let ghost m = *self;
            proof {
                assert(map@.take(i + 1).drop_last() =~= map@.take(i as int));
                assert(map@.take(i + 1).last() == map@[i as int]);
                assert(seen(m));
            }
            insert_by_symbol(&mut self.function_map, map[i].0, map[i].1);
            i = i + 1;
        }
        proof {
            assert(map@.take(map@.len() as int) =~= map@);
        }
        let ghost s2 = *self;
        let mut k: usize = 0;
        while k < hir_module.functions.len()
            invariant
                k <= hir_module.functions@.len(),
                table_converts(table.types@),
                functions_lowered(table.types@, s2, *self, hir_module.functions@.take(k as int)),
            decreases hir_module.functions@.len() - k,
        {
            let ghost m = *self;
            proof {
                assert(hir_module.functions@.take(k + 1).drop_last() =~= hir_module.functions@.take(k as int));
                assert(hir_module.functions@.take(k + 1).last() == hir_module.functions@[k as int]);
                assert(seen(m));
            }
            self.lower_function_body(table, hir_module.functions[k].0, &hir_module.functions[k].1);
            k = k + 1;
        }
        proof {
            assert(hir_module.functions@.take(hir_module.functions@.len() as int) =~= hir_module.functions@);
        }
        let ghost s3 = *self;
        proof {
            assert(seen((b1, map@, s2, s3)));
        }
        if self.errors.len() == 0 {
            let mut m = IrModule::new(String::new(), String::new());
            core::mem::swap(&mut self.builder.module, &mut m);
            Ok(m)
        } else {
            let mut e: Vec<LoweringError> = Vec::new();
            core::mem::swap(&mut self.errors, &mut e);
            Err(e)
        }
    }
}

/// The result of lowering a module: the module, and the function each
/// symbol of it became.
pub struct MirLoweringResult {
    pub module: IrModule,
    pub function_map: Vec<(SymbolId, IrFunctionId)>,
}

/// Lowers `hir_module` into a new module, with the functions of modules
/// lowered before (`external_functions`) callable by symbol; the context
/// it was lowered in is `c`.
pub open spec fn lowered_with(
    types: Seq<(TypeId, TypeKind)>,
    m: HirModule,
    external_functions: Seq<(SymbolId, IrFunctionId)>,
    r: Result<IrModule, Vec<LoweringError>>,
    c: HirToMirContext,
) -> bool {
    exists|c0: HirToMirContext|
        #![trigger seen(c0)]
        {
            &&& starts_fresh(c0, m.name, m.source_file)
            &&& c0.external_function_map@ == external_functions
            &&& module_lowered(types, c0, c, m, r)
        }
}

/// The module can be lowered into a new module.
pub open spec fn module_fits(types: Seq<(TypeId, TypeKind)>, m: HirModule) -> bool {
    &&& table_converts(types)
    &&& m.functions@.len() <= u32::MAX
    &&& forall|i: int|
        0 <= i < m.functions@.len() ==> {
            &&& (#[trigger] m.functions@[i]).1.params@.len() < u32::MAX
            &&& signature_converts(types, m.functions@[i].1)
        }
}

/// Lowers `hir_module` into a new module, with the functions of modules
/// lowered before callable by symbol.
pub fn lower_hir_to_mir_with_externals(
    table: &TypeTable,
    hir_module: &HirModule,
    external_functions: Vec<(SymbolId, IrFunctionId)>,
) -> (r: Result<IrModule, Vec<LoweringError>>)
    requires
        module_fits(table.types@, *hir_module),
    ensures
        exists|c: HirToMirContext| lowered_with(table.types@, *hir_module, external_functions@, r, c),
{
    let mut context = HirToMirContext::new(hir_module.name.clone(), hir_module.source_file.clone());
    let ghost e = external_functions@;
    context.external_function_map = external_functions;
    let ghost c0 = context;
    let r = context.lower_module(table, hir_module);
    proof {
        assert(seen(c0));
        assert(lowered_with(table.types@, *hir_module, external_functions@, r, context));
    }
    r
}

/// Lowers `hir_module` into a new module.
pub fn lower_hir_to_mir(table: &TypeTable, hir_module: &HirModule) -> (r: Result<IrModule, Vec<LoweringError>>)
    requires
        module_fits(table.types@, *hir_module),
    ensures
        exists|c: HirToMirContext| lowered_with(table.types@, *hir_module, Seq::empty(), r, c),
{
    let none: Vec<(SymbolId, IrFunctionId)> = Vec::new();
    let ghost nv = none@;
    proof {
        assert(nv =~= Seq::<(SymbolId, IrFunctionId)>::empty());
    }
    let r = lower_hir_to_mir_with_externals(table, hir_module, none);
    proof {
        let c = choose|c: HirToMirContext| lowered_with(table.types@, *hir_module, nv, r, c);
        assert(lowered_with(table.types@, *hir_module, Seq::empty(), r, c));
    }
    r
}

/// The module of a result, or its errors.
pub open spec fn result_module(r: Result<MirLoweringResult, Vec<LoweringError>>) -> Result<IrModule, Vec<LoweringError>> {
    match r {
        Ok(x) => Ok(x.module),
        Err(e) => Err(e),
    }
}

/// Lowers `hir_module` into a new module, with the functions of modules
/// lowered before callable by symbol; with the module comes the function
/// each of its symbols became.
pub fn lower_hir_to_mir_with_function_map(
    table: &TypeTable,
    hir_module: &HirModule,
    external_functions: Vec<(SymbolId, IrFunctionId)>,
) -> (r: Result<MirLoweringResult, Vec<LoweringError>>)
    requires
        module_fits(table.types@, *hir_module),
    ensures
        exists|c: HirToMirContext|
            #[trigger] lowered_with(
                table.types@,
                *hir_module,
                external_functions@,
                result_module(r),
                c,
            ) && match r {
                Ok(x) => x.function_map == c.function_map,
                Err(_) => true,
            },
{
    let mut context = HirToMirContext::new(hir_module.name.clone(), hir_module.source_file.clone());
    context.external_function_map = external_functions;
    let ghost c0 = context;
    let r = context.lower_module(table, hir_module);
    proof {
        assert(seen(c0));
        assert(lowered_with(
            table.types@,
            *hir_module,
            external_functions@,
            match r {
                Ok(x) => Ok(x),
                Err(e) => Err(e),
            },
            context,
        ));
    }
    match r {
        Ok(module) => Ok(MirLoweringResult { module, function_map: context.function_map }),
        Err(e) => Err(e),
    }
}

} // verus!
