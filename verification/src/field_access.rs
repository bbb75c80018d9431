//! Reading fields of objects: a field laid out by its class is read
//! through a pointer to its slot; a property with a custom getter is read
//! by calling the getter.

use vstd::prelude::*;
use crate::body_lowering::{error_added, room, step, stop, table_converts};
use crate::externs::{find_function_named, first_where, named_any};
use crate::hir::{PropertyAccessor, TypeId, TypeKind, TypeTable};
use crate::ids::{IrId, SymbolId};
use crate::instructions::IrInstruction;
use crate::lowering::{conversion, convert_type, converts, HirToMirContext};
use crate::statements::seen;
use crate::type_metadata::map_get;
use crate::types::{IrType, IrValue};

verus! {

/// `b` is `a` after the field at index `idx` of the object `obj` was read
/// as a value of type `fty`: the index as an `I32` constant, a pointer to
/// the field, then a load through it.
pub open spec fn field_loaded(
    types: Seq<(TypeId, TypeKind)>,
    a: HirToMirContext,
    b: HirToMirContext,
    obj: IrId,
    idx: u32,
    fty: TypeId,
    r: Option<IrId>,
) -> bool {
    if !room(a) {
        stop(a, b, r)
    } else {
        exists|w: (HirToMirContext, Option<IrId>, HirToMirContext, Option<IrId>, IrType, IrType, Vec<IrId>)|
            #![trigger seen(w)]
            {
                &&& w.4@ == conversion(types, fty)
                &&& w.5@ == conversion(types, fty)
                &&& step(a, w.0, w.1, |d: IrId| IrInstruction::Const { dest: d, value: IrValue::I32(idx as i32) })
                &&& match w.1 {
                    None => stop(w.0, b, r),
                    Some(c) => {
                        &&& w.6@ == seq![c]
                        &&& step(
                            w.0,
                            w.2,
                            w.3,
                            |d: IrId| IrInstruction::GetElementPtr { dest: d, ptr: obj, indices: w.6, ty: w.4 },
                        )
                        &&& match w.3 {
                            None => stop(w.2, b, r),
                            Some(p) => step(w.2, b, r, |d: IrId| IrInstruction::Load { dest: d, ptr: p, ty: w.5 }),
                        }
                    },
                }
            }
    }
}

/// What reading field `field` of `obj` as laid out by its class does: the
/// field's slot is read; an error when no class lays the field out.
pub open spec fn class_field_read(
    types: Seq<(TypeId, TypeKind)>,
    a: HirToMirContext,
    b: HirToMirContext,
    obj: IrId,
    field: SymbolId,
    fty: TypeId,
    r: Option<IrId>,
) -> bool {
    match map_get(a.field_index_map@, field) {
        Some(e) => field_loaded(types, a, b, obj, e.1, fty, r),
        None => r is None && error_added(a, b, "Field index not found for raw pointer access"@),
    }
}

/// The text of the error for a getter `name` that no function carries.
pub open spec fn missing_getter(name: Seq<char>) -> Seq<char> {
    "Property getter method '"@ + name + "' not found"@
}

/// What reading field `field` of `obj` does: a property with a getter
/// method is read by a call of the module's function of that name, with
/// `obj` as its argument; a property that cannot be read is an error;
/// any other field is read from the slot its class gives it.
pub open spec fn field_read(
    types: Seq<(TypeId, TypeKind)>,
    a: HirToMirContext,
    b: HirToMirContext,
    obj: IrId,
    field: SymbolId,
    fty: TypeId,
    r: Option<IrId>,
) -> bool {
    let plain = match map_get(a.field_index_map@, field) {
        Some(e) => field_loaded(types, a, b, obj, e.1, fty, r),
        None => r is None && error_added(a, b, "Field index not found - class may not be registered"@),
    };
    match map_get(a.property_access_map@, field) {
        Some(info) => match info.getter {
            PropertyAccessor::Method(name) => {
                let fs = a.builder.the_module().functions@;
                let p = first_where(fs, named_any(name@));
                if p < 0 {
                    r is None && error_added(a, b, missing_getter(name@))
                } else if !room(a) {
                    stop(a, b, r)
                } else {
                    exists|args: Vec<IrId>|
                        #![trigger seen(args)]
                        args@ == seq![obj] && step(
                            a,
                            b,
                            r,
                            |d: IrId| IrInstruction::CallDirect { dest: Some(d), func_id: fs[p].id, args },
                        )
                }
            },
            PropertyAccessor::Null | PropertyAccessor::Never => r is None && error_added(
                a,
                b,
                "Cannot read from write-only property (Null or Never getter)"@,
            ),
            _ => plain,
        },
        None => plain,
    }
}

fn lookup_field_index(map: &Vec<(SymbolId, (TypeId, u32))>, field: SymbolId) -> (r: Option<(TypeId, u32)>)
    ensures
        r == map_get(map@, field),
{
    let ghost p = crate::type_metadata::key_entry::<SymbolId, (TypeId, u32)>(field);
    let mut i: usize = 0;
    while i < map.len()
        invariant
            i <= map@.len(),
            p == crate::type_metadata::key_entry::<SymbolId, (TypeId, u32)>(field),
            forall|j: int| 0 <= j < i ==> !p(#[trigger] map@[j]),
        decreases map@.len() - i,
    {
        if map[i].0 == field {
            proof {
                crate::externs::lemma_first_where(map@, p, i as int);
            }
            return Some(map[i].1);
        }
        i = i + 1;
    }
    proof {
        crate::externs::lemma_first_where_none(map@, p);
    }
    None
}

fn lookup_property(map: &Vec<(SymbolId, crate::hir::PropertyAccessInfo)>, field: SymbolId) -> (r: Option<usize>)
    ensures
        match r {
            Some(i) => i < map@.len() && map_get(map@, field) == Some(map@[i as int].1),
            None => map_get(map@, field) is None,
        },
{
    let ghost p = crate::type_metadata::key_entry::<SymbolId, crate::hir::PropertyAccessInfo>(field);
    let mut i: usize = 0;
    while i < map.len()
        invariant
            i <= map@.len(),
            p == crate::type_metadata::key_entry::<SymbolId, crate::hir::PropertyAccessInfo>(field),
            forall|j: int| 0 <= j < i ==> !p(#[trigger] map@[j]),
        decreases map@.len() - i,
    {
        if map[i].0 == field {
            proof {
                crate::externs::lemma_first_where(map@, p, i as int);
            }
            return Some(i);
        }
        i = i + 1;
    }
    proof {
        crate::externs::lemma_first_where_none(map@, p);
    }
    None
}

impl HirToMirContext {
    fn load_field(&mut self, table: &TypeTable, obj: IrId, idx: u32, fty: TypeId) -> (r: Option<IrId>)
        requires
            table_converts(table.types@),
        ensures
            crate::body_lowering::frame_kept(*old(self), *final(self)),
            field_loaded(table.types@, *old(self), *final(self), obj, idx, fty, r),
    {
        if !self.has_room() {
            return None;
        }
        proof {
            assert(converts(table.types@, fty));
        }
        let t = convert_type(table, fty);
        let t2 = t.clone();
        let ghost gt = t;
        let ghost gt2 = t2;
        let c = self.builder.build_const(IrValue::I32(idx as i32));
        let ghost m1 = *self;
        let ci = match c {
            Some(ci) => ci,
            None => {
                proof {
                    assert(seen((m1, c, m1, None::<IrId>, gt, gt2, vstd::pervasive::arbitrary::<Vec<IrId>>())));
                }
                return None;
            },
        };
        let mut idxv: Vec<IrId> = Vec::new();
        idxv.push(ci);
        proof {
            assert(idxv@ =~= seq![ci]);
        }
        let ghost gidx = idxv;
        let p = self.builder.build_gep(obj, idxv, t);
        let ghost m2 = *self;
        proof {
            assert(seen((m1, c, m2, p, gt, gt2, gidx)));
        }
        match p {
            Some(pp) => self.builder.build_load(pp, t2),
            None => None,
        }
    }

    /// Reads field `field` (of type `field_ty`) of the object `obj` through
    /// the slot its class lays it out in.
    pub fn lower_field_access_for_class(&mut self, table: &TypeTable, obj: IrId, field: SymbolId, field_ty: TypeId) -> (r: Option<IrId>)
        requires
            table_converts(table.types@),
        ensures
            crate::body_lowering::frame_kept(*old(self), *final(self)),
            class_field_read(table.types@, *old(self), *final(self), obj, field, field_ty, r),
    {
        match lookup_field_index(&self.field_index_map, field) {
            Some(e) => self.load_field(table, obj, e.1, field_ty),
            None => {
                self.emit_error("Field index not found for raw pointer access");
                None
            },
        }
    }

    /// Reads field `field` (of type `field_ty`) of the object `obj`, whose
    /// type is `receiver_ty`; what is read does not depend on that type,
    /// since receivers of dynamic type, which would be unboxed first, are
    /// not lowered here.
    pub fn lower_field_access(
        &mut self,
        table: &TypeTable,
        obj: IrId,
        field: SymbolId,
        receiver_ty: TypeId,
        field_ty: TypeId,
    ) -> (r: Option<IrId>)
        requires
            table_converts(table.types@),
        ensures
            crate::body_lowering::frame_kept(*old(self), *final(self)),
            field_read(table.types@, *old(self), *final(self), obj, field, field_ty, r),
    {
        if let Some(i) = lookup_property(&self.property_access_map, field) {
            match &self.property_access_map[i].1.getter {
                PropertyAccessor::Method(name) => {
                    let name = name.clone();
                    match find_function_named(&self.builder.module.functions, &name, None) {
                        Some(p) => {
                            if !self.has_room() {
                                return None;
                            }
                            let fid = self.builder.module.functions[p].id;
                            let mut args: Vec<IrId> = Vec::new();
                            args.push(obj);
                            proof {
                                assert(args@ =~= seq![obj]);
                                assert(seen(args));
                            }
                            return self.builder.build_call_direct(fid, args, IrType::Void);
                        },
                        None => {
                            let mut msg = String::new();
                            msg.append("Property getter method '");
                            msg.append(name.as_str());
                            msg.append("' not found");
                            self.emit_error(msg.as_str());
                            return None;
                        },
                    }
                },
                PropertyAccessor::Null | PropertyAccessor::Never => {
                    self.emit_error("Cannot read from write-only property (Null or Never getter)");
                    return None;
                },
                _ => {},
            }
        }
        match lookup_field_index(&self.field_index_map, field) {
            Some(e) => self.load_field(table, obj, e.1, field_ty),
            None => {
                self.emit_error("Field index not found - class may not be registered");
                None
            },
        }
    }
}

} // verus!
