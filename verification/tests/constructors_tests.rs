use rayzor_ir::hir::{ClassSymbolNames, HirConstructor, HirConstructorParam, HirTypeParam, TypeId, TypeKind, TypeTable};
use rayzor_ir::ids::{IrFunctionId, IrId, SymbolId};
use rayzor_ir::lowering::HirToMirContext;
use rayzor_ir::types::{CallingConvention, IrType};

fn table() -> TypeTable {
    TypeTable { types: vec![(TypeId(0), TypeKind::Int), (TypeId(1), TypeKind::Bool)] }
}

fn ctor() -> HirConstructor {
    HirConstructor {
        params: vec![
            HirConstructorParam { symbol_id: SymbolId(11), name: Some("x".to_string()), ty: TypeId(0) },
            HirConstructorParam { symbol_id: SymbolId(12), name: None, ty: TypeId(1) },
        ],
    }
}

fn find<K: PartialEq + Copy>(map: &[(K, IrFunctionId)], k: K) -> Option<IrFunctionId> {
    map.iter().find(|e| e.0 == k).map(|e| e.1)
}

#[test]
fn constructor_takes_this_then_its_parameters() {
    let mut c = HirToMirContext::new("m".to_string(), "m.hx".to_string());
    let names = Some(ClassSymbolNames { qualified: Some("pkg.Point".to_string()), name: Some("Point".to_string()) });
    c.register_constructor_signature(&table(), SymbolId(40), &ctor(), TypeId(7), &names);
    assert!(c.builder.current_function().is_none());
    let f = &c.builder.module.functions[0];
    assert_eq!(f.name, "new");
    assert_eq!(f.symbol_id, SymbolId(40));
    let params: Vec<(&str, u32)> = f.signature.parameters.iter().map(|p| (p.name.as_str(), p.reg.0)).collect();
    assert_eq!(params, vec![("this", 0), ("x", 1), ("param_12", 2)]);
    assert_eq!(f.signature.parameters[0].ty, IrType::Ptr(Box::new(IrType::Void)));
    assert_eq!(f.signature.parameters[2].ty, IrType::Bool);
    assert_eq!(f.signature.return_type, IrType::Void);
    assert_eq!(f.signature.calling_convention, CallingConvention::Haxe);
    assert!(f.signature.type_params.is_empty());
    assert_eq!(c.get_function_id(SymbolId(40)), Some(IrFunctionId(0)));
    assert_eq!(find(&c.constructor_map, TypeId(7)), Some(IrFunctionId(0)));
    assert_eq!(find(&c.constructor_map, TypeId(40)), Some(IrFunctionId(0)));
    assert_eq!(c.constructor_name_map, vec![("pkg.Point".to_string(), IrFunctionId(0))]);
    assert_eq!(f.signature.parameters[1].reg, IrId(1));
}

#[test]
fn generic_constructor_carries_class_type_parameters() {
    let mut c = HirToMirContext::new("m".to_string(), "m.hx".to_string());
    let tps = vec![HirTypeParam { name: Some("T".to_string()), raw: 3 }, HirTypeParam { name: None, raw: 4 }];
    let names = Some(ClassSymbolNames { qualified: None, name: Some("Box".to_string()) });
    c.register_constructor_signature_with_class_type_params(&table(), SymbolId(41), &ctor(), TypeId(41), &tps, &names);
    let f = &c.builder.module.functions[0];
    assert_eq!(f.signature.type_params, vec!["T".to_string(), "T4".to_string()]);
    assert_eq!(c.constructor_map, vec![(TypeId(41), IrFunctionId(0))]);
    assert_eq!(c.constructor_name_map, vec![("Box".to_string(), IrFunctionId(0))]);
}

#[test]
fn class_without_known_names_is_found_by_symbol_and_type_only() {
    let mut c = HirToMirContext::new("m".to_string(), "m.hx".to_string());
    c.register_constructor_by_name(&None, IrFunctionId(3));
    c.register_constructor_by_name(&Some(ClassSymbolNames { qualified: None, name: None }), IrFunctionId(3));
    assert!(c.constructor_name_map.is_empty());
    c.register_constructor_by_name(&Some(ClassSymbolNames { qualified: None, name: Some("A".to_string()) }), IrFunctionId(3));
    c.register_constructor_by_name(&Some(ClassSymbolNames { qualified: None, name: Some("A".to_string()) }), IrFunctionId(5));
    assert_eq!(c.constructor_name_map, vec![("A".to_string(), IrFunctionId(5))]);
}
