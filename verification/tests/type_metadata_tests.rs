use rayzor_ir::hir::{
    AnonymousField, HirAbstract, HirClass, HirClassField, HirEnum, HirEnumField, HirEnumVariant, HirInterface,
    HirInterfaceMethod, HirTypeAlias, HirTypeDecl, InternedName, PropertyAccessInfo, PropertyAccessor, TypeId, TypeKind,
    TypeTable,
};
use rayzor_ir::ids::SymbolId;
use rayzor_ir::lowering::HirToMirContext;
use rayzor_ir::module::{IrTypeDefId, IrTypeDefinition};
use rayzor_ir::types::IrType;

fn ctx() -> HirToMirContext {
    HirToMirContext::new("m".to_string(), "m.hx".to_string())
}

fn table() -> TypeTable {
    TypeTable {
        types: vec![
            (TypeId(0), TypeKind::Int),
            (TypeId(1), TypeKind::Bool),
            (TypeId(2), TypeKind::Class { symbol_id: SymbolId(100) }),
            (
                TypeId(3),
                TypeKind::Anonymous {
                    fields: vec![
                        AnonymousField { name: InternedName { raw: 50, text: Some("size".to_string()) }, type_id: TypeId(0) },
                        AnonymousField { name: InternedName { raw: 51, text: None }, type_id: TypeId(1) },
                    ],
                },
            ),
        ],
    }
}

fn field(sym: u32, name: &str, ty: u32) -> HirClassField {
    HirClassField { symbol_id: SymbolId(sym), name: name.to_string(), ty: TypeId(ty), property_access: None }
}

fn lookup<V: Clone>(map: &[(SymbolId, V)], s: u32) -> Option<V> {
    map.iter().find(|e| e.0 == SymbolId(s)).map(|e| e.1.clone())
}

#[test]
fn enum_variants_get_given_or_positional_discriminants() {
    let mut c = ctx();
    let decl = HirEnum {
        name: "Color".to_string(),
        variants: vec![
            HirEnumVariant { name: "Red".to_string(), discriminant: None, fields: vec![] },
            HirEnumVariant { name: "Green".to_string(), discriminant: Some(10), fields: vec![] },
            HirEnumVariant {
                name: "Rgb".to_string(),
                discriminant: None,
                fields: vec![HirEnumField { name: "r".to_string() }],
            },
        ],
    };
    c.register_enum_metadata(TypeId(7), &decl);
    let td = &c.builder.module.types[0];
    assert_eq!(td.id, IrTypeDefId(0));
    assert_eq!(td.name, "Color");
    assert_eq!(td.type_id, TypeId(7));
    match &td.definition {
        IrTypeDefinition::Enum { variants, discriminant_type } => {
            assert_eq!(*discriminant_type, IrType::I32);
            let d: Vec<i64> = variants.iter().map(|v| v.discriminant).collect();
            assert_eq!(d, vec![0, 10, 2]);
            assert_eq!(variants[2].fields[0].name, "r");
            assert_eq!(variants[2].fields[0].ty, IrType::Any);
        }
        other => panic!("not an enum: {:?}", other),
    }
    assert_eq!(c.builder.module.next_typedef_id, 1);
}

#[test]
fn interfaces_get_a_slot_per_method_and_abstracts_alias_any() {
    let mut c = ctx();
    let iface = HirInterface {
        name: "Shape".to_string(),
        methods: vec![HirInterfaceMethod { name: "area".to_string() }, HirInterfaceMethod { name: "draw".to_string() }],
    };
    c.register_interface_metadata(TypeId(8), &iface);
    c.register_abstract_metadata(TypeId(9), &HirAbstract { name: "Meters".to_string() });
    match &c.builder.module.types[0].definition {
        IrTypeDefinition::Struct { fields, packed } => {
            assert!(!packed);
            assert_eq!(fields.len(), 2);
            assert_eq!(fields[1].name, "draw");
            assert_eq!(
                fields[0].ty,
                IrType::Ptr(Box::new(IrType::Function {
                    params: vec![IrType::Any],
                    return_type: Box::new(IrType::Any),
                    varargs: false
                }))
            );
        }
        other => panic!("not a struct: {:?}", other),
    }
    assert_eq!(c.builder.module.types[1].id, IrTypeDefId(1));
    assert_eq!(c.builder.module.types[1].definition, IrTypeDefinition::Alias { aliased_type: IrType::Any });
}

#[test]
fn alias_of_anonymous_structure_is_laid_out_in_eight_byte_fields() {
    let mut c = ctx();
    let symbols = vec![(SymbolId(70), 49), (SymbolId(71), 50), (SymbolId(72), 50)];
    let alias = HirTypeAlias { name: "Stat".to_string(), aliased_type: TypeId(3) };
    c.register_alias_metadata(&table(), &symbols, TypeId(20), &alias);
    assert_eq!(c.typedef_field_map, vec![((TypeId(20), 50), 0), ((TypeId(20), 51), 1)]);
    assert_eq!(lookup(&c.field_index_map, 71), Some((TypeId(20), 0)));
    assert_eq!(lookup(&c.field_index_map, 72), None);
    match &c.builder.module.types[0].definition {
        IrTypeDefinition::Struct { fields, .. } => {
            assert_eq!(fields[0].name, "size");
            assert_eq!(fields[0].ty, IrType::I32);
            assert_eq!(fields[0].offset, Some(0));
            assert_eq!(fields[1].name, "field_1");
            assert_eq!(fields[1].ty, IrType::Bool);
            assert_eq!(fields[1].offset, Some(8));
        }
        other => panic!("not a struct: {:?}", other),
    }
}

#[test]
fn alias_of_other_type_stands_for_any() {
    let mut c = ctx();
    let alias = HirTypeAlias { name: "Count".to_string(), aliased_type: TypeId(0) };
    c.register_alias_metadata(&table(), &vec![], TypeId(21), &alias);
    assert!(c.typedef_field_map.is_empty());
    assert_eq!(c.builder.module.types[0].definition, IrTypeDefinition::Alias { aliased_type: IrType::Any });
}

#[test]
fn class_lays_out_inherited_fields_first() {
    let base = HirClass {
        symbol_id: SymbolId(100),
        name: "Base".to_string(),
        extends: None,
        fields: vec![field(1, "id", 0)],
    };
    let middle = HirClass {
        symbol_id: SymbolId(101),
        name: "Middle".to_string(),
        extends: Some(TypeId(2)),
        fields: vec![field(2, "flag", 1)],
    };
    let hir_types = vec![(TypeId(30), HirTypeDecl::Class(base)), (TypeId(31), HirTypeDecl::Class(middle))];
    let child = HirClass {
        symbol_id: SymbolId(102),
        name: "Child".to_string(),
        extends: Some(TypeId(31)),
        fields: vec![HirClassField {
            symbol_id: SymbolId(3),
            name: "size".to_string(),
            ty: TypeId(0),
            property_access: Some(PropertyAccessInfo {
                getter: PropertyAccessor::Method("get_size".to_string()),
                setter: PropertyAccessor::Never,
            }),
        }],
    };
    let mut c = ctx();
    c.register_type_metadata(&table(), &hir_types, &vec![], TypeId(32), &HirTypeDecl::Class(child));
    let td = &c.builder.module.types[0];
    assert_eq!(td.name, "Child");
    match &td.definition {
        IrTypeDefinition::Struct { fields, packed } => {
            assert!(!packed);
            let names: Vec<&str> = fields.iter().map(|f| f.name.as_str()).collect();
            assert_eq!(names, vec!["id", "flag", "size"]);
            assert_eq!(fields[1].ty, IrType::Bool);
        }
        other => panic!("not a struct: {:?}", other),
    }
    assert_eq!(lookup(&c.field_index_map, 1), Some((TypeId(32), 0)));
    assert_eq!(lookup(&c.field_index_map, 2), Some((TypeId(32), 1)));
    assert_eq!(lookup(&c.field_index_map, 3), Some((TypeId(32), 2)));
    assert_eq!(
        lookup(&c.property_access_map, 3),
        Some(PropertyAccessInfo { getter: PropertyAccessor::Method("get_size".to_string()), setter: PropertyAccessor::Never })
    );
}

#[test]
fn registering_a_field_again_moves_it_to_the_newest_class() {
    let hir_types: Vec<(TypeId, HirTypeDecl)> = vec![];
    let a = HirClass { symbol_id: SymbolId(5), name: "A".to_string(), extends: None, fields: vec![field(9, "x", 0)] };
    let b = HirClass { symbol_id: SymbolId(6), name: "B".to_string(), extends: None, fields: vec![field(8, "y", 0), field(9, "x", 0)] };
    let mut c = ctx();
    c.register_class_metadata(&table(), &hir_types, TypeId(40), &a);
    c.register_class_metadata(&table(), &hir_types, TypeId(41), &b);
    assert_eq!(lookup(&c.field_index_map, 9), Some((TypeId(41), 1)));
    assert_eq!(c.builder.module.types.len(), 2);
    assert_eq!(c.builder.module.types[1].id, IrTypeDefId(1));
}
