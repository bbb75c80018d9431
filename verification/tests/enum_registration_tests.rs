use rayzor_ir::hir::TypeId;
use rayzor_ir::ids::SymbolId;
use rayzor_ir::lowering::HirToMirContext;

#[test]
fn enums_are_recorded_once_with_known_variant_names() {
    let mut c = HirToMirContext::new("m".to_string(), "m.hx".to_string());
    let variants = Some(vec![Some("Red".to_string()), None, Some("Blue".to_string())]);
    c.record_enum_for_registration(SymbolId(5), TypeId(9), &Some("Color".to_string()), &variants);
    c.record_enum_for_registration(SymbolId(5), TypeId(9), &Some("Other".to_string()), &None);
    c.record_enum_for_registration(SymbolId(6), TypeId(10), &None, &None);
    let recorded = c.get_enums_for_registration();
    assert_eq!(recorded.len(), 2);
    assert_eq!(recorded[0].0, SymbolId(5));
    assert_eq!(recorded[0].1, (1005, "Color".to_string(), vec!["Red".to_string(), "Blue".to_string()]));
    assert_eq!(recorded[1].1, (1006, "Enum_6".to_string(), vec![]));
}
