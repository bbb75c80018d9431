use rayzor_ir::hir::{HirAttribute, HirAttributeArg, HirFunction, HirLiteral, TypeId};
use rayzor_ir::ids::SymbolId;
use rayzor_ir::ssa_hints::{extract_ssa_hints_from_hir, SsaOptimizationHints};

fn attr(name: &str, arg: Option<&str>) -> HirAttribute {
    HirAttribute {
        name: name.to_string(),
        args: arg.map(|a| vec![HirAttributeArg::Literal(HirLiteral::String(a.to_string()))]).unwrap_or_default(),
    }
}

fn func(sym: u32, metadata: Vec<HirAttribute>) -> (SymbolId, HirFunction) {
    (
        SymbolId(sym),
        HirFunction {
            symbol_id: SymbolId(sym),
            name: None,
            type_params: vec![],
            params: vec![],
            return_type: TypeId(0),
            is_extern: false,
            metadata,
            body: None,
        },
    )
}

fn ids(v: &[SymbolId]) -> Vec<u32> {
    let mut r: Vec<u32> = v.iter().map(|s| s.0).collect();
    r.sort();
    r
}

#[test]
fn hints_sort_functions_by_attribute() {
    let functions = vec![
        func(1, vec![attr("inline_candidate", None)]),
        func(2, vec![attr("optimization_hint", Some("straight_line_code")), attr("inline_candidate", None)]),
        func(3, vec![attr("optimization_hint", Some("complex_control_flow"))]),
        func(4, vec![attr("optimization_hint", Some("common_subexpressions"))]),
        func(5, vec![attr("optimization_hint", Some("something_else")), attr("deprecated", None)]),
        func(6, vec![attr("optimization_hint", None)]),
    ];
    let mut hints = SsaOptimizationHints::new();
    extract_ssa_hints_from_hir(&mut hints, &functions);
    assert_eq!(ids(&hints.inline_candidates), vec![1, 2]);
    assert_eq!(ids(&hints.straight_line_functions), vec![2]);
    assert_eq!(ids(&hints.complex_control_flow_functions), vec![3]);
    assert_eq!(ids(&hints.cse_opportunities), vec![4]);
}

#[test]
fn only_the_first_argument_of_a_hint_counts() {
    let functions = vec![func(
        7,
        vec![HirAttribute {
            name: "optimization_hint".to_string(),
            args: vec![
                HirAttributeArg::Literal(HirLiteral::Int(3)),
                HirAttributeArg::Literal(HirLiteral::String("straight_line_code".to_string())),
            ],
        }],
    )];
    let mut hints = SsaOptimizationHints::new();
    extract_ssa_hints_from_hir(&mut hints, &functions);
    assert!(hints.straight_line_functions.is_empty());
}

#[test]
fn extracting_twice_adds_nothing_new() {
    let functions = vec![func(1, vec![attr("inline_candidate", None), attr("inline_candidate", None)])];
    let mut hints = SsaOptimizationHints::new();
    extract_ssa_hints_from_hir(&mut hints, &functions);
    extract_ssa_hints_from_hir(&mut hints, &functions);
    assert_eq!(ids(&hints.inline_candidates), vec![1]);
}
