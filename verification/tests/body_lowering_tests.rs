use rayzor_ir::blocks::IrBasicBlock;
use rayzor_ir::builder::FunctionSignatureBuilder;
use rayzor_ir::hir::{
    HirBinaryOp, HirBlock, HirExpr, HirExprKind, HirFunction, HirLValue, HirLiteral, HirModule, HirParam, HirPattern,
    HirStatement, HirUnaryOp, PropertyAccessInfo, PropertyAccessor, TypeId, TypeKind, TypeTable,
};
use rayzor_ir::ids::{IrBlockId, IrFunctionId, IrId, SymbolId};
use rayzor_ir::instructions::{IrInstruction, IrPhiNode, IrTerminator};
use rayzor_ir::lowering::HirToMirContext;
use rayzor_ir::module_lowering::{lower_hir_to_mir, lower_hir_to_mir_with_externals, lower_hir_to_mir_with_function_map};
use rayzor_ir::types::{BinaryOp, CompareOp, IrType, IrValue};

fn table() -> TypeTable {
    TypeTable { types: vec![(TypeId(0), TypeKind::Int), (TypeId(1), TypeKind::Bool), (TypeId(2), TypeKind::Float)] }
}

fn ctx() -> HirToMirContext {
    let mut c = HirToMirContext::new("m".to_string(), "m.hx".to_string());
    let sig = FunctionSignatureBuilder::new().param("p".to_string(), IrType::I32).build();
    c.builder.start_function(SymbolId(100), "f".to_string(), sig);
    c.symbol_map.push((SymbolId(50), IrId(0)));
    c
}

fn ilit(v: i64) -> HirExpr {
    HirExpr { kind: HirExprKind::Literal(HirLiteral::Int(v)), ty: TypeId(0) }
}

fn var(s: u32) -> HirExpr {
    HirExpr { kind: HirExprKind::Variable { symbol: SymbolId(s) }, ty: TypeId(0) }
}

fn bin(op: HirBinaryOp, l: HirExpr, r: HirExpr) -> HirExpr {
    HirExpr { kind: HirExprKind::Binary { op, lhs: Box::new(l), rhs: Box::new(r) }, ty: TypeId(0) }
}

fn let_(s: u32, init: HirExpr) -> HirStatement {
    HirStatement::Let {
        pattern: HirPattern::Variable { symbol: SymbolId(s), name: "x".to_string() },
        type_hint: None,
        init: Some(init),
        is_mutable: true,
    }
}

fn assign(s: u32, rhs: HirExpr) -> HirStatement {
    HirStatement::Assign { lhs: HirLValue::Variable(SymbolId(s)), rhs, op: None }
}

fn block(statements: Vec<HirStatement>) -> HirBlock {
    HirBlock { statements, expr: None }
}

fn blk(c: &HirToMirContext, b: u32) -> &IrBasicBlock {
    c.builder.current_function().unwrap().cfg.get_block(IrBlockId(b)).unwrap()
}

fn insts(c: &HirToMirContext, b: u32) -> &Vec<IrInstruction> {
    &blk(c, b).instructions
}

fn phis(c: &HirToMirContext, b: u32) -> &Vec<IrPhiNode> {
    &blk(c, b).phi_nodes
}

fn term(c: &HirToMirContext, b: u32) -> &IrTerminator {
    &blk(c, b).terminator
}

fn local_name(c: &HirToMirContext, r: u32) -> Option<String> {
    let f = c.builder.current_function().unwrap();
    f.locals.iter().rev().find(|e| e.0 == IrId(r)).map(|e| e.1.name.clone())
}

#[test]
fn arithmetic_lowers_operands_first() {
    let mut c = ctx();
    let t = table();
    let r = c.lower_expression(&t, &bin(HirBinaryOp::Add, var(50), ilit(1)));
    assert_eq!(r, Some(IrId(2)));
    assert_eq!(*insts(&c, 0),
        vec![
            IrInstruction::Const { dest: IrId(1), value: IrValue::I32(1) },
            IrInstruction::BinOp { dest: IrId(2), op: BinaryOp::Add, left: IrId(0), right: IrId(1) },
        ]
    );
}

#[test]
fn comparison_becomes_cmp() {
    let mut c = ctx();
    let r = c.lower_expression(&table(), &bin(HirBinaryOp::Lt, var(50), var(50)));
    assert_eq!(r, Some(IrId(1)));
    assert_eq!(*insts(&c, 0), vec![IrInstruction::Cmp { dest: IrId(1), op: CompareOp::Lt, left: IrId(0), right: IrId(0) }]);
}

#[test]
fn unknown_variable_gives_nothing() {
    let mut c = ctx();
    assert_eq!(c.lower_expression(&table(), &bin(HirBinaryOp::Add, var(9), ilit(1))), None);
    assert!(insts(&c, 0).is_empty());
}

#[test]
fn division_converts_integer_operands() {
    let mut c = ctx();
    let r = c.lower_expression(&table(), &bin(HirBinaryOp::Div, var(50), var(50)));
    assert_eq!(r, Some(IrId(3)));
    assert_eq!(*insts(&c, 0),
        vec![
            IrInstruction::Cast { dest: IrId(1), src: IrId(0), from_ty: IrType::I32, to_ty: IrType::F64 },
            IrInstruction::Cast { dest: IrId(2), src: IrId(0), from_ty: IrType::I32, to_ty: IrType::F64 },
            IrInstruction::BinOp { dest: IrId(3), op: BinaryOp::Div, left: IrId(1), right: IrId(2) },
        ]
    );
}

#[test]
fn post_increment_rebinds_and_gives_old_value() {
    let mut c = ctx();
    let e = HirExpr { kind: HirExprKind::Unary { op: HirUnaryOp::PostIncr, operand: Box::new(var(50)) }, ty: TypeId(0) };
    assert_eq!(c.lower_expression(&table(), &e), Some(IrId(0)));
    assert_eq!(c.lower_expression(&table(), &var(50)), Some(IrId(2)));
}

#[test]
fn regex_literal_is_refused() {
    let mut c = ctx();
    let e = HirExpr { kind: HirExprKind::Literal(HirLiteral::Regex), ty: TypeId(0) };
    assert_eq!(c.lower_expression(&table(), &e), None);
    assert_eq!(c.errors[0].message, "Regex literals not yet supported in MIR");
}

#[test]
fn call_of_known_function_is_direct() {
    let mut c = ctx();
    c.function_map.push((SymbolId(7), IrFunctionId(3)));
    let e = HirExpr { kind: HirExprKind::Call { callee: Box::new(var(7)), args: vec![ilit(2), var(50)] }, ty: TypeId(0) };
    assert_eq!(c.lower_expression(&table(), &e), Some(IrId(2)));
    assert_eq!(
        insts(&c, 0)[1],
        IrInstruction::CallDirect { dest: Some(IrId(2)), func_id: IrFunctionId(3), args: vec![IrId(1), IrId(0)] }
    );
}

#[test]
fn call_through_a_value_is_indirect_and_skips_missing_arguments() {
    let mut c = ctx();
    let e = HirExpr { kind: HirExprKind::Call { callee: Box::new(var(50)), args: vec![var(9), ilit(4)] }, ty: TypeId(0) };
    assert_eq!(c.lower_expression(&table(), &e), Some(IrId(2)));
    assert_eq!(
        insts(&c, 0)[1],
        IrInstruction::CallIndirect { dest: Some(IrId(2)), func_ptr: IrId(0), args: vec![IrId(1)] }
    );
}

#[test]
fn declaration_binds_and_records_a_local() {
    let mut c = ctx();
    c.lower_statement(&table(), &let_(5, ilit(3)));
    assert_eq!(c.lower_expression(&table(), &var(5)), Some(IrId(1)));
    assert_eq!(local_name(&c, 1), Some("x".to_string()));
}

#[test]
fn assignment_records_the_new_register() {
    let mut c = ctx();
    c.lower_statement(&table(), &assign(50, ilit(8)));
    assert_eq!(c.lower_expression(&table(), &var(50)), Some(IrId(1)));
    assert_eq!(local_name(&c, 1), Some("var_50_v1".to_string()));
}

#[test]
fn compound_assignment_combines_with_the_old_value() {
    let mut c = ctx();
    let s = HirStatement::Assign { lhs: HirLValue::Variable(SymbolId(50)), rhs: ilit(2), op: Some(HirBinaryOp::Mul) };
    c.lower_statement(&table(), &s);
    assert_eq!(insts(&c, 0)[1], IrInstruction::BinOp { dest: IrId(2), op: BinaryOp::Mul, left: IrId(0), right: IrId(1) });
    assert_eq!(c.lower_expression(&table(), &var(50)), Some(IrId(2)));
    assert_eq!(local_name(&c, 2), Some("_binop2".to_string()));
}

#[test]
fn tuple_pattern_extracts_each_element() {
    let mut c = ctx();
    let p = HirPattern::Tuple(vec![
        HirPattern::Variable { symbol: SymbolId(6), name: "a".to_string() },
        HirPattern::Wildcard,
    ]);
    c.bind_pattern(&p, IrId(0));
    assert_eq!(*insts(&c, 0),
        vec![
            IrInstruction::ExtractValue { dest: IrId(1), aggregate: IrId(0), indices: vec![0] },
            IrInstruction::ExtractValue { dest: IrId(2), aggregate: IrId(0), indices: vec![1] },
        ]
    );
    assert_eq!(c.lower_expression(&table(), &var(6)), Some(IrId(1)));
}

#[test]
fn constructor_and_array_patterns_are_refused() {
    let mut c = ctx();
    c.bind_pattern(&HirPattern::Constructor { variant: "A".to_string(), fields: vec![] }, IrId(0));
    c.bind_pattern(&HirPattern::Array { elements: vec![], rest: None }, IrId(0));
    assert_eq!(c.errors[0].message, "Constructor patterns not yet supported in MIR lowering");
    assert_eq!(c.errors[1].message, "Array patterns not yet supported in MIR lowering");
}

#[test]
fn return_ends_the_block() {
    let mut c = ctx();
    c.lower_statement(&table(), &HirStatement::Return(Some(var(50))));
    assert_eq!(*term(&c, 0), IrTerminator::Return { value: Some(IrId(0)) });
}

#[test]
fn labelled_block_gets_its_own_block() {
    let mut c = ctx();
    c.lower_statement(&table(), &HirStatement::Label { symbol: SymbolId(9), block: block(vec![]) });
    assert_eq!(*term(&c, 0), IrTerminator::Branch { target: IrBlockId(1) });
    let f = c.builder.current_function().unwrap();
    assert_eq!(f.cfg.get_block(IrBlockId(1)).unwrap().label, Some("label_9".to_string()));
    assert_eq!(c.builder.current_block(), Some(IrBlockId(1)));
}

#[test]
fn while_loop_carries_variables_through_phis() {
    let mut c = ctx();
    let t = table();
    c.lower_statement(&t, &let_(5, ilit(0)));
    let w = HirStatement::While {
        condition: bin(HirBinaryOp::Lt, var(5), ilit(10)),
        body: block(vec![assign(5, bin(HirBinaryOp::Add, var(5), ilit(1)))]),
        label: None,
    };
    c.lower_statement(&t, &w);
    assert_eq!(*term(&c, 0), IrTerminator::Branch { target: IrBlockId(1) });
    assert_eq!(*phis(&c, 1),
        vec![IrPhiNode { dest: IrId(2), incoming: vec![(IrBlockId(0), IrId(1)), (IrBlockId(2), IrId(7))], ty: IrType::I32 }]
    );
    assert_eq!(*term(&c, 1),
        IrTerminator::CondBranch { condition: IrId(4), true_target: IrBlockId(2), false_target: IrBlockId(3) }
    );
    assert_eq!(*term(&c, 2), IrTerminator::Branch { target: IrBlockId(1) });
    assert_eq!(*phis(&c, 3),
        vec![IrPhiNode { dest: IrId(5), incoming: vec![(IrBlockId(1), IrId(2))], ty: IrType::I32 }]
    );
    assert_eq!(local_name(&c, 2), Some("x_phi".to_string()));
    assert_eq!(local_name(&c, 5), Some("loop_exit_5".to_string()));
    assert_eq!(c.builder.current_block(), Some(IrBlockId(3)));
    assert!(c.loop_stack.is_empty());
    assert_eq!(c.lower_expression(&t, &var(5)), Some(IrId(5)));
}

#[test]
fn do_while_loop_runs_the_body_first() {
    let mut c = ctx();
    let t = table();
    c.lower_statement(&t, &let_(5, ilit(0)));
    let d = HirStatement::DoWhile {
        body: block(vec![assign(5, bin(HirBinaryOp::Add, var(5), ilit(1)))]),
        condition: bin(HirBinaryOp::Lt, var(5), ilit(10)),
        label: None,
    };
    c.lower_statement(&t, &d);
    assert_eq!(*term(&c, 0), IrTerminator::Branch { target: IrBlockId(1) });
    assert_eq!(*phis(&c, 1),
        vec![IrPhiNode { dest: IrId(2), incoming: vec![(IrBlockId(0), IrId(1)), (IrBlockId(2), IrId(4))], ty: IrType::I32 }]
    );
    assert_eq!(*term(&c, 1), IrTerminator::Branch { target: IrBlockId(2) });
    assert_eq!(*term(&c, 2),
        IrTerminator::CondBranch { condition: IrId(6), true_target: IrBlockId(1), false_target: IrBlockId(3) }
    );
    assert_eq!(*phis(&c, 3),
        vec![IrPhiNode { dest: IrId(7), incoming: vec![(IrBlockId(2), IrId(4))], ty: IrType::I32 }]
    );
    assert_eq!(c.lower_expression(&t, &var(5)), Some(IrId(7)));
}

#[test]
fn break_in_a_loop_feeds_the_exit_phis() {
    let mut c = ctx();
    let t = table();
    c.lower_statement(&t, &let_(5, ilit(0)));
    let w = HirStatement::While {
        condition: var(5),
        body: block(vec![assign(5, ilit(3)), HirStatement::Break(None)]),
        label: None,
    };
    c.lower_statement(&t, &w);
    // the body jumped to the exit itself, so it does not jump back
    assert_eq!(*term(&c, 2), IrTerminator::Branch { target: IrBlockId(3) });
    assert_eq!(*phis(&c, 3),
        vec![IrPhiNode { dest: IrId(3), incoming: vec![(IrBlockId(1), IrId(2)), (IrBlockId(2), IrId(4))], ty: IrType::I32 }]
    );
}

#[test]
fn if_else_merges_modified_variables() {
    let mut c = ctx();
    let t = table();
    c.lower_statement(&t, &let_(5, ilit(0)));
    let cond = HirExpr { kind: HirExprKind::Literal(HirLiteral::Bool(true)), ty: TypeId(1) };
    let s = HirStatement::If {
        condition: cond,
        then_branch: block(vec![assign(5, ilit(1))]),
        else_branch: Some(block(vec![assign(5, ilit(2))])),
    };
    c.lower_statement(&t, &s);
    assert_eq!(*term(&c, 0),
        IrTerminator::CondBranch { condition: IrId(2), true_target: IrBlockId(1), false_target: IrBlockId(3) }
    );
    assert_eq!(*term(&c, 1), IrTerminator::Branch { target: IrBlockId(2) });
    assert_eq!(*term(&c, 3), IrTerminator::Branch { target: IrBlockId(2) });
    assert_eq!(*phis(&c, 2),
        vec![IrPhiNode { dest: IrId(5), incoming: vec![(IrBlockId(1), IrId(3)), (IrBlockId(3), IrId(4))], ty: IrType::I32 }]
    );
    assert_eq!(c.builder.current_block(), Some(IrBlockId(2)));
    assert_eq!(c.lower_expression(&t, &var(5)), Some(IrId(5)));
}

#[test]
fn if_without_else_merges_with_the_value_before() {
    let mut c = ctx();
    let t = table();
    c.lower_statement(&t, &let_(5, ilit(0)));
    let cond = HirExpr { kind: HirExprKind::Literal(HirLiteral::Bool(false)), ty: TypeId(1) };
    let s = HirStatement::If { condition: cond, then_branch: block(vec![assign(5, ilit(1))]), else_branch: None };
    c.lower_statement(&t, &s);
    assert_eq!(*term(&c, 0),
        IrTerminator::CondBranch { condition: IrId(2), true_target: IrBlockId(1), false_target: IrBlockId(2) }
    );
    assert_eq!(*phis(&c, 2),
        vec![IrPhiNode { dest: IrId(4), incoming: vec![(IrBlockId(1), IrId(3)), (IrBlockId(0), IrId(1))], ty: IrType::I32 }]
    );
}

fn add_module(body: HirBlock) -> HirModule {
    let f = HirFunction {
        symbol_id: SymbolId(3),
        name: Some("add".to_string()),
        type_params: vec![],
        params: vec![
            HirParam { symbol_id: SymbolId(31), name: "a".to_string(), ty: TypeId(0) },
            HirParam { symbol_id: SymbolId(32), name: "b".to_string(), ty: TypeId(0) },
        ],
        return_type: TypeId(0),
        is_extern: false,
        metadata: vec![],
        body: Some(body),
    };
    HirModule { name: "m".to_string(), source_file: "m.hx".to_string(), functions: vec![(SymbolId(3), f)] }
}

#[test]
fn module_lowering_builds_each_function() {
    let m = add_module(block(vec![HirStatement::Return(Some(bin(HirBinaryOp::Add, var(31), var(32))))]));
    let module = lower_hir_to_mir(&table(), &m).unwrap();
    assert_eq!(module.name, "m");
    assert_eq!(module.functions.len(), 1);
    let entry = module.functions[0].cfg.get_block(IrBlockId(0)).unwrap();
    assert_eq!(entry.instructions, vec![IrInstruction::BinOp { dest: IrId(2), op: BinaryOp::Add, left: IrId(0), right: IrId(1) }]);
    assert_eq!(entry.terminator, IrTerminator::Return { value: Some(IrId(2)) });
}

#[test]
fn module_lowering_gives_a_return_where_the_body_does_not_end() {
    let m = add_module(block(vec![]));
    let module = lower_hir_to_mir_with_externals(&table(), &m, vec![(SymbolId(40), IrFunctionId(9))]).unwrap();
    let entry = module.functions[0].cfg.get_block(IrBlockId(0)).unwrap();
    assert_eq!(entry.terminator, IrTerminator::Return { value: None });
}

#[test]
fn module_lowering_hands_back_the_errors() {
    let m = add_module(block(vec![HirStatement::Break(None)]));
    let errors = lower_hir_to_mir(&table(), &m).unwrap_err();
    assert_eq!(errors.len(), 1);
    assert_eq!(errors[0].message, "Break outside of loop");
}

#[test]
fn module_lowering_reports_the_function_map() {
    let m = add_module(block(vec![]));
    let result = lower_hir_to_mir_with_function_map(&table(), &m, vec![]).unwrap();
    assert_eq!(result.function_map, vec![(SymbolId(3), IrFunctionId(0))]);
    assert_eq!(result.module.functions.len(), 1);
}

#[test]
fn field_of_a_class_is_loaded_from_its_slot() {
    let mut c = ctx();
    c.field_index_map.push((SymbolId(60), (TypeId(9), 2)));
    let r = c.lower_field_access_for_class(&table(), IrId(0), SymbolId(60), TypeId(0));
    assert_eq!(r, Some(IrId(3)));
    assert_eq!(
        *insts(&c, 0),
        vec![
            IrInstruction::Const { dest: IrId(1), value: IrValue::I32(2) },
            IrInstruction::GetElementPtr { dest: IrId(2), ptr: IrId(0), indices: vec![IrId(1)], ty: IrType::I32 },
            IrInstruction::Load { dest: IrId(3), ptr: IrId(2), ty: IrType::I32 },
        ]
    );
}

#[test]
fn unknown_field_is_an_error() {
    let mut c = ctx();
    assert_eq!(c.lower_field_access_for_class(&table(), IrId(0), SymbolId(61), TypeId(0)), None);
    assert_eq!(c.errors[0].message, "Field index not found for raw pointer access");
    assert_eq!(c.lower_field_access(&table(), IrId(0), SymbolId(61), TypeId(9), TypeId(0)), None);
    assert_eq!(c.errors[1].message, "Field index not found - class may not be registered");
}

#[test]
fn property_with_a_getter_calls_it() {
    let mut c = ctx();
    c.property_access_map.push((
        SymbolId(62),
        PropertyAccessInfo { getter: PropertyAccessor::Method("f".to_string()), setter: PropertyAccessor::Default },
    ));
    let r = c.lower_field_access(&table(), IrId(0), SymbolId(62), TypeId(9), TypeId(0));
    assert_eq!(r, Some(IrId(1)));
    assert_eq!(
        *insts(&c, 0),
        vec![IrInstruction::CallDirect { dest: Some(IrId(1)), func_id: IrFunctionId(0), args: vec![IrId(0)] }]
    );
    c.property_access_map.push((
        SymbolId(63),
        PropertyAccessInfo { getter: PropertyAccessor::Method("g".to_string()), setter: PropertyAccessor::Default },
    ));
    assert_eq!(c.lower_field_access(&table(), IrId(0), SymbolId(63), TypeId(9), TypeId(0)), None);
    assert_eq!(c.errors[0].message, "Property getter method 'g' not found");
    c.property_access_map.push((
        SymbolId(64),
        PropertyAccessInfo { getter: PropertyAccessor::Never, setter: PropertyAccessor::Default },
    ));
    assert_eq!(c.lower_field_access(&table(), IrId(0), SymbolId(64), TypeId(9), TypeId(0)), None);
    assert_eq!(c.errors[1].message, "Cannot read from write-only property (Null or Never getter)");
}

#[test]
fn field_expression_reads_the_object_first() {
    let mut c = ctx();
    c.field_index_map.push((SymbolId(60), (TypeId(9), 0)));
    let e = HirExpr { kind: HirExprKind::Field { object: Box::new(var(50)), field: SymbolId(60) }, ty: TypeId(1) };
    assert_eq!(c.lower_expression(&table(), &e), Some(IrId(3)));
    assert_eq!(insts(&c, 0)[2], IrInstruction::Load { dest: IrId(3), ptr: IrId(2), ty: IrType::Bool });
}

#[test]
fn wildcard_and_variable_patterns_always_match() {
    let mut c = ctx();
    assert_eq!(c.lower_pattern_test(&table(), IrId(0), &HirPattern::Wildcard), Some(IrId(1)));
    let p = HirPattern::Variable { symbol: SymbolId(70), name: "v".to_string() };
    assert_eq!(c.lower_pattern_test(&table(), IrId(0), &p), Some(IrId(2)));
    assert_eq!(insts(&c, 0)[1], IrInstruction::Const { dest: IrId(2), value: IrValue::Bool(true) });
    assert_eq!(c.lower_expression(&table(), &var(70)), Some(IrId(0)));
}

#[test]
fn literal_pattern_compares_for_equality() {
    let mut c = ctx();
    let t = TypeTable { types: vec![(TypeId(1), TypeKind::Int)] };
    let r = c.lower_pattern_test(&t, IrId(0), &HirPattern::Literal(HirLiteral::Int(4)));
    assert_eq!(r, Some(IrId(2)));
    assert_eq!(
        *insts(&c, 0),
        vec![
            IrInstruction::Const { dest: IrId(1), value: IrValue::I32(4) },
            IrInstruction::Cmp { dest: IrId(2), op: CompareOp::Eq, left: IrId(0), right: IrId(1) },
        ]
    );
}

#[test]
fn constructor_pattern_compares_the_tag_then_the_fields() {
    let mut c = ctx();
    let p = HirPattern::Constructor { variant: "Some".to_string(), fields: vec![HirPattern::Wildcard] };
    let r = c.lower_pattern_test(&table(), IrId(0), &p);
    assert_eq!(r, Some(IrId(10)));
    assert_eq!(
        *insts(&c, 0),
        vec![
            IrInstruction::Const { dest: IrId(1), value: IrValue::I64(0) },
            IrInstruction::GetElementPtr {
                dest: IrId(2),
                ptr: IrId(0),
                indices: vec![IrId(1)],
                ty: IrType::Ptr(Box::new(IrType::I32)),
            },
            IrInstruction::Load { dest: IrId(3), ptr: IrId(2), ty: IrType::I32 },
            IrInstruction::Const { dest: IrId(4), value: IrValue::I32(4) },
            IrInstruction::Cmp { dest: IrId(5), op: CompareOp::Eq, left: IrId(3), right: IrId(4) },
            IrInstruction::Const { dest: IrId(6), value: IrValue::I64(1) },
            IrInstruction::GetElementPtr {
                dest: IrId(7),
                ptr: IrId(0),
                indices: vec![IrId(6)],
                ty: IrType::Ptr(Box::new(IrType::Any)),
            },
            IrInstruction::Load { dest: IrId(8), ptr: IrId(7), ty: IrType::Any },
            IrInstruction::Const { dest: IrId(9), value: IrValue::Bool(true) },
            IrInstruction::BinOp { dest: IrId(10), op: BinaryOp::And, left: IrId(5), right: IrId(9) },
        ]
    );
}

#[test]
fn array_pattern_checks_the_length() {
    let mut c = ctx();
    let exact = HirPattern::Array { elements: vec![], rest: None };
    assert_eq!(c.lower_pattern_test(&table(), IrId(0), &exact), Some(IrId(7)));
    assert_eq!(insts(&c, 0)[5], IrInstruction::Cmp { dest: IrId(6), op: CompareOp::Eq, left: IrId(3), right: IrId(5) });
    let open = HirPattern::Array { elements: vec![], rest: Some(Box::new(HirPattern::Wildcard)) };
    assert_eq!(c.lower_pattern_test(&table(), IrId(0), &open), Some(IrId(14)));
    assert_eq!(insts(&c, 0)[12], IrInstruction::Cmp { dest: IrId(13), op: CompareOp::Ge, left: IrId(10), right: IrId(12) });
}

#[test]
fn empty_tuple_pattern_matches() {
    let mut c = ctx();
    assert_eq!(c.lower_pattern_test(&table(), IrId(0), &HirPattern::Tuple(vec![])), Some(IrId(1)));
}

fn cond_expr(c: HirExpr, t: HirExpr, e: HirExpr) -> HirExpr {
    HirExpr { kind: HirExprKind::If { condition: Box::new(c), then_expr: Box::new(t), else_expr: Box::new(e) }, ty: TypeId(0) }
}

#[test]
fn conditional_expression_joins_its_arms_in_a_phi() {
    let mut c = ctx();
    let t = table();
    let yes = HirExpr { kind: HirExprKind::Literal(HirLiteral::Bool(true)), ty: TypeId(1) };
    let r = c.lower_expression(&t, &cond_expr(yes, ilit(1), ilit(2)));
    assert_eq!(r, Some(IrId(4)));
    assert_eq!(
        *term(&c, 0),
        IrTerminator::CondBranch { condition: IrId(1), true_target: IrBlockId(1), false_target: IrBlockId(2) }
    );
    assert_eq!(*term(&c, 1), IrTerminator::Branch { target: IrBlockId(3) });
    assert_eq!(*term(&c, 2), IrTerminator::Branch { target: IrBlockId(3) });
    assert_eq!(
        *phis(&c, 3),
        vec![IrPhiNode { dest: IrId(4), incoming: vec![(IrBlockId(1), IrId(2)), (IrBlockId(2), IrId(3))], ty: IrType::I32 }]
    );
    assert_eq!(c.builder.current_block(), Some(IrBlockId(3)));
}

#[test]
fn conditional_expression_merges_a_variable_one_arm_changed() {
    let mut c = ctx();
    let t = table();
    c.lower_statement(&t, &let_(5, ilit(0)));
    let yes = HirExpr { kind: HirExprKind::Literal(HirLiteral::Bool(true)), ty: TypeId(1) };
    let incr = HirExpr { kind: HirExprKind::Unary { op: HirUnaryOp::PreIncr, operand: Box::new(var(5)) }, ty: TypeId(0) };
    let r = c.lower_expression(&t, &cond_expr(yes, incr, var(5)));
    assert_eq!(r, Some(IrId(6)));
    assert_eq!(
        *phis(&c, 3),
        vec![
            IrPhiNode { dest: IrId(5), incoming: vec![(IrBlockId(1), IrId(4)), (IrBlockId(2), IrId(1))], ty: IrType::I32 },
            IrPhiNode { dest: IrId(6), incoming: vec![(IrBlockId(1), IrId(4)), (IrBlockId(2), IrId(1))], ty: IrType::I32 },
        ]
    );
    assert_eq!(c.lower_expression(&t, &var(5)), Some(IrId(5)));
    // the phi's local is named after the register the then arm left, which has none
    assert_eq!(local_name(&c, 5), None);
}

#[test]
fn logical_and_skips_the_right_side_when_the_left_is_false() {
    let mut c = ctx();
    let r = c.lower_expression(&table(), &bin(HirBinaryOp::And, var(50), var(50)));
    assert_eq!(r, Some(IrId(2)));
    assert_eq!(*insts(&c, 0), vec![IrInstruction::Const { dest: IrId(1), value: IrValue::Bool(false) }]);
    assert_eq!(
        *term(&c, 0),
        IrTerminator::CondBranch { condition: IrId(0), true_target: IrBlockId(1), false_target: IrBlockId(2) }
    );
    assert_eq!(*term(&c, 1), IrTerminator::Branch { target: IrBlockId(2) });
    assert_eq!(
        *phis(&c, 2),
        vec![IrPhiNode { dest: IrId(2), incoming: vec![(IrBlockId(0), IrId(1)), (IrBlockId(1), IrId(0))], ty: IrType::Bool }]
    );
}

#[test]
fn logical_or_skips_the_right_side_when_the_left_is_true() {
    let mut c = ctx();
    let r = c.lower_expression(&table(), &bin(HirBinaryOp::Or, var(50), var(50)));
    assert_eq!(r, Some(IrId(2)));
    assert_eq!(*insts(&c, 0), vec![IrInstruction::Const { dest: IrId(1), value: IrValue::Bool(true) }]);
    assert_eq!(
        *term(&c, 0),
        IrTerminator::CondBranch { condition: IrId(0), true_target: IrBlockId(2), false_target: IrBlockId(1) }
    );
}

#[test]
fn cast_converts_between_the_two_types() {
    let mut c = ctx();
    let e = HirExpr { kind: HirExprKind::Cast { expr: Box::new(var(50)), target: TypeId(2) }, ty: TypeId(2) };
    assert_eq!(c.lower_expression(&table(), &e), Some(IrId(1)));
    assert_eq!(
        *insts(&c, 0),
        vec![IrInstruction::Cast { dest: IrId(1), src: IrId(0), from_ty: IrType::I32, to_ty: IrType::F64 }]
    );
}
