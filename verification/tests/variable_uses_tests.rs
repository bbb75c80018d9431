use rayzor_ir::hir::{HirBinaryOp, HirBlock, HirExpr, HirExprKind, HirLValue, HirLiteral, HirPattern, HirStatement, TypeId};
use rayzor_ir::ids::SymbolId;
use rayzor_ir::variable_uses::{
    collect_pattern_variables, collect_referenced_variables_in_block, collect_referenced_variables_in_expr,
    collect_referenced_variables_in_stmt, find_modified_variables_in_block, find_modified_variables_in_expression,
    find_modified_variables_in_statement,
};

fn var(s: u32) -> HirExpr {
    HirExpr { kind: HirExprKind::Variable { symbol: SymbolId(s) }, ty: TypeId(0) }
}

fn lit() -> HirExpr {
    HirExpr { kind: HirExprKind::Literal(HirLiteral::Int(0)), ty: TypeId(0) }
}

fn add(l: HirExpr, r: HirExpr) -> HirExpr {
    HirExpr { kind: HirExprKind::Binary { op: HirBinaryOp::Add, lhs: Box::new(l), rhs: Box::new(r) }, ty: TypeId(0) }
}

fn block(statements: Vec<HirStatement>) -> HirBlock {
    HirBlock { statements, expr: None }
}

fn assign(s: u32, rhs: HirExpr) -> HirStatement {
    HirStatement::Assign { lhs: HirLValue::Variable(SymbolId(s)), rhs, op: None }
}

fn pvar(s: u32) -> HirPattern {
    HirPattern::Variable { symbol: SymbolId(s), name: format!("v{}", s) }
}

fn let_(s: u32, init: HirExpr) -> HirStatement {
    HirStatement::Let { pattern: pvar(s), type_hint: None, init: Some(init), is_mutable: true }
}

fn sorted(mut v: Vec<SymbolId>) -> Vec<u32> {
    v.sort_by_key(|s| s.0);
    v.into_iter().map(|s| s.0).collect()
}

#[test]
fn expression_references_each_variable_once() {
    let e = add(var(1), add(var(2), var(1)));
    let mut vars = Vec::new();
    collect_referenced_variables_in_expr(&e, &mut vars);
    assert_eq!(sorted(vars), vec![1, 2]);
}

#[test]
fn call_references_callee_and_arguments() {
    let e = HirExpr {
        kind: HirExprKind::Call { callee: Box::new(var(9)), args: vec![var(3), lit(), var(4)] },
        ty: TypeId(0),
    };
    let mut vars = vec![SymbolId(3)];
    collect_referenced_variables_in_expr(&e, &mut vars);
    assert_eq!(sorted(vars), vec![3, 4, 9]);
}

#[test]
fn while_loop_references_condition_body_and_assigned_variables() {
    let stmt = HirStatement::While {
        condition: var(1),
        body: block(vec![
            assign(2, add(var(2), var(3))),
            let_(5, var(4)),
        ]),
        label: None,
    };
    let mut vars = Vec::new();
    collect_referenced_variables_in_stmt(&stmt, &mut vars);
    assert_eq!(sorted(vars), vec![1, 2, 3, 4]);
}

#[test]
fn trailing_expression_of_block_is_not_walked() {
    let b = HirBlock { statements: vec![HirStatement::Expr(var(1))], expr: Some(Box::new(var(2))) };
    let mut vars = Vec::new();
    collect_referenced_variables_in_block(&b, &mut vars);
    assert_eq!(sorted(vars), vec![1]);
}

#[test]
fn continue_and_break_refer_to_nothing() {
    let mut vars = Vec::new();
    collect_referenced_variables_in_stmt(&HirStatement::Continue(None), &mut vars);
    collect_referenced_variables_in_stmt(&HirStatement::Break(None), &mut vars);
    assert!(vars.is_empty());
}

#[test]
fn pattern_binds_nested_variables() {
    let p = HirPattern::Tuple(vec![
        pvar(1),
        HirPattern::Array {
            elements: vec![HirPattern::Wildcard, pvar(2)],
            rest: Some(Box::new(pvar(3))),
        },
        HirPattern::Constructor { variant: "Some".to_string(), fields: vec![pvar(1), HirPattern::Literal(HirLiteral::Int(3))] },
    ]);
    let mut vars = Vec::new();
    collect_pattern_variables(&p, &mut vars);
    assert_eq!(sorted(vars), vec![1, 2, 3]);
}

#[test]
fn block_modifies_declared_and_assigned_variables() {
    let b = block(vec![
        let_(1, var(7)),
        assign(2, var(8)),
        HirStatement::If {
            condition: var(9),
            then_branch: block(vec![assign(3, lit())]),
            else_branch: Some(block(vec![assign(4, lit())])),
        },
        HirStatement::Label { symbol: SymbolId(20), block: block(vec![assign(5, lit())]) },
        HirStatement::Expr(var(10)),
    ]);
    assert_eq!(sorted(find_modified_variables_in_block(&b)), vec![1, 2, 3, 4, 5]);
}

#[test]
fn loops_modify_what_their_bodies_assign() {
    let mut modified = Vec::new();
    let w = HirStatement::DoWhile { body: block(vec![assign(6, lit())]), condition: var(1), label: None };
    find_modified_variables_in_statement(&w, &mut modified);
    let f = HirStatement::While { condition: var(2), body: block(vec![assign(7, lit()), assign(6, lit())]), label: None };
    find_modified_variables_in_statement(&f, &mut modified);
    assert_eq!(sorted(modified), vec![6, 7]);
}

#[test]
fn call_arguments_are_not_modifications() {
    let e = HirExpr { kind: HirExprKind::Call { callee: Box::new(var(1)), args: vec![var(2), lit()] }, ty: TypeId(0) };
    let mut modified = Vec::new();
    find_modified_variables_in_expression(&e, &mut modified);
    assert!(modified.is_empty());
}

#[test]
fn conditional_expression_refers_to_all_three_parts_and_modifies_none() {
    let e = HirExpr {
        kind: HirExprKind::If { condition: Box::new(var(1)), then_expr: Box::new(var(2)), else_expr: Box::new(lit()) },
        ty: TypeId(0),
    };
    let mut vars = Vec::new();
    collect_referenced_variables_in_expr(&e, &mut vars);
    assert_eq!(sorted(vars), vec![1, 2]);
    let mut modified = Vec::new();
    find_modified_variables_in_expression(&e, &mut modified);
    assert!(modified.is_empty());
}
