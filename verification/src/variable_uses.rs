//! Which local variables a piece of a function body reads or writes.
//!
//! Lowering to SSA form asks these questions before it builds a loop or an
//! `if`: the variables that a loop refers to get a phi node in its header,
//! and the variables that a branch assigns get a phi node where the branches
//! meet. Each walk collects symbols into a set, kept as a vector without
//! duplicates.

use vstd::prelude::*;
use crate::ids::SymbolId;
use crate::hir::{HirBlock, HirExpr, HirExprKind, HirLValue, HirPattern, HirStatement};

verus! {

// ---------------------------------------------------------------------------
// The sets, stated over the syntax
// ---------------------------------------------------------------------------

/// The variables that a pattern binds.
pub open spec fn pattern_vars(p: HirPattern) -> Set<SymbolId>
    decreases p,
{
    match p {
        HirPattern::Variable { symbol, .. } => set![symbol],
        HirPattern::Tuple(ps) => patterns_vars(ps@),
        HirPattern::Constructor { fields, .. } => patterns_vars(fields@),
        HirPattern::Array { elements, rest } => patterns_vars(elements@).union(
            match rest {
                Some(r) => pattern_vars(*r),
                None => Set::empty(),
            },
        ),
        _ => Set::empty(),
    }
}

/// The variables that a list of patterns binds.
pub open spec fn patterns_vars(ps: Seq<HirPattern>) -> Set<SymbolId>
    decreases ps,
{
    if ps.len() == 0 {
        Set::empty()
    } else {
        patterns_vars(ps.drop_last()).union(pattern_vars(ps.last()))
    }
}

/// The variable an assignment target names, if it is a plain variable.
pub open spec fn lvalue_var(lhs: HirLValue) -> Set<SymbolId> {
    match lhs {
        HirLValue::Variable(sym) => set![sym],
        _ => Set::empty(),
    }
}

/// The variables that an expression refers to: variable reads, looking into
/// operators, conditionals, calls (callee and arguments) and the statements
/// of blocks.
pub open spec fn expr_refs(e: HirExpr) -> Set<SymbolId>
    decreases e,
{
    match e.kind {
        HirExprKind::Variable { symbol } => set![symbol],
        HirExprKind::Binary { lhs, rhs, .. } => expr_refs(*lhs).union(expr_refs(*rhs)),
        HirExprKind::Unary { operand, .. } => expr_refs(*operand),
        HirExprKind::If { condition, then_expr, else_expr } => expr_refs(*condition).union(expr_refs(*then_expr)).union(
            expr_refs(*else_expr),
        ),
        HirExprKind::Call { callee, args } => expr_refs(*callee).union(exprs_refs(args@)),
        HirExprKind::Block(b) => stmts_refs(b.statements@),
        _ => Set::empty(),
    }
}

/// The variables that a list of expressions refers to.
pub open spec fn exprs_refs(es: Seq<HirExpr>) -> Set<SymbolId>
    decreases es,
{
    if es.len() == 0 {
        Set::empty()
    } else {
        exprs_refs(es.drop_last()).union(expr_refs(es.last()))
    }
}

/// The variables that a statement refers to: those of its expressions, the
/// variable it assigns, and those of the blocks of an `if` or a loop.
pub open spec fn stmt_refs(s: HirStatement) -> Set<SymbolId>
    decreases s,
{
    match s {
        HirStatement::Let { init, .. } => match init {
            Some(e) => expr_refs(e),
            None => Set::empty(),
        },
        HirStatement::Expr(e) => expr_refs(e),
        HirStatement::Assign { lhs, rhs, .. } => lvalue_var(lhs).union(expr_refs(rhs)),
        HirStatement::Return(value) => match value {
            Some(e) => expr_refs(e),
            None => Set::empty(),
        },
        HirStatement::If { condition, then_branch, else_branch } => expr_refs(condition).union(
            stmts_refs(then_branch.statements@),
        ).union(
            match else_branch {
                Some(b) => stmts_refs(b.statements@),
                None => Set::empty(),
            },
        ),
        HirStatement::While { condition, body, .. } => expr_refs(condition).union(
            stmts_refs(body.statements@),
        ),
        HirStatement::DoWhile { body, condition, .. } => expr_refs(condition).union(
            stmts_refs(body.statements@),
        ),
        _ => Set::empty(),
    }
}

/// The variables that a list of statements refers to.
pub open spec fn stmts_refs(ss: Seq<HirStatement>) -> Set<SymbolId>
    decreases ss,
{
    if ss.len() == 0 {
        Set::empty()
    } else {
        stmts_refs(ss.drop_last()).union(stmt_refs(ss.last()))
    }
}

/// The variables that an expression may assign: looking through operators,
/// the two arms of a conditional and the arguments of calls.
pub open spec fn expr_mods(e: HirExpr) -> Set<SymbolId>
    decreases e,
{
    match e.kind {
        HirExprKind::Binary { lhs, rhs, .. } => expr_mods(*lhs).union(expr_mods(*rhs)),
        HirExprKind::Unary { operand, .. } => expr_mods(*operand),
        HirExprKind::If { then_expr, else_expr, .. } => expr_mods(*then_expr).union(expr_mods(*else_expr)),
        HirExprKind::Call { args, .. } => exprs_mods(args@),
        _ => Set::empty(),
    }
}

/// The variables that a list of expressions may assign.
pub open spec fn exprs_mods(es: Seq<HirExpr>) -> Set<SymbolId>
    decreases es,
{
    if es.len() == 0 {
        Set::empty()
    } else {
        exprs_mods(es.drop_last()).union(expr_mods(es.last()))
    }
}

/// The variables that a statement declares or assigns, looking into the
/// blocks of an `if`, a loop and a labelled block.
pub open spec fn stmt_mods(s: HirStatement) -> Set<SymbolId>
    decreases s,
{
    match s {
        HirStatement::Let { pattern, .. } => pattern_vars(pattern),
        HirStatement::Expr(e) => expr_mods(e),
        HirStatement::Assign { lhs, rhs, .. } => lvalue_var(lhs).union(expr_mods(rhs)),
        HirStatement::If { then_branch, else_branch, .. } => stmts_mods(then_branch.statements@).union(
            match else_branch {
                Some(b) => stmts_mods(b.statements@),
                None => Set::empty(),
            },
        ),
        HirStatement::While { body, .. } => stmts_mods(body.statements@),
        HirStatement::DoWhile { body, .. } => stmts_mods(body.statements@),
        HirStatement::Label { block, .. } => stmts_mods(block.statements@),
        _ => Set::empty(),
    }
}

/// The variables that a list of statements declares or assigns.
pub open spec fn stmts_mods(ss: Seq<HirStatement>) -> Set<SymbolId>
    decreases ss,
{
    if ss.len() == 0 {
        Set::empty()
    } else {
        stmts_mods(ss.drop_last()).union(stmt_mods(ss.last()))
    }
}

/// `after` is `before` with the symbols of `added` put in: as sets, and
/// with no symbol twice.
pub open spec fn grows_by(before: Seq<SymbolId>, after: Seq<SymbolId>, added: Set<SymbolId>) -> bool {
    &&& after.no_duplicates()
    &&& forall|x: SymbolId| after.contains(x) <==> (before.contains(x) || added.contains(x))
}

/// Growing by one set and then by another is growing by their union.
pub proof fn lemma_grows_trans(a: Seq<SymbolId>, b: Seq<SymbolId>, c: Seq<SymbolId>, s1: Set<SymbolId>, s2: Set<SymbolId>)
    requires
        grows_by(a, b, s1),
        grows_by(b, c, s2),
    ensures
        grows_by(a, c, s1.union(s2)),
{
}

/// Adds `sym` to the set `vars`, unless it is there already.
pub(crate) fn insert_symbol(vars: &mut Vec<SymbolId>, sym: SymbolId)
    requires
        old(vars)@.no_duplicates(),
    ensures
        grows_by(old(vars)@, final(vars)@, set![sym]),
{
    let mut i: usize = 0;
    while i < vars.len()
        invariant
            i <= vars.len(),
            vars@.no_duplicates(),
            forall|k: int| 0 <= k < i ==> vars@[k] != sym,
        decreases vars.len() - i,
    {
        if vars[i] == sym {
            assert(vars@.contains(sym));
            return;
        }
        i = i + 1;
    }
    let ghost before = vars@;
    vars.push(sym);
    proof {
        assert(vars@ == before.push(sym));
        assert forall|x: SymbolId| vars@.contains(x) <==> (before.contains(x) || set![sym].contains(x)) by {
            if vars@.contains(x) {
                let k = choose|k: int| 0 <= k < vars@.len() && vars@[k] == x;
                if k < before.len() {
                    assert(before[k] == x);
                }
            }
            if before.contains(x) {
                let k = choose|k: int| 0 <= k < before.len() && before[k] == x;
                assert(vars@[k] == x);
            }
            if x == sym {
                assert(vars@[before.len() as int] == x);
            }
        }
    }
}

/// Adds to `vars` every variable that `expr` refers to.
pub fn collect_referenced_variables_in_expr(expr: &HirExpr, vars: &mut Vec<SymbolId>)
    requires
        old(vars)@.no_duplicates(),
    ensures
        grows_by(old(vars)@, final(vars)@, expr_refs(*expr)),
    decreases expr,
{
    let ghost v0 = vars@;
    match &expr.kind {
        HirExprKind::Variable { symbol } => {
            insert_symbol(vars, *symbol);
        },
        HirExprKind::Binary { lhs, rhs, .. } => {
            collect_referenced_variables_in_expr(lhs, vars);
            let ghost v1 = vars@;
            collect_referenced_variables_in_expr(rhs, vars);
            proof { lemma_grows_trans(v0, v1, vars@, expr_refs(**lhs), expr_refs(**rhs)); }
        },
        HirExprKind::Unary { operand, .. } => {
            collect_referenced_variables_in_expr(operand, vars);
        },
        HirExprKind::If { condition, then_expr, else_expr } => {
            collect_referenced_variables_in_expr(condition, vars);
            let ghost v1 = vars@;
            collect_referenced_variables_in_expr(then_expr, vars);
            let ghost v2 = vars@;
            collect_referenced_variables_in_expr(else_expr, vars);
            proof {
                lemma_grows_trans(v0, v1, v2, expr_refs(**condition), expr_refs(**then_expr));
                lemma_grows_trans(
                    v0,
                    v2,
                    vars@,
                    expr_refs(**condition).union(expr_refs(**then_expr)),
                    expr_refs(**else_expr),
                );
            }
        },
        HirExprKind::Call { callee, args } => {
            collect_referenced_variables_in_expr(callee, vars);
            let ghost v1 = vars@;
            let mut i: usize = 0;
            while i < args.len()
                invariant
                    expr.kind is Call,
                    expr.kind->args == *args,
                    i <= args.len(),
                    grows_by(v1, vars@, exprs_refs(args@.take(i as int))),
                decreases args.len() - i,
            {
                let ghost vi = vars@;
                collect_referenced_variables_in_expr(&args[i], vars);
                proof {
                    lemma_grows_trans(v1, vi, vars@, exprs_refs(args@.take(i as int)), expr_refs(args@[i as int]));
                    assert(args@.take(i + 1).drop_last() =~= args@.take(i as int));
                }
                i = i + 1;
            }
            proof {
                assert(args@.take(args.len() as int) =~= args@);
                lemma_grows_trans(v0, v1, vars@, expr_refs(**callee), exprs_refs(args@));
            }
        },
        HirExprKind::Block(block) => {
            collect_referenced_variables_in_block(block, vars);
        },
        _ => {},
    }
}

/// Adds to `vars` every variable that the statements of `block` refer to
/// (the expression that ends the block is not looked at).
pub fn collect_referenced_variables_in_block(block: &HirBlock, vars: &mut Vec<SymbolId>)
    requires
        old(vars)@.no_duplicates(),
    ensures
        grows_by(old(vars)@, final(vars)@, stmts_refs(block.statements@)),
    decreases block,
{
    let ghost v0 = vars@;
    let mut i: usize = 0;
    while i < block.statements.len()
        invariant
            i <= block.statements.len(),
            grows_by(v0, vars@, stmts_refs(block.statements@.take(i as int))),
        decreases block.statements.len() - i,
    {
        let ghost vi = vars@;
        collect_referenced_variables_in_stmt(&block.statements[i], vars);
        proof {
            lemma_grows_trans(
                v0,
                vi,
                vars@,
                stmts_refs(block.statements@.take(i as int)),
                stmt_refs(block.statements@[i as int]),
            );
            assert(block.statements@.take(i + 1).drop_last() =~= block.statements@.take(i as int));
        }
        i = i + 1;
    }
    proof {
        assert(block.statements@.take(block.statements.len() as int) =~= block.statements@);
    }
}

/// Adds to `vars` every variable that `stmt` refers to.
pub fn collect_referenced_variables_in_stmt(stmt: &HirStatement, vars: &mut Vec<SymbolId>)
    requires
        old(vars)@.no_duplicates(),
    ensures
        grows_by(old(vars)@, final(vars)@, stmt_refs(*stmt)),
    decreases stmt,
{
    let ghost v0 = vars@;
    match stmt {
        HirStatement::Let { init, .. } => {
            if let Some(expr) = init {
                collect_referenced_variables_in_expr(expr, vars);
            }
        },
        HirStatement::Expr(expr) => {
            collect_referenced_variables_in_expr(expr, vars);
        },
        HirStatement::Assign { lhs, rhs, .. } => {
            if let HirLValue::Variable(sym) = lhs {
                insert_symbol(vars, *sym);
            }
            let ghost v1 = vars@;
            collect_referenced_variables_in_expr(rhs, vars);
            proof { lemma_grows_trans(v0, v1, vars@, lvalue_var(*lhs), expr_refs(*rhs)); }
        },
        HirStatement::Return(value) => {
            if let Some(expr) = value {
                collect_referenced_variables_in_expr(expr, vars);
            }
        },
        HirStatement::If { condition, then_branch, else_branch } => {
            collect_referenced_variables_in_expr(condition, vars);
            let ghost v1 = vars@;
            collect_referenced_variables_in_block(then_branch, vars);
            let ghost v2 = vars@;
            if let Some(else_blk) = else_branch {
                collect_referenced_variables_in_block(else_blk, vars);
            }
            proof {
                lemma_grows_trans(v0, v1, v2, expr_refs(*condition), stmts_refs(then_branch.statements@));
                lemma_grows_trans(
                    v0,
                    v2,
                    vars@,
                    expr_refs(*condition).union(stmts_refs(then_branch.statements@)),
                    match else_branch {
                        Some(b) => stmts_refs(b.statements@),
                        None => Set::empty(),
                    },
                );
            }
        },
        HirStatement::While { condition, body, .. } => {
            collect_referenced_variables_in_expr(condition, vars);
            let ghost v1 = vars@;
            collect_referenced_variables_in_block(body, vars);
            proof { lemma_grows_trans(v0, v1, vars@, expr_refs(*condition), stmts_refs(body.statements@)); }
        },
        HirStatement::DoWhile { body, condition, .. } => {
            collect_referenced_variables_in_expr(condition, vars);
            let ghost v1 = vars@;
            collect_referenced_variables_in_block(body, vars);
            proof { lemma_grows_trans(v0, v1, vars@, expr_refs(*condition), stmts_refs(body.statements@)); }
        },
        _ => {},
    }
}

/// Adds to `variables` every variable that `pattern` binds.
pub fn collect_pattern_variables(pattern: &HirPattern, variables: &mut Vec<SymbolId>)
    requires
        old(variables)@.no_duplicates(),
    ensures
        grows_by(old(variables)@, final(variables)@, pattern_vars(*pattern)),
    decreases pattern,
{
    match pattern {
        HirPattern::Variable { symbol, .. } => {
            insert_symbol(variables, *symbol);
        },
        HirPattern::Tuple(patterns) => {
            collect_patterns_variables(patterns, variables);
        },
        HirPattern::Constructor { fields, .. } => {
            collect_patterns_variables(fields, variables);
        },
        HirPattern::Array { elements, rest } => {
            let ghost v0 = variables@;
            collect_patterns_variables(elements, variables);
            let ghost v1 = variables@;
            if let Some(rest_pat) = rest {
                collect_pattern_variables(rest_pat, variables);
            }
            proof {
                lemma_grows_trans(
                    v0,
                    v1,
                    variables@,
                    patterns_vars(elements@),
                    match rest {
                        Some(r) => pattern_vars(**r),
                        None => Set::empty(),
                    },
                );
            }
        },
        _ => {},
    }
}

/// Adds to `variables` every variable that one of `patterns` binds.
fn collect_patterns_variables(patterns: &Vec<HirPattern>, variables: &mut Vec<SymbolId>)
    requires
        old(variables)@.no_duplicates(),
    ensures
        grows_by(old(variables)@, final(variables)@, patterns_vars(patterns@)),
    decreases patterns,
{
    let ghost v0 = variables@;
    let mut i: usize = 0;
    while i < patterns.len()
        invariant
            i <= patterns.len(),
            grows_by(v0, variables@, patterns_vars(patterns@.take(i as int))),
        decreases patterns.len() - i,
    {
        let ghost vi = variables@;
        collect_pattern_variables(&patterns[i], variables);
        proof {
            lemma_grows_trans(v0, vi, variables@, patterns_vars(patterns@.take(i as int)), pattern_vars(patterns@[i as int]));
            assert(patterns@.take(i + 1).drop_last() =~= patterns@.take(i as int));
        }
        i = i + 1;
    }
    proof {
        assert(patterns@.take(patterns.len() as int) =~= patterns@);
    }
}

/// Adds to `modified` every variable that `expr` may assign.
pub fn find_modified_variables_in_expression(expr: &HirExpr, modified: &mut Vec<SymbolId>)
    requires
        old(modified)@.no_duplicates(),
    ensures
        grows_by(old(modified)@, final(modified)@, expr_mods(*expr)),
    decreases expr,
{
    let ghost v0 = modified@;
    match &expr.kind {
        HirExprKind::Binary { lhs, rhs, .. } => {
            find_modified_variables_in_expression(lhs, modified);
            let ghost v1 = modified@;
            find_modified_variables_in_expression(rhs, modified);
            proof { lemma_grows_trans(v0, v1, modified@, expr_mods(**lhs), expr_mods(**rhs)); }
        },
        HirExprKind::Unary { operand, .. } => {
            find_modified_variables_in_expression(operand, modified);
        },
        HirExprKind::If { then_expr, else_expr, .. } => {
            find_modified_variables_in_expression(then_expr, modified);
            let ghost v1 = modified@;
            find_modified_variables_in_expression(else_expr, modified);
            proof { lemma_grows_trans(v0, v1, modified@, expr_mods(**then_expr), expr_mods(**else_expr)); }
        },
        HirExprKind::Call { args, .. } => {
            let mut i: usize = 0;
            while i < args.len()
                invariant
                    expr.kind is Call,
                    expr.kind->args == *args,
                    i <= args.len(),
                    grows_by(v0, modified@, exprs_mods(args@.take(i as int))),
                decreases args.len() - i,
            {
                let ghost vi = modified@;
                find_modified_variables_in_expression(&args[i], modified);
                proof {
                    lemma_grows_trans(v0, vi, modified@, exprs_mods(args@.take(i as int)), expr_mods(args@[i as int]));
                    assert(args@.take(i + 1).drop_last() =~= args@.take(i as int));
                }
                i = i + 1;
            }
            proof {
                assert(args@.take(args.len() as int) =~= args@);
            }
        },
        _ => {},
    }
}

/// Adds to `modified` every variable that `stmt` declares or assigns.
pub fn find_modified_variables_in_statement(stmt: &HirStatement, modified: &mut Vec<SymbolId>)
    requires
        old(modified)@.no_duplicates(),
    ensures
        grows_by(old(modified)@, final(modified)@, stmt_mods(*stmt)),
    decreases stmt,
{
    let ghost v0 = modified@;
    match stmt {
        HirStatement::Let { pattern, .. } => {
            collect_pattern_variables(pattern, modified);
        },
        HirStatement::Expr(expr) => {
            find_modified_variables_in_expression(expr, modified);
        },
        HirStatement::Assign { lhs, rhs, .. } => {
            if let HirLValue::Variable(symbol) = lhs {
                insert_symbol(modified, *symbol);
            }
            let ghost v1 = modified@;
            find_modified_variables_in_expression(rhs, modified);
            proof { lemma_grows_trans(v0, v1, modified@, lvalue_var(*lhs), expr_mods(*rhs)); }
        },
        HirStatement::If { then_branch, else_branch, .. } => {
            find_modified_variables_in_statements(&then_branch.statements, modified);
            let ghost v1 = modified@;
            if let Some(else_blk) = else_branch {
                find_modified_variables_in_statements(&else_blk.statements, modified);
            }
            proof {
                lemma_grows_trans(
                    v0,
                    v1,
                    modified@,
                    stmts_mods(then_branch.statements@),
                    match else_branch {
                        Some(b) => stmts_mods(b.statements@),
                        None => Set::empty(),
                    },
                );
            }
        },
        HirStatement::While { body, .. } => {
            find_modified_variables_in_statements(&body.statements, modified);
        },
        HirStatement::DoWhile { body, .. } => {
            find_modified_variables_in_statements(&body.statements, modified);
        },
        HirStatement::Label { block, .. } => {
            find_modified_variables_in_statements(&block.statements, modified);
        },
        _ => {},
    }
}

/// Adds to `modified` every variable that one of `stmts` declares or assigns.
pub(crate) fn find_modified_variables_in_statements(stmts: &Vec<HirStatement>, modified: &mut Vec<SymbolId>)
    requires
        old(modified)@.no_duplicates(),
    ensures
        grows_by(old(modified)@, final(modified)@, stmts_mods(stmts@)),
    decreases stmts,
{
    let ghost v0 = modified@;
    let mut i: usize = 0;
    while i < stmts.len()
        invariant
            i <= stmts.len(),
            grows_by(v0, modified@, stmts_mods(stmts@.take(i as int))),
        decreases stmts.len() - i,
    {
        let ghost vi = modified@;
        find_modified_variables_in_statement(&stmts[i], modified);
        proof {
            lemma_grows_trans(v0, vi, modified@, stmts_mods(stmts@.take(i as int)), stmt_mods(stmts@[i as int]));
            assert(stmts@.take(i + 1).drop_last() =~= stmts@.take(i as int));
        }
        i = i + 1;
    }
    proof {
        assert(stmts@.take(stmts.len() as int) =~= stmts@);
    }
}

/// The variables that the statements of `block` declare or assign, each
/// once.
pub fn find_modified_variables_in_block(block: &HirBlock) -> (r: Vec<SymbolId>)
    ensures
        r@.no_duplicates(),
        forall|x: SymbolId| r@.contains(x) <==> stmts_mods(block.statements@).contains(x),
{
    let mut modified: Vec<SymbolId> = Vec::new();
    find_modified_variables_in_statements(&block.statements, &mut modified);
    modified
}

} // verus!
