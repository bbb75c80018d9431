use rayzor_ir::builder::FunctionSignatureBuilder;
use rayzor_ir::ids::{IrBlockId, IrFunctionId, IrId, SymbolId};
use rayzor_ir::instructions::IrTerminator;
use rayzor_ir::lowering::{HirToMirContext, LoopContext};
use rayzor_ir::types::{IrSourceLocation, IrType};

fn context_in_function() -> HirToMirContext {
    let mut ctx = HirToMirContext::new("m".to_string(), "m.hx".to_string());
    let sig = FunctionSignatureBuilder::new().param("x".to_string(), IrType::I32).build();
    ctx.builder.start_function(SymbolId(1), "f".to_string(), sig);
    ctx
}

#[test]
fn function_ids_come_from_this_module_first() {
    let mut ctx = HirToMirContext::new("m".to_string(), "m.hx".to_string());
    ctx.function_map.push((SymbolId(1), IrFunctionId(10)));
    ctx.external_function_map.push((SymbolId(1), IrFunctionId(20)));
    ctx.external_function_map.push((SymbolId(2), IrFunctionId(21)));
    assert_eq!(ctx.get_function_id(SymbolId(1)), Some(IrFunctionId(10)));
    assert_eq!(ctx.get_function_id(SymbolId(2)), Some(IrFunctionId(21)));
    assert_eq!(ctx.get_function_id(SymbolId(3)), None);
}

#[test]
fn errors_are_recorded_in_order() {
    let mut ctx = HirToMirContext::new("m".to_string(), "m.hx".to_string());
    ctx.add_error("first", IrSourceLocation::unknown());
    ctx.add_error("second", IrSourceLocation { file_id: 1, line: 2, column: 3 });
    assert_eq!(ctx.errors.len(), 2);
    assert_eq!(ctx.errors[0].message, "first");
    assert_eq!(ctx.errors[1].message, "second");
    assert_eq!(ctx.errors[1].location.line, 2);
}

#[test]
fn continue_and_break_outside_a_loop_are_errors() {
    let mut ctx = context_in_function();
    ctx.lower_continue(None);
    ctx.lower_break(Some(SymbolId(4)));
    assert_eq!(ctx.errors.len(), 2);
    assert_eq!(ctx.errors[0].message, "Continue outside of loop");
    assert_eq!(ctx.errors[1].message, "Break outside of loop");
    let f = ctx.builder.current_function().unwrap();
    assert!(matches!(f.cfg.get_block(IrBlockId(0)).unwrap().terminator, IrTerminator::Unreachable));
}

#[test]
fn continue_jumps_to_the_loop_condition() {
    let mut ctx = context_in_function();
    let cond = ctx.builder.create_block().unwrap();
    let exit = ctx.builder.create_block().unwrap();
    ctx.loop_stack.push(LoopContext { continue_block: cond, break_block: exit, label: None, exit_phi_nodes: vec![] });
    ctx.lower_continue(None);
    assert!(ctx.errors.is_empty());
    let f = ctx.builder.current_function().unwrap();
    assert_eq!(f.cfg.get_block(IrBlockId(0)).unwrap().terminator, IrTerminator::Branch { target: cond });
    assert_eq!(f.cfg.get_block(cond).unwrap().predecessors, vec![IrBlockId(0)]);
}

#[test]
fn break_feeds_exit_phis_and_jumps_to_the_exit() {
    let mut ctx = context_in_function();
    let cond = ctx.builder.create_block().unwrap();
    let exit = ctx.builder.create_block().unwrap();
    let phi_x = ctx.builder.build_phi(exit, IrType::I32).unwrap();
    let phi_y = ctx.builder.build_phi(exit, IrType::I32).unwrap();
    ctx.symbol_map.push((SymbolId(7), IrId(0)));
    ctx.loop_stack.push(LoopContext {
        continue_block: cond,
        break_block: exit,
        label: Some(SymbolId(9)),
        exit_phi_nodes: vec![(SymbolId(7), phi_x), (SymbolId(8), phi_y)],
    });
    ctx.loop_stack.push(LoopContext { continue_block: IrBlockId(0), break_block: cond, label: None, exit_phi_nodes: vec![] });
    ctx.lower_break(Some(SymbolId(9)));
    assert!(ctx.errors.is_empty());
    let f = ctx.builder.current_function().unwrap();
    let exit_block = f.cfg.get_block(exit).unwrap();
    assert_eq!(exit_block.phi_nodes[0].incoming, vec![(IrBlockId(0), IrId(0))]);
    assert_eq!(exit_block.phi_nodes[1].incoming, vec![(IrBlockId(0), phi_y)]);
    assert_eq!(f.cfg.get_block(IrBlockId(0)).unwrap().terminator, IrTerminator::Branch { target: exit });
}

#[test]
fn ensure_terminator_adds_a_return_only_where_the_block_is_open() {
    let mut none = HirToMirContext::new("m".to_string(), "m.hx".to_string());
    assert!(!none.is_terminated());
    none.ensure_terminator();
    assert!(none.builder.module.functions.is_empty());

    let mut ctx = context_in_function();
    assert!(!ctx.is_terminated());
    ctx.ensure_terminator();
    assert!(ctx.is_terminated());
    let f = ctx.builder.current_function().unwrap();
    assert_eq!(f.cfg.get_block(IrBlockId(0)).unwrap().terminator, IrTerminator::Return { value: None });

    let mut other = context_in_function();
    let target = other.builder.create_block().unwrap();
    other.builder.build_branch(target).unwrap();
    other.ensure_terminator();
    let g = other.builder.current_function().unwrap();
    assert_eq!(g.cfg.get_block(IrBlockId(0)).unwrap().terminator, IrTerminator::Branch { target });
}
