use rayzor_ir::builder::{FunctionSignatureBuilder, IrBuilder};
use rayzor_ir::ids::{IrBlockId, IrFunctionId, IrId, SymbolId};
use rayzor_ir::inlining::{
    check_inline, inline_call_site, inline_step, next_register, select_candidate, CallGraph, InlineError, InlineStep,
};
use rayzor_ir::instructions::{IrInstruction, IrTerminator};
use rayzor_ir::module::IrModule;
use rayzor_ir::types::{BinaryOp, IrType};

fn add_call(builder: &mut IrBuilder, callee: IrFunctionId, args: Vec<IrId>) -> IrId {
    let dest = builder.alloc_reg().unwrap();
    let block = builder.current_block().unwrap();
    builder
        .current_function_mut()
        .unwrap()
        .cfg
        .get_block_mut(block)
        .unwrap()
        .add_instruction(IrInstruction::CallDirect { dest: Some(dest), func_id: callee, args });
    dest
}

/// `double(x) = x + x` and `main() = double(5)`.
fn double_module() -> IrModule {
    let mut b = IrBuilder::new("m".to_string(), "m.hx".to_string());
    let sig = FunctionSignatureBuilder::new().param("x".to_string(), IrType::I32).return_type(IrType::I32).build();
    let double = b.start_function(SymbolId::from_raw(1), "double".to_string(), sig);
    let x = b.current_function().unwrap().get_param_reg(0).unwrap();
    let y = b.build_add(x, x, false).unwrap();
    b.build_return(Some(y)).unwrap();
    b.finish_function();
    let sig = FunctionSignatureBuilder::new().return_type(IrType::I32).build();
    b.start_function(SymbolId::from_raw(2), "main".to_string(), sig);
    let a = b.build_int(5, IrType::I32).unwrap();
    let r = add_call(&mut b, double, vec![a]);
    b.build_return(Some(r)).unwrap();
    b.finish_function();
    b.module
}

#[test]
fn the_call_graph_lists_direct_calls() {
    let m = double_module();
    let g = CallGraph::build_with_depths(&m, &vec![]);
    assert_eq!(g.call_sites.len(), 1);
    let s = &g.call_sites[0];
    assert_eq!(s.caller, IrFunctionId(1));
    assert_eq!(s.callee, IrFunctionId(0));
    assert_eq!(s.block, IrBlockId(0));
    assert_eq!(s.instruction_index, 1);
    assert_eq!(s.loop_depth, 0);
    assert_eq!(s.args, vec![IrId(0)]);
    assert_eq!(s.dest, Some(IrId(1)));
    assert_eq!(g.get_call_sites(IrFunctionId(1)), &[0]);
    assert!(g.get_call_sites(IrFunctionId(0)).is_empty());
    assert!(!g.is_recursive(IrFunctionId(0)));
    assert!(!g.is_recursive(IrFunctionId(1)));
}

#[test]
fn loop_depths_come_from_the_table() {
    let m = double_module();
    let g = CallGraph::build_with_depths(&m, &vec![(IrFunctionId(1), IrBlockId(0), 3), (IrFunctionId(1), IrBlockId(0), 5)]);
    assert_eq!(g.call_sites[0].loop_depth, 3);
}

#[test]
fn direct_and_mutual_recursion_are_found() {
    let mut b = IrBuilder::new("m".to_string(), "m.hx".to_string());
    let f = b.start_function(SymbolId::from_raw(1), "f".to_string(), FunctionSignatureBuilder::new().build());
    add_call(&mut b, f, vec![]);
    b.finish_function();
    let g = b.start_function(SymbolId::from_raw(2), "g".to_string(), FunctionSignatureBuilder::new().build());
    add_call(&mut b, IrFunctionId(2), vec![]);
    b.finish_function();
    let h = b.start_function(SymbolId::from_raw(3), "h".to_string(), FunctionSignatureBuilder::new().build());
    add_call(&mut b, g, vec![]);
    b.finish_function();
    let k = b.start_function(SymbolId::from_raw(4), "k".to_string(), FunctionSignatureBuilder::new().build());
    add_call(&mut b, g, vec![]);
    b.finish_function();
    let graph = CallGraph::build_with_depths(&b.module, &vec![]);
    assert!(graph.is_recursive(f));
    assert!(graph.is_recursive(g));
    assert!(graph.is_recursive(h));
    assert!(!graph.is_recursive(k));
    assert_eq!(graph.recursive_functions.len(), 3);
    assert_eq!(graph.callers.iter().filter(|(id, _)| *id == g).count(), 1);
}

#[test]
fn the_next_register_is_past_every_definition() {
    let m = double_module();
    assert_eq!(next_register(&m), Some(2));
    assert_eq!(next_register(&IrModule::new("e".to_string(), "e.hx".to_string())), Some(0));
}

#[test]
fn inlining_splits_the_caller_around_the_callee() {
    let mut m = double_module();
    let g = CallGraph::build_with_depths(&m, &vec![]);
    let site = &g.call_sites[0];
    let mut next = next_register(&m).unwrap();
    assert!(check_inline(&m, site, next));
    inline_call_site(&mut m, site, &mut next).unwrap();
    assert_eq!(next, 3);
    let main = m.get_function(IrFunctionId(1)).unwrap();
    assert_eq!(main.cfg.blocks.len(), 3);
    let call_block = main.cfg.get_block(IrBlockId(0)).unwrap();
    assert_eq!(call_block.instructions.len(), 1);
    assert_eq!(call_block.terminator, IrTerminator::Branch { target: IrBlockId(1) });
    let body = main.cfg.get_block(IrBlockId(1)).unwrap();
    assert_eq!(body.instructions, vec![IrInstruction::BinOp { dest: IrId(2), op: BinaryOp::Add, left: IrId(0), right: IrId(0) }]);
    assert_eq!(body.terminator, IrTerminator::Branch { target: IrBlockId(2) });
    assert_eq!(body.predecessors, vec![IrBlockId(0)]);
    let cont = main.cfg.get_block(IrBlockId(2)).unwrap();
    assert_eq!(cont.instructions, vec![IrInstruction::Copy { dest: IrId(1), src: IrId(2) }]);
    assert_eq!(cont.terminator, IrTerminator::Return { value: Some(IrId(1)) });
    let double = m.get_function(IrFunctionId(0)).unwrap();
    assert_eq!(double.cfg.blocks.len(), 1);
}

#[test]
fn inlining_reports_missing_functions() {
    let mut m = double_module();
    let g = CallGraph::build_with_depths(&m, &vec![]);
    let mut site = g.call_sites[0].clone();
    site.callee = IrFunctionId(9);
    let mut next = 2;
    assert_eq!(inline_call_site(&mut m, &site, &mut next), Err(InlineError::CalleeNotFound(IrFunctionId(9))));
    site.callee = IrFunctionId(0);
    site.caller = IrFunctionId(8);
    assert_eq!(inline_call_site(&mut m, &site, &mut next), Err(InlineError::CallerNotFound(IrFunctionId(8))));
    assert_eq!(next, 2);
}

#[test]
fn a_site_past_its_block_cannot_be_inlined() {
    let m = double_module();
    let g = CallGraph::build_with_depths(&m, &vec![]);
    let mut site = g.call_sites[0].clone();
    site.instruction_index = 5;
    assert!(!check_inline(&m, &site, 2));
    site.instruction_index = 1;
    site.block = IrBlockId(4);
    assert!(!check_inline(&m, &site, 2));
}

#[test]
fn the_deepest_decided_site_is_selected_first() {
    let mut b = IrBuilder::new("m".to_string(), "m.hx".to_string());
    let callee = b.start_function(SymbolId::from_raw(1), "c".to_string(), FunctionSignatureBuilder::new().build());
    b.build_return(None).unwrap();
    b.finish_function();
    let main = b.start_function(SymbolId::from_raw(2), "main".to_string(), FunctionSignatureBuilder::new().build());
    let l1 = b.create_block().unwrap();
    let l2 = b.create_block().unwrap();
    add_call(&mut b, callee, vec![]);
    b.switch_to_block(l1);
    add_call(&mut b, callee, vec![]);
    b.switch_to_block(l2);
    add_call(&mut b, callee, vec![]);
    add_call(&mut b, callee, vec![]);
    let depths = vec![(main, l1, 1), (main, l2, 2)];
    let g = CallGraph::build_with_depths(&b.module, &depths);
    assert_eq!(g.call_sites.len(), 4);
    assert_eq!(select_candidate(&g, &vec![true, true, true, true]), Some(2));
    assert_eq!(select_candidate(&g, &vec![true, true, false, true]), Some(3));
    assert_eq!(select_candidate(&g, &vec![true, true, false, false]), Some(1));
    assert_eq!(select_candidate(&g, &vec![true]), Some(0));
    assert_eq!(select_candidate(&g, &vec![false, false, false, false]), None);
    assert_eq!(select_candidate(&g, &vec![]), None);
}

#[test]
fn a_round_of_inlining() {
    let mut m = double_module();
    let g = CallGraph::build_with_depths(&m, &vec![]);
    assert_eq!(inline_step(&mut m, &g, &vec![false]), InlineStep::NoCandidate);
    assert_eq!(m.get_function(IrFunctionId(1)).unwrap().cfg.blocks.len(), 1);
    assert_eq!(inline_step(&mut m, &g, &vec![true]), InlineStep::Inlined(0));
    assert_eq!(m.get_function(IrFunctionId(1)).unwrap().cfg.blocks.len(), 3);
    let g2 = CallGraph::build_with_depths(&m, &vec![]);
    assert!(g2.call_sites.is_empty());
    assert_eq!(inline_step(&mut m, &g2, &vec![true]), InlineStep::NoCandidate);
}

#[test]
fn inlined_values_get_registers_past_the_module() {
    // callee: p0 -> t1 = p0 * p0; t2 = t1 + p0; return t2
    let mut b = IrBuilder::new("m".to_string(), "m.hx".to_string());
    let sig = FunctionSignatureBuilder::new().param("p".to_string(), IrType::I64).return_type(IrType::I64).build();
    let sq = b.start_function(SymbolId::from_raw(1), "sq".to_string(), sig);
    let p = b.current_function().unwrap().get_param_reg(0).unwrap();
    let t1 = b.build_mul(p, p, false).unwrap();
    let t2 = b.build_add(t1, p, false).unwrap();
    b.build_return(Some(t2)).unwrap();
    b.finish_function();
    b.start_function(SymbolId::from_raw(2), "main".to_string(), FunctionSignatureBuilder::new().build());
    let mut regs = Vec::new();
    for k in 0..6 {
        regs.push(b.build_int(k, IrType::I64).unwrap());
    }
    let r = add_call(&mut b, sq, vec![regs[4]]);
    b.build_return(Some(r)).unwrap();
    b.finish_function();
    let mut m = b.module;
    assert_eq!(next_register(&m), Some(7));
    let g = CallGraph::build_with_depths(&m, &vec![]);
    assert_eq!(inline_step(&mut m, &g, &vec![true]), InlineStep::Inlined(0));
    let main = m.get_function(IrFunctionId(1)).unwrap();
    let body = main.cfg.get_block(IrBlockId(1)).unwrap();
    assert_eq!(body.instructions[0], IrInstruction::BinOp { dest: IrId(7), op: BinaryOp::Mul, left: regs[4], right: regs[4] });
    assert_eq!(body.instructions[1], IrInstruction::BinOp { dest: IrId(8), op: BinaryOp::Add, left: IrId(7), right: regs[4] });
    let cont = main.cfg.get_block(IrBlockId(2)).unwrap();
    assert_eq!(cont.instructions, vec![IrInstruction::Copy { dest: r, src: IrId(8) }]);
}

#[test]
fn inlining_keeps_block_ids_distinct_and_below_the_counter() {
    let mut m = double_module();
    let g = CallGraph::build_with_depths(&m, &vec![]);
    inline_step(&mut m, &g, &vec![true]);
    let main = m.get_function(IrFunctionId(1)).unwrap();
    let ids: Vec<u32> = main.cfg.blocks.iter().map(|b| b.id.0).collect();
    assert_eq!(ids, vec![0, 1, 2]);
    assert_eq!(main.cfg.next_block_id, 3);
    assert!(ids.iter().all(|id| *id < main.cfg.next_block_id));
}
