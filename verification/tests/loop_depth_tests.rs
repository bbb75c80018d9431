use rayzor_ir::builder::{FunctionSignatureBuilder, IrBuilder};
use rayzor_ir::ids::{IrBlockId, IrFunctionId, IrId, SymbolId};
use rayzor_ir::inlining::CallGraph;
use rayzor_ir::instructions::IrInstruction;
use rayzor_ir::loop_depth::{block_loop_depths, loop_depths};

/// entry -> h1; h1 -> b1 | exit; b1 -> h2; h2 -> b2 | h1; b2 -> h2.
fn nested_loops() -> IrBuilder {
    let mut b = IrBuilder::new("m".to_string(), "m.hx".to_string());
    b.start_function(SymbolId(1), "f".to_string(), FunctionSignatureBuilder::new().build());
    let h1 = b.create_block().unwrap();
    let b1 = b.create_block().unwrap();
    let h2 = b.create_block().unwrap();
    let b2 = b.create_block().unwrap();
    let exit = b.create_block().unwrap();
    let c = b.build_bool(true).unwrap();
    b.build_branch(h1).unwrap();
    b.switch_to_block(h1);
    b.build_cond_branch(c, b1, exit).unwrap();
    b.switch_to_block(b1);
    b.build_branch(h2).unwrap();
    b.switch_to_block(h2);
    b.build_cond_branch(c, b2, h1).unwrap();
    b.switch_to_block(b2);
    b.build_branch(h2).unwrap();
    b.switch_to_block(exit);
    b.build_return(None).unwrap();
    b
}

#[test]
fn nested_loops_nest_their_depths() {
    let b = nested_loops();
    let f = b.current_function().unwrap();
    assert_eq!(block_loop_depths(&f.cfg), vec![0, 1, 1, 2, 2, 0]);
}

#[test]
fn straight_line_code_is_in_no_loop() {
    let mut b = IrBuilder::new("m".to_string(), "m.hx".to_string());
    b.start_function(SymbolId(1), "f".to_string(), FunctionSignatureBuilder::new().build());
    let next = b.create_block().unwrap();
    b.build_branch(next).unwrap();
    b.switch_to_block(next);
    b.build_return(None).unwrap();
    let f = b.current_function().unwrap();
    assert_eq!(block_loop_depths(&f.cfg), vec![0, 0]);
}

#[test]
fn a_jump_to_a_block_that_does_not_dominate_is_no_loop() {
    // entry -> a | b; a -> b; b -> a: neither a nor b dominates the other.
    let mut bl = IrBuilder::new("m".to_string(), "m.hx".to_string());
    bl.start_function(SymbolId(1), "f".to_string(), FunctionSignatureBuilder::new().build());
    let a = bl.create_block().unwrap();
    let c = bl.create_block().unwrap();
    let v = bl.build_bool(true).unwrap();
    bl.build_cond_branch(v, a, c).unwrap();
    bl.switch_to_block(a);
    bl.build_branch(c).unwrap();
    bl.switch_to_block(c);
    bl.build_branch(a).unwrap();
    let f = bl.current_function().unwrap();
    assert_eq!(block_loop_depths(&f.cfg), vec![0, 0, 0]);
}

#[test]
fn call_graph_records_the_depth_of_each_call() {
    let mut b = nested_loops();
    b.finish_function();
    let callee = b.start_function(SymbolId(2), "g".to_string(), FunctionSignatureBuilder::new().build());
    b.build_return(None).unwrap();
    b.finish_function();
    let f = &mut b.module.functions[0];
    let dest = IrId(f.next_reg_id);
    f.next_reg_id += 1;
    f.cfg
        .get_block_mut(IrBlockId(4))
        .unwrap()
        .add_instruction(IrInstruction::CallDirect { dest: Some(dest), func_id: callee, args: vec![] });
    let table = loop_depths(&b.module);
    assert_eq!(table.len(), 7);
    assert_eq!(table[4], (IrFunctionId(0), IrBlockId(4), 2));
    let g = CallGraph::build(&b.module);
    assert_eq!(g.call_sites.len(), 1);
    assert_eq!(g.call_sites[0].loop_depth, 2);
}
