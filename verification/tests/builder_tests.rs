use rayzor_ir::blocks::IrBasicBlock;
use rayzor_ir::builder::{FunctionSignatureBuilder, IrBuilder};
use rayzor_ir::ids::{IrBlockId, IrFunctionId, IrId, SymbolId};
use rayzor_ir::instructions::{IrInstruction, IrTerminator};
use rayzor_ir::types::{BinaryOp, CallingConvention, CompareOp, IrSourceLocation, IrType, IrValue, UnaryOp};

fn entry_of(builder: &IrBuilder, id: IrFunctionId) -> &IrBasicBlock {
    let func = builder.module.get_function(id).unwrap();
    func.cfg.get_block(func.entry_block()).unwrap()
}

#[test]
fn test_basic_function_building() {
    let mut builder = IrBuilder::new("test".to_string(), "test.hx".to_string());

    let sig = FunctionSignatureBuilder::new()
        .param("a".to_string(), IrType::I32)
        .param("b".to_string(), IrType::I32)
        .return_type(IrType::I32)
        .build();

    let func_id = builder.start_function(SymbolId::from_raw(1), "add".to_string(), sig);

    let a = builder.current_function().unwrap().get_param_reg(0).unwrap();
    let b = builder.current_function().unwrap().get_param_reg(1).unwrap();

    let result = builder.build_add(a, b, false).unwrap();

    builder.build_return(Some(result)).unwrap();

    builder.finish_function();

    let func = builder.module.get_function(func_id).unwrap();
    assert_eq!(func.name, "add");
    assert_eq!(func.signature.parameters.len(), 2);
    assert_eq!(func.signature.return_type, IrType::I32);

    let entry_block = func.cfg.get_block(func.entry_block()).unwrap();
    assert_eq!(entry_block.instructions.len(), 1);
    assert!(matches!(entry_block.terminator, IrTerminator::Return { .. }));
}

#[test]
fn test_control_flow_building() {
    let mut builder = IrBuilder::new("test".to_string(), "test.hx".to_string());

    let sig = FunctionSignatureBuilder::new()
        .param("x".to_string(), IrType::I32)
        .return_type(IrType::I32)
        .build();

    builder.start_function(SymbolId::from_raw(1), "abs".to_string(), sig);

    let x = builder.current_function().unwrap().get_param_reg(0).unwrap();

    let negative_block = builder.create_block_with_label("negative".to_string()).unwrap();
    let positive_block = builder.create_block_with_label("positive".to_string()).unwrap();
    let merge_block = builder.create_block_with_label("merge".to_string()).unwrap();

    let zero = builder.build_int(0, IrType::I32).unwrap();
    let is_negative = builder.build_cmp(CompareOp::Lt, x, zero).unwrap();

    builder.build_cond_branch(is_negative, negative_block, positive_block).unwrap();

    builder.switch_to_block(negative_block);
    let neg_x = builder.build_unop(UnaryOp::Neg, x).unwrap();
    builder.build_branch(merge_block).unwrap();

    builder.switch_to_block(positive_block);
    builder.build_branch(merge_block).unwrap();

    builder.switch_to_block(merge_block);
    let phi = builder.build_phi(merge_block, IrType::I32).unwrap();
    builder.add_phi_incoming(merge_block, phi, negative_block, neg_x).unwrap();
    builder.add_phi_incoming(merge_block, phi, positive_block, x).unwrap();

    builder.build_return(Some(phi)).unwrap();

    builder.finish_function();
}

#[test]
fn parameters_take_the_first_registers() {
    let mut builder = IrBuilder::new("m".to_string(), "m.hx".to_string());
    let sig = FunctionSignatureBuilder::new()
        .param("a".to_string(), IrType::I64)
        .param_by_ref("b".to_string(), IrType::Bool)
        .param("c".to_string(), IrType::String)
        .build();
    let id = builder.start_function(SymbolId::from_raw(7), "f".to_string(), sig);
    assert_eq!(id, IrFunctionId(0));
    let f = builder.current_function().unwrap();
    assert_eq!(f.get_param_reg(0), Some(IrId(0)));
    assert_eq!(f.get_param_reg(1), Some(IrId(1)));
    assert_eq!(f.get_param_reg(2), Some(IrId(2)));
    assert_eq!(f.get_param_reg(3), None);
    assert!(f.signature.parameters[1].by_ref);
    assert_eq!(f.next_reg_id, 3);
    assert_eq!(builder.current_block(), Some(IrBlockId(0)));
    assert_eq!(builder.alloc_reg(), Some(IrId(3)));
    assert_eq!(builder.alloc_reg(), Some(IrId(4)));
}

#[test]
fn signature_builder_sets_every_field() {
    let sig = FunctionSignatureBuilder::new()
        .param("p".to_string(), IrType::U8)
        .return_type(IrType::Bool)
        .calling_convention(CallingConvention::C)
        .can_throw(true)
        .build();
    assert_eq!(sig.parameters.len(), 1);
    assert_eq!(sig.parameters[0].name, "p");
    assert_eq!(sig.return_type, IrType::Bool);
    assert_eq!(sig.calling_convention, CallingConvention::C);
    assert!(sig.can_throw);
    assert!(sig.type_params.is_empty());

    let plain = FunctionSignatureBuilder::new().build();
    assert_eq!(plain.return_type, IrType::Void);
    assert_eq!(plain.calling_convention, CallingConvention::Haxe);
    assert!(!plain.can_throw);
}

#[test]
fn without_a_function_nothing_is_built() {
    let mut builder = IrBuilder::new("m".to_string(), "m.hx".to_string());
    assert!(builder.current_function().is_none());
    assert_eq!(builder.alloc_reg(), None);
    assert_eq!(builder.create_block(), None);
    assert_eq!(builder.build_int(1, IrType::I32), None);
    assert_eq!(builder.build_return(None), None);
    assert_eq!(builder.declare_local("x".to_string(), IrType::I32), None);
    assert_eq!(builder.register_local(IrId(0), IrType::I32), None);
    assert!(builder.module.functions.is_empty());
}

#[test]
fn build_int_truncates_to_the_type() {
    let mut builder = IrBuilder::new("m".to_string(), "m.hx".to_string());
    let id = builder.start_function(SymbolId::from_raw(1), "f".to_string(), FunctionSignatureBuilder::new().build());
    let a = builder.build_int(300, IrType::U8).unwrap();
    let b = builder.build_int(-1, IrType::U16).unwrap();
    let c = builder.build_int(70000, IrType::I16).unwrap();
    assert_eq!(builder.build_int(5, IrType::Bool), None);
    let entry = entry_of(&builder, id);
    assert_eq!(entry.instructions.len(), 3);
    assert_eq!(entry.instructions[0], IrInstruction::Const { dest: a, value: IrValue::U8(44) });
    assert_eq!(entry.instructions[1], IrInstruction::Const { dest: b, value: IrValue::U16(65535) });
    assert_eq!(entry.instructions[2], IrInstruction::Const { dest: c, value: IrValue::I16(4464) });
}

#[test]
fn arithmetic_helpers_pick_integer_or_float_operators() {
    let mut builder = IrBuilder::new("m".to_string(), "m.hx".to_string());
    let id = builder.start_function(SymbolId::from_raw(1), "f".to_string(), FunctionSignatureBuilder::new().build());
    let x = builder.build_int(2, IrType::I64).unwrap();
    let y = builder.build_int(3, IrType::I64).unwrap();
    let s = builder.build_add(x, y, false).unwrap();
    let fs = builder.build_sub(x, y, true).unwrap();
    let m = builder.build_mul(x, y, false).unwrap();
    let d = builder.build_div(x, y, true).unwrap();
    let entry = entry_of(&builder, id);
    assert_eq!(entry.instructions[2], IrInstruction::BinOp { dest: s, op: BinaryOp::Add, left: x, right: y });
    assert_eq!(entry.instructions[3], IrInstruction::BinOp { dest: fs, op: BinaryOp::FSub, left: x, right: y });
    assert_eq!(entry.instructions[4], IrInstruction::BinOp { dest: m, op: BinaryOp::Mul, left: x, right: y });
    assert_eq!(entry.instructions[5], IrInstruction::BinOp { dest: d, op: BinaryOp::FDiv, left: x, right: y });
}

#[test]
fn build_string_pools_each_string_once() {
    let mut builder = IrBuilder::new("m".to_string(), "m.hx".to_string());
    builder.start_function(SymbolId::from_raw(1), "f".to_string(), FunctionSignatureBuilder::new().build());
    builder.build_string("hello".to_string()).unwrap();
    builder.build_string("world".to_string()).unwrap();
    builder.build_string("hello".to_string()).unwrap();
    assert_eq!(builder.module.string_pool.strings, vec!["hello".to_string(), "world".to_string()]);
}

#[test]
fn terminators_record_predecessors() {
    let mut builder = IrBuilder::new("m".to_string(), "m.hx".to_string());
    let id = builder.start_function(SymbolId::from_raw(1), "f".to_string(), FunctionSignatureBuilder::new().build());
    let b1 = builder.create_block().unwrap();
    let b2 = builder.create_block().unwrap();
    assert_eq!(b1, IrBlockId(1));
    assert_eq!(b2, IrBlockId(2));
    let v = builder.build_int(1, IrType::I32).unwrap();
    builder.build_switch(v, vec![(0, b1), (1, b2), (2, b1)], b2).unwrap();
    let f = builder.module.get_function(id).unwrap();
    assert_eq!(f.cfg.get_block(b1).unwrap().predecessors, vec![IrBlockId(0)]);
    assert_eq!(f.cfg.get_block(b2).unwrap().predecessors, vec![IrBlockId(0)]);
    builder.switch_to_block(b1);
    builder.build_unreachable().unwrap();
    let f = builder.module.get_function(id).unwrap();
    assert_eq!(f.cfg.get_block(b1).unwrap().terminator, IrTerminator::Unreachable);
}

#[test]
fn phi_incoming_values_are_appended() {
    let mut builder = IrBuilder::new("m".to_string(), "m.hx".to_string());
    let id = builder.start_function(SymbolId::from_raw(1), "f".to_string(), FunctionSignatureBuilder::new().build());
    let join = builder.create_block_with_label("join".to_string()).unwrap();
    let phi = builder.build_phi(join, IrType::I32).unwrap();
    builder.add_phi_incoming(join, phi, IrBlockId(0), IrId(9)).unwrap();
    assert_eq!(builder.add_phi_incoming(join, IrId(99), IrBlockId(0), IrId(9)), None);
    assert_eq!(builder.build_phi(IrBlockId(42), IrType::I32), None);
    let f = builder.module.get_function(id).unwrap();
    let block = f.cfg.get_block(join).unwrap();
    assert_eq!(block.label, Some("join".to_string()));
    assert_eq!(block.phi_nodes.len(), 1);
    assert_eq!(block.phi_nodes[0].dest, phi);
    assert_eq!(block.phi_nodes[0].incoming, vec![(IrBlockId(0), IrId(9))]);
}

#[test]
fn locals_are_recorded_with_their_types() {
    let mut builder = IrBuilder::new("m".to_string(), "m.hx".to_string());
    let id = builder.start_function(SymbolId::from_raw(1), "f".to_string(), FunctionSignatureBuilder::new().build());
    let x = builder.declare_local("x".to_string(), IrType::I32).unwrap();
    builder.register_local(IrId(5), IrType::Bool).unwrap();
    let f = builder.module.get_function(id).unwrap();
    assert_eq!(f.locals.len(), 2);
    assert_eq!(f.locals[0].0, x);
    assert_eq!(f.locals[0].1.name, "x");
    assert!(f.locals[0].1.mutable);
    assert_eq!(f.locals[1].0, IrId(5));
    assert_eq!(f.locals[1].1.ty, IrType::Bool);
    assert!(!f.locals[1].1.mutable);
}

#[test]
fn memory_and_aggregate_instructions() {
    let mut builder = IrBuilder::new("m".to_string(), "m.hx".to_string());
    let id = builder.start_function(SymbolId::from_raw(1), "f".to_string(), FunctionSignatureBuilder::new().build());
    let p = builder.build_alloc(IrType::I64, None).unwrap();
    let v = builder.build_load(p, IrType::I64).unwrap();
    builder.build_store(p, v).unwrap();
    let g = builder.build_gep(p, vec![v], IrType::I64).unwrap();
    let c = builder.build_cast(v, IrType::I64, IrType::I32).unwrap();
    let s = builder.build_select(v, g, c).unwrap();
    let e = builder.build_extract_value(s, vec![0, 1]).unwrap();
    let n = builder.build_null().unwrap();
    let t = builder.build_bool(true).unwrap();
    let cp = builder.build_copy(t).unwrap();
    let call = builder.build_call(n, vec![e], IrType::Void).unwrap();
    let entry = entry_of(&builder, id);
    assert_eq!(entry.instructions.len(), 11);
    assert_eq!(entry.instructions[2], IrInstruction::Store { ptr: p, value: v });
    assert_eq!(entry.instructions[9], IrInstruction::Copy { dest: cp, src: t });
    assert_eq!(entry.instructions[10], IrInstruction::Call { dest: Some(call), func: n, args: vec![e] });
}

#[test]
fn finishing_clears_the_context_and_keeps_the_module() {
    let mut builder = IrBuilder::new("m".to_string(), "m.hx".to_string());
    builder.set_source_location(IrSourceLocation { file_id: 1, line: 2, column: 3 });
    builder.start_function(SymbolId::from_raw(1), "f".to_string(), FunctionSignatureBuilder::new().build());
    builder.finish_function();
    assert!(builder.current_function().is_none());
    assert_eq!(builder.current_block(), None);
    assert_eq!(builder.module.functions.len(), 1);
    let second = builder.start_function(SymbolId::from_raw(2), "g".to_string(), FunctionSignatureBuilder::new().build());
    assert_eq!(second, IrFunctionId(1));
    assert_eq!(builder.current_function().unwrap().name, "g");
}

#[test]
fn the_string_pool_keeps_the_first_index() {
    let mut pool = rayzor_ir::module::StringPool::new();
    assert_eq!(pool.add("a".to_string()), 0);
    assert_eq!(pool.add("b".to_string()), 1);
    assert_eq!(pool.add("a".to_string()), 0);
    assert_eq!(pool.add("a".to_string()), 0);
    assert_eq!(pool.strings.len(), 2);
}
