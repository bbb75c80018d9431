use rayzor_ir::builder::{FunctionSignatureBuilder, IrBuilder};
use rayzor_ir::functions::IrFunctionSignature;
use rayzor_ir::ids::{IrFunctionId, IrId, SymbolId};
use rayzor_ir::insert_free::{build_derived_set, insert_free_for_function, pointer_escapes, InsertFreePass, OptimizationResult};
use rayzor_ir::instructions::IrInstruction;
use rayzor_ir::module::IrExternFunction;
use rayzor_ir::types::IrType;

fn push(b: &mut IrBuilder, inst: IrInstruction) {
    let block = b.current_block().unwrap();
    b.current_function_mut().unwrap().cfg.get_block_mut(block).unwrap().add_instruction(inst);
}

fn entry_insts(b: &IrBuilder, id: IrFunctionId) -> Vec<IrInstruction> {
    let f = b.module.get_function(id).unwrap();
    let mut v = Vec::new();
    for i in &f.cfg.get_block(f.entry_block()).unwrap().instructions {
        v.push(rayzor_ir::inlining::copy_instruction(i));
    }
    v
}

fn start(b: &mut IrBuilder, name: &str) -> IrFunctionId {
    b.start_function(SymbolId::from_raw(1), name.to_string(), FunctionSignatureBuilder::new().build())
}

#[test]
fn a_local_allocation_is_freed_before_the_return() {
    let mut b = IrBuilder::new("m".to_string(), "m.hx".to_string());
    let f = start(&mut b, "f");
    let p = b.build_alloc(IrType::I64, None).unwrap();
    let v = b.build_int(1, IrType::I64).unwrap();
    b.build_store(p, v).unwrap();
    let q = b.build_gep(p, vec![v], IrType::I64).unwrap();
    b.build_load(q, IrType::I64).unwrap();
    b.build_return(None).unwrap();
    b.finish_function();
    let result = InsertFreePass::new().run_on_module(&mut b.module);
    assert!(result.modified);
    assert_eq!(result.stats, vec![("free_instructions_inserted".to_string(), 1)]);
    let insts = entry_insts(&b, f);
    assert_eq!(insts.len(), 6);
    assert_eq!(insts[5], IrInstruction::Free { ptr: p });
}

#[test]
fn returned_and_passed_pointers_escape() {
    let mut b = IrBuilder::new("m".to_string(), "m.hx".to_string());
    let f = start(&mut b, "f");
    let p = b.build_alloc(IrType::I64, None).unwrap();
    let q = b.build_copy(p).unwrap();
    b.build_return(Some(q)).unwrap();
    b.finish_function();
    let g = start(&mut b, "g");
    let r = b.build_alloc(IrType::I64, None).unwrap();
    push(&mut b, IrInstruction::CallDirect { dest: None, func_id: f, args: vec![r] });
    b.build_return(None).unwrap();
    b.finish_function();
    let result = InsertFreePass::new().run_on_module(&mut b.module);
    assert!(!result.modified);
    assert!(result.stats.is_empty());
    assert_eq!(entry_insts(&b, f).len(), 2);
    assert_eq!(entry_insts(&b, g).len(), 2);
}

#[test]
fn stored_values_escape_but_store_targets_do_not() {
    let mut b = IrBuilder::new("m".to_string(), "m.hx".to_string());
    start(&mut b, "f");
    let p = b.build_alloc(IrType::I64, None).unwrap();
    let slot = b.build_alloc(IrType::I64, None).unwrap();
    b.build_store(slot, p).unwrap();
    b.build_return(None).unwrap();
    let func = b.current_function().unwrap();
    let dp = build_derived_set(p, func);
    let ds = build_derived_set(slot, func);
    assert!(pointer_escapes(p, &dp, func));
    assert!(!pointer_escapes(slot, &ds, func));
    let func = b.current_function_mut().unwrap();
    assert_eq!(insert_free_for_function(func, &vec![], &vec![]), 1);
    let insts = &func.cfg.blocks[0].instructions;
    assert_eq!(insts[insts.len() - 1], IrInstruction::Free { ptr: slot });
}

#[test]
fn derived_pointers_are_followed() {
    let mut b = IrBuilder::new("m".to_string(), "m.hx".to_string());
    start(&mut b, "f");
    let p = b.build_alloc(IrType::I64, None).unwrap();
    let c = b.build_cast(p, IrType::I64, IrType::I32).unwrap();
    let d = b.build_copy(c).unwrap();
    let other = b.build_int(3, IrType::I64).unwrap();
    b.build_return(None).unwrap();
    let func = b.current_function().unwrap();
    let derived = build_derived_set(p, func);
    assert_eq!(derived.len(), 3);
    assert!(derived.contains(&p) && derived.contains(&c) && derived.contains(&d));
    assert!(!derived.contains(&other));
}

#[test]
fn an_existing_free_is_kept_and_not_repeated() {
    let mut b = IrBuilder::new("m".to_string(), "m.hx".to_string());
    let f = start(&mut b, "f");
    let p = b.build_alloc(IrType::I64, None).unwrap();
    push(&mut b, IrInstruction::Free { ptr: p });
    b.build_return(None).unwrap();
    b.finish_function();
    let result = InsertFreePass::new().run_on_module(&mut b.module);
    assert!(!result.modified);
    assert_eq!(entry_insts(&b, f).len(), 2);
}

#[test]
fn malloc_results_are_allocations_and_free_calls_count() {
    let mut b = IrBuilder::new("m".to_string(), "m.hx".to_string());
    let sig = || IrFunctionSignature {
        parameters: Vec::new(),
        return_type: IrType::Void,
        calling_convention: rayzor_ir::types::CallingConvention::C,
        can_throw: false,
        type_params: Vec::new(),
    };
    b.module.extern_functions.push(IrExternFunction { id: IrFunctionId(100), name: "malloc".to_string(), symbol_id: SymbolId::from_raw(0), signature: sig(), source: "rt".to_string() });
    b.module.extern_functions.push(IrExternFunction { id: IrFunctionId(101), name: "free".to_string(), symbol_id: SymbolId::from_raw(0), signature: sig(), source: "rt".to_string() });
    let f = start(&mut b, "f");
    let p = b.alloc_reg().unwrap();
    push(&mut b, IrInstruction::CallDirect { dest: Some(p), func_id: IrFunctionId(100), args: vec![] });
    let q = b.alloc_reg().unwrap();
    push(&mut b, IrInstruction::CallDirect { dest: Some(q), func_id: IrFunctionId(100), args: vec![] });
    push(&mut b, IrInstruction::CallDirect { dest: None, func_id: IrFunctionId(101), args: vec![q] });
    b.build_return(None).unwrap();
    b.finish_function();
    let result = InsertFreePass::new().run_on_module(&mut b.module);
    assert_eq!(result.stats, vec![("free_instructions_inserted".to_string(), 1)]);
    let insts = entry_insts(&b, f);
    assert_eq!(insts[insts.len() - 1], IrInstruction::Free { ptr: p });
}

#[test]
fn every_return_gets_the_frees() {
    let mut b = IrBuilder::new("m".to_string(), "m.hx".to_string());
    let f = start(&mut b, "f");
    let p = b.build_alloc(IrType::I64, None).unwrap();
    let c = b.build_bool(true).unwrap();
    let t = b.create_block().unwrap();
    let e = b.create_block().unwrap();
    b.build_cond_branch(c, t, e).unwrap();
    b.switch_to_block(t);
    b.build_return(None).unwrap();
    b.switch_to_block(e);
    b.build_return(None).unwrap();
    b.finish_function();
    let result = InsertFreePass::new().run_on_module(&mut b.module);
    assert_eq!(result.stats[0].1, 2);
    let func = b.module.get_function(f).unwrap();
    assert_eq!(func.cfg.get_block(t).unwrap().instructions, vec![IrInstruction::Free { ptr: p }]);
    assert_eq!(func.cfg.get_block(e).unwrap().instructions, vec![IrInstruction::Free { ptr: p }]);
    assert_eq!(entry_insts(&b, f).len(), 2);
}

#[test]
fn a_second_run_inserts_nothing() {
    let mut b = IrBuilder::new("m".to_string(), "m.hx".to_string());
    start(&mut b, "f");
    b.build_alloc(IrType::I64, None).unwrap();
    b.build_return(None).unwrap();
    b.finish_function();
    let mut pass = InsertFreePass::new();
    assert!(pass.run_on_module(&mut b.module).modified);
    assert!(!pass.run_on_module(&mut b.module).modified);
}

#[test]
fn the_pass_and_the_unchanged_result() {
    let pass = InsertFreePass::new();
    assert_eq!(pass.name(), "InsertFree");
    let r = OptimizationResult::unchanged();
    assert!(!r.modified);
    assert_eq!(r.instructions_eliminated, 0);
    assert_eq!(r.blocks_eliminated, 0);
    assert!(r.stats.is_empty());
}

#[test]
fn escapes_are_checked_against_the_given_set() {
    let mut b = IrBuilder::new("m".to_string(), "m.hx".to_string());
    let f = start(&mut b, "f");
    let p = b.build_alloc(IrType::I64, None).unwrap();
    let other = b.build_int(1, IrType::I64).unwrap();
    push(&mut b, IrInstruction::CallDirect { dest: None, func_id: f, args: vec![other] });
    b.build_return(None).unwrap();
    let func = b.current_function().unwrap();
    assert!(!pointer_escapes(p, &vec![], func));
    assert!(pointer_escapes(p, &vec![other], func));
    assert!(pointer_escapes(other, &vec![], func));
}
