use rayzor_ir::builder::{FunctionSignatureBuilder, IrBuilder};
use rayzor_ir::environment_layout::EnvironmentLayout;
use rayzor_ir::ids::{IrId, SymbolId};
use rayzor_ir::instructions::IrInstruction;
use rayzor_ir::types::{BinaryOp, IrType, IrValue};

fn layout() -> EnvironmentLayout {
    EnvironmentLayout::new(&[
        (SymbolId::from_raw(10), IrType::I32),
        (SymbolId::from_raw(11), IrType::Ptr(Box::new(IrType::U8))),
        (SymbolId::from_raw(12), IrType::Bool),
        (SymbolId::from_raw(13), IrType::I64),
    ])
}

fn builder_with_function() -> IrBuilder {
    let mut builder = IrBuilder::new("m".to_string(), "m.hx".to_string());
    let sig = FunctionSignatureBuilder::new().param("env".to_string(), IrType::Ptr(Box::new(IrType::Void))).build();
    builder.start_function(SymbolId::from_raw(1), "lambda".to_string(), sig);
    builder
}

#[test]
fn captures_get_consecutive_eight_byte_slots() {
    let l = layout();
    assert_eq!(l.fields.len(), 4);
    assert_eq!(l.total_size, 32);
    assert_eq!(l.alignment, 8);
    for (i, f) in l.fields.iter().enumerate() {
        assert_eq!(f.index, i);
        assert_eq!(f.offset, 8 * i);
        assert_eq!(f.storage_ty, IrType::I64);
    }
    assert_eq!(l.fields[1].ty, IrType::Ptr(Box::new(IrType::U8)));
}

#[test]
fn only_narrow_scalars_need_a_cast() {
    let l = layout();
    assert!(l.fields[0].needs_cast);
    assert!(!l.fields[1].needs_cast);
    assert!(l.fields[2].needs_cast);
    assert!(!l.fields[3].needs_cast);
    let others = EnvironmentLayout::new(&[
        (SymbolId::from_raw(1), IrType::U16),
        (SymbolId::from_raw(2), IrType::String),
        (SymbolId::from_raw(3), IrType::F64),
        (SymbolId::from_raw(4), IrType::Any),
    ]);
    assert!(others.fields[0].needs_cast);
    assert!(!others.fields[1].needs_cast);
    assert!(!others.fields[2].needs_cast);
    assert!(!others.fields[3].needs_cast);
}

#[test]
fn empty_environment() {
    let l = EnvironmentLayout::new(&[]);
    assert!(l.fields.is_empty());
    assert_eq!(l.total_size, 0);
    assert!(l.find_field(SymbolId::from_raw(1)).is_none());
}

#[test]
fn find_field_takes_the_first_match() {
    let l = EnvironmentLayout::new(&[
        (SymbolId::from_raw(5), IrType::I32),
        (SymbolId::from_raw(6), IrType::I64),
        (SymbolId::from_raw(5), IrType::Bool),
    ]);
    assert_eq!(l.find_field(SymbolId::from_raw(5)).unwrap().index, 0);
    assert_eq!(l.find_field(SymbolId::from_raw(6)).unwrap().offset, 8);
    assert!(l.find_field(SymbolId::from_raw(7)).is_none());
}

#[test]
fn load_of_a_narrow_field_casts() {
    let l = layout();
    let mut builder = builder_with_function();
    let env = IrId(0);
    let r = l.load_field(&mut builder, env, SymbolId::from_raw(12)).unwrap();
    assert_eq!(r, IrId(4));
    let f = builder.current_function().unwrap();
    let entry = f.cfg.get_block(f.entry_block()).unwrap();
    assert_eq!(entry.instructions.len(), 4);
    assert_eq!(entry.instructions[0], IrInstruction::Const { dest: IrId(1), value: IrValue::I64(16) });
    assert_eq!(entry.instructions[1], IrInstruction::BinOp { dest: IrId(2), op: BinaryOp::Add, left: env, right: IrId(1) });
    assert_eq!(entry.instructions[2], IrInstruction::Load { dest: IrId(3), ptr: IrId(2), ty: IrType::I64 });
    assert_eq!(entry.instructions[3], IrInstruction::Cast { dest: IrId(4), src: IrId(3), from_ty: IrType::I64, to_ty: IrType::Bool });
    assert_eq!(f.locals.len(), 3);
    assert_eq!(f.locals[0].1.ty, IrType::Ptr(Box::new(IrType::Void)));
    assert_eq!(f.locals[1].1.ty, IrType::I64);
    assert_eq!(f.locals[2].1.ty, IrType::Bool);
}

#[test]
fn load_of_a_pointer_field_keeps_its_type() {
    let l = layout();
    let mut builder = builder_with_function();
    let r = l.load_field(&mut builder, IrId(0), SymbolId::from_raw(11)).unwrap();
    assert_eq!(r, IrId(3));
    let f = builder.current_function().unwrap();
    let entry = f.cfg.get_block(f.entry_block()).unwrap();
    assert_eq!(entry.instructions.len(), 3);
    assert_eq!(entry.instructions[0], IrInstruction::Const { dest: IrId(1), value: IrValue::I64(8) });
    assert_eq!(f.locals[1].0, IrId(3));
    assert_eq!(f.locals[1].1.ty, IrType::Ptr(Box::new(IrType::U8)));
}

#[test]
fn load_of_an_unknown_symbol_emits_nothing() {
    let l = layout();
    let mut builder = builder_with_function();
    assert_eq!(l.load_field(&mut builder, IrId(0), SymbolId::from_raw(99)), None);
    assert_eq!(l.store_field(&mut builder, IrId(0), SymbolId::from_raw(99), IrId(0)), None);
    let f = builder.current_function().unwrap();
    assert_eq!(f.next_reg_id, 1);
    assert!(f.cfg.get_block(f.entry_block()).unwrap().instructions.is_empty());
}

#[test]
fn store_casts_to_the_slot_type_first() {
    let l = layout();
    let mut builder = builder_with_function();
    let value = builder.alloc_reg().unwrap();
    l.store_field(&mut builder, IrId(0), SymbolId::from_raw(10), value).unwrap();
    let f = builder.current_function().unwrap();
    let entry = f.cfg.get_block(f.entry_block()).unwrap();
    assert_eq!(entry.instructions.len(), 4);
    assert_eq!(entry.instructions[0], IrInstruction::Cast { dest: IrId(2), src: value, from_ty: IrType::I32, to_ty: IrType::I64 });
    assert_eq!(entry.instructions[1], IrInstruction::Const { dest: IrId(3), value: IrValue::I64(0) });
    assert_eq!(entry.instructions[2], IrInstruction::BinOp { dest: IrId(4), op: BinaryOp::Add, left: IrId(0), right: IrId(3) });
    assert_eq!(entry.instructions[3], IrInstruction::Store { ptr: IrId(4), value: IrId(2) });
}

#[test]
fn store_of_a_wide_field_stores_the_value_itself() {
    let l = layout();
    let mut builder = builder_with_function();
    l.store_field(&mut builder, IrId(0), SymbolId::from_raw(13), IrId(0)).unwrap();
    let f = builder.current_function().unwrap();
    let entry = f.cfg.get_block(f.entry_block()).unwrap();
    assert_eq!(entry.instructions.len(), 3);
    assert_eq!(entry.instructions[0], IrInstruction::Const { dest: IrId(1), value: IrValue::I64(24) });
    assert_eq!(entry.instructions[2], IrInstruction::Store { ptr: IrId(2), value: IrId(0) });
}

#[test]
fn store_then_load_use_the_same_slot() {
    let l = layout();
    let mut builder = builder_with_function();
    l.store_field(&mut builder, IrId(0), SymbolId::from_raw(12), IrId(0)).unwrap();
    l.load_field(&mut builder, IrId(0), SymbolId::from_raw(12)).unwrap();
    let f = builder.current_function().unwrap();
    let entry = f.cfg.get_block(f.entry_block()).unwrap();
    assert_eq!(entry.instructions[1], IrInstruction::Const { dest: IrId(2), value: IrValue::I64(16) });
    assert_eq!(entry.instructions[4], IrInstruction::Const { dest: IrId(4), value: IrValue::I64(16) });
}

#[test]
fn without_a_block_only_a_register_is_spent() {
    let l = layout();
    let mut builder = IrBuilder::new("m".to_string(), "m.hx".to_string());
    assert_eq!(l.load_field(&mut builder, IrId(0), SymbolId::from_raw(10)), None);
    let mut builder = builder_with_function();
    builder.switch_to_block(rayzor_ir::ids::IrBlockId(7));
    assert_eq!(l.load_field(&mut builder, IrId(0), SymbolId::from_raw(10)), None);
    assert_eq!(builder.current_function().unwrap().next_reg_id, 2);
}
