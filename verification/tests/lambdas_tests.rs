use rayzor_ir::builder::FunctionSignatureBuilder;
use rayzor_ir::hir::{HirCapture, HirLambdaParam, TypeId, TypeKind, TypeTable};
use rayzor_ir::lowering::HirToMirContext;
use rayzor_ir::functions::IrFunction;
use rayzor_ir::ids::{IrBlockId, IrFunctionId, IrId, SymbolId};
use rayzor_ir::instructions::{IrInstruction, IrTerminator};
use rayzor_ir::lambdas::{finalize_lambda_terminator_static, infer_lambda_return_type};
use rayzor_ir::types::{CompareOp, IrType, IrValue};

fn lambda() -> IrFunction {
    let sig = FunctionSignatureBuilder::new().param("env".to_string(), IrType::Ptr(Box::new(IrType::Void))).build();
    IrFunction::new(IrFunctionId(1), SymbolId(1), "lambda_0".to_string(), sig)
}

#[test]
fn return_type_comes_from_locals_first() {
    let mut f = lambda();
    f.register_local(IrId(0), IrType::I64);
    f.register_local(IrId(0), IrType::Bool);
    f.cfg.blocks[0].set_terminator(IrTerminator::Return { value: Some(IrId(0)) });
    assert_eq!(infer_lambda_return_type(&f, IrBlockId(0), None), IrType::Bool);
}

#[test]
fn return_type_comes_from_the_defining_instruction() {
    let mut f = lambda();
    let b1 = f.cfg.create_block();
    f.cfg.blocks[0].add_instruction(IrInstruction::Cmp { dest: IrId(5), op: CompareOp::Eq, left: IrId(0), right: IrId(0) });
    f.cfg.blocks[0].set_terminator(IrTerminator::Branch { target: b1 });
    f.cfg.blocks[1].set_terminator(IrTerminator::Return { value: Some(IrId(5)) });
    assert_eq!(infer_lambda_return_type(&f, IrBlockId(0), None), IrType::Bool);

    let mut g = lambda();
    g.cfg.blocks[0].add_instruction(IrInstruction::Const { dest: IrId(3), value: IrValue::Null });
    g.cfg.blocks[0].set_terminator(IrTerminator::Return { value: Some(IrId(3)) });
    assert_eq!(infer_lambda_return_type(&g, IrBlockId(0), None), IrType::Ptr(Box::new(IrType::Void)));
}

#[test]
fn return_type_falls_back_to_body_result_then_void() {
    let mut f = lambda();
    f.cfg.blocks[0].set_terminator(IrTerminator::Return { value: Some(IrId(9)) });
    f.register_local(IrId(4), IrType::I32);
    assert_eq!(infer_lambda_return_type(&f, IrBlockId(0), Some(IrId(4))), IrType::I32);
    assert_eq!(infer_lambda_return_type(&f, IrBlockId(0), Some(IrId(8))), IrType::Void);
    assert_eq!(infer_lambda_return_type(&f, IrBlockId(0), None), IrType::Void);
}

#[test]
fn unterminated_lambda_returns_a_default_value() {
    let mut f = lambda();
    assert_eq!(finalize_lambda_terminator_static(&mut f, IrBlockId(0), None, &IrType::I32), Some(()));
    assert_eq!(f.cfg.blocks[0].instructions, vec![IrInstruction::Const { dest: IrId(1), value: IrValue::I32(0) }]);
    assert_eq!(f.cfg.blocks[0].terminator, IrTerminator::Return { value: Some(IrId(1)) });
    assert_eq!(f.next_reg_id, 2);
}

#[test]
fn finalizing_keeps_an_existing_terminator_and_uses_the_body_result() {
    let mut f = lambda();
    assert_eq!(finalize_lambda_terminator_static(&mut f, IrBlockId(0), Some(IrId(0)), &IrType::I64), Some(()));
    assert_eq!(f.cfg.blocks[0].terminator, IrTerminator::Return { value: Some(IrId(0)) });
    assert_eq!(finalize_lambda_terminator_static(&mut f, IrBlockId(0), None, &IrType::Bool), Some(()));
    assert_eq!(f.cfg.blocks[0].terminator, IrTerminator::Return { value: Some(IrId(0)) });
    assert!(f.cfg.blocks[0].instructions.is_empty());
    let mut g = lambda();
    assert_eq!(finalize_lambda_terminator_static(&mut g, IrBlockId(0), Some(IrId(0)), &IrType::Void), Some(()));
    assert_eq!(g.cfg.blocks[0].terminator, IrTerminator::Return { value: None });
    assert_eq!(finalize_lambda_terminator_static(&mut g, IrBlockId(7), None, &IrType::Void), None);
}

#[test]
fn lambda_skeleton_takes_environment_then_parameters() {
    let table = TypeTable { types: vec![(TypeId(0), TypeKind::Int), (TypeId(1), TypeKind::Bool)] };
    let mut c = HirToMirContext::new("m".to_string(), "m.hx".to_string());
    let params = vec![HirLambdaParam { name: Some("x".to_string()), ty: TypeId(0) }, HirLambdaParam { name: None, ty: TypeId(1) }];
    let captures = vec![HirCapture { symbol: SymbolId(8), ty: TypeId(1) }];
    let l = c.generate_lambda_skeleton(&table, &params, &captures);
    assert_eq!(l.func_id, IrFunctionId(0));
    assert_eq!(l.entry_block, IrBlockId(0));
    assert_eq!(l.param_offset, 1);
    let layout = l.env_layout.unwrap();
    assert_eq!(layout.fields.len(), 1);
    assert_eq!(layout.fields[0].ty, IrType::Bool);
    let f = &c.builder.module.functions[0];
    assert_eq!(f.name, "<lambda_0>");
    assert_eq!(f.symbol_id, SymbolId(1000000));
    let names: Vec<(&str, u32)> = f.signature.parameters.iter().map(|p| (p.name.as_str(), p.reg.0)).collect();
    assert_eq!(names, vec![("env", 0), ("x", 1), ("<param>", 2)]);
    assert_eq!(f.signature.return_type, IrType::Any);
    assert!(c.builder.current_function().is_none());

    let m = c.generate_lambda_skeleton(&table, &params, &vec![]);
    assert_eq!(m.param_offset, 0);
    assert!(m.env_layout.is_none());
    assert_eq!(c.builder.module.functions[1].name, "<lambda_1>");
    assert_eq!(c.builder.module.functions[1].symbol_id, SymbolId(1000001));
    assert_eq!(c.builder.module.functions[1].signature.parameters[0].name, "x");
    assert_eq!(c.lambda_counter, 2);
}
