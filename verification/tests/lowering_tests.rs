use rayzor_ir::builder::IrBuilder;
use rayzor_ir::hir::{HirBinaryOp, HirFunction, HirParam, HirTypeParam, HirUnaryOp, TypeId, TypeKind, TypeTable};
use rayzor_ir::ids::{IrBlockId, IrFunctionId, IrId, SymbolId};
use rayzor_ir::lowering::{
    build_function_signature, build_function_signature_with_class_type_params, convert_binary_op, convert_binary_op_to_mir, convert_type, convert_unary_op,
    find_loop_context, get_array_element_type, register_function_signature, register_function_signatures, HirToMirContext, LoopContext, MirBinaryOp,
};
use rayzor_ir::types::{BinaryOp, CallingConvention, CompareOp, IrType, UnaryOp};

fn ptr_void() -> IrType {
    IrType::Ptr(Box::new(IrType::Void))
}

fn table() -> TypeTable {
    TypeTable {
        types: vec![
            (TypeId(0), TypeKind::Int),
            (TypeId(1), TypeKind::Float),
            (TypeId(2), TypeKind::Bool),
            (TypeId(3), TypeKind::Void),
            (TypeId(4), TypeKind::String),
            (TypeId(5), TypeKind::Function { params: vec![TypeId(0), TypeId(2)], return_type: TypeId(1) }),
            (TypeId(6), TypeKind::Class { symbol_id: SymbolId(40) }),
            (TypeId(7), TypeKind::Enum),
            (TypeId(8), TypeKind::Optional { inner_type: TypeId(0) }),
            (TypeId(9), TypeKind::Abstract { underlying: Some(TypeId(1)) }),
            (TypeId(10), TypeKind::Abstract { underlying: None }),
            (TypeId(11), TypeKind::TypeParameter { symbol_id: SymbolId(42), name: Some("U".to_string()) }),
            (TypeId(12), TypeKind::TypeParameter { symbol_id: SymbolId(42), name: None }),
            (TypeId(13), TypeKind::TypeAlias { target_type: TypeId(8) }),
            (TypeId(14), TypeKind::Char),
            (TypeId(15), TypeKind::Array { element_type: TypeId(0) }),
            (TypeId(16), TypeKind::Dynamic),
        ],
    }
}

#[test]
fn front_end_types_convert() {
    let t = table();
    assert_eq!(convert_type(&t, TypeId(0)), IrType::I32);
    assert_eq!(convert_type(&t, TypeId(1)), IrType::F64);
    assert_eq!(convert_type(&t, TypeId(2)), IrType::Bool);
    assert_eq!(convert_type(&t, TypeId(3)), IrType::Void);
    assert_eq!(convert_type(&t, TypeId(4)), IrType::String);
    assert_eq!(
        convert_type(&t, TypeId(5)),
        IrType::Function { params: vec![IrType::I32, IrType::Bool], return_type: Box::new(IrType::F64), varargs: false }
    );
    assert_eq!(convert_type(&t, TypeId(6)), ptr_void());
    assert_eq!(convert_type(&t, TypeId(7)), IrType::I64);
    assert_eq!(convert_type(&t, TypeId(8)), IrType::Ptr(Box::new(IrType::I32)));
    assert_eq!(convert_type(&t, TypeId(9)), IrType::F64);
    assert_eq!(convert_type(&t, TypeId(10)), IrType::I32);
    assert_eq!(convert_type(&t, TypeId(11)), IrType::TypeVar("U".to_string()));
    assert_eq!(convert_type(&t, TypeId(12)), IrType::TypeVar("T42".to_string()));
    assert_eq!(convert_type(&t, TypeId(13)), IrType::Ptr(Box::new(IrType::I32)));
    assert_eq!(convert_type(&t, TypeId(14)), IrType::I32);
    assert_eq!(convert_type(&t, TypeId(15)), ptr_void());
    assert_eq!(convert_type(&t, TypeId(16)), ptr_void());
    assert_eq!(convert_type(&t, TypeId(99)), ptr_void());
}

fn add_function(extern_: bool) -> HirFunction {
    HirFunction {
        symbol_id: SymbolId(3),
        name: Some("add".to_string()),
        type_params: vec![HirTypeParam { name: None, raw: 7 }],
        params: vec![
            HirParam { symbol_id: SymbolId(31), name: "a".to_string(), ty: TypeId(0) },
            HirParam { symbol_id: SymbolId(32), name: "b".to_string(), ty: TypeId(8) },
        ],
        return_type: TypeId(0),
        is_extern: extern_,
        metadata: vec![],
        body: None,
    }
}

#[test]
fn signatures_of_front_end_functions() {
    let t = table();
    let sig = build_function_signature(&t, &add_function(false));
    assert_eq!(sig.parameters.len(), 2);
    assert_eq!(sig.parameters[1].name, "b");
    assert_eq!(sig.parameters[1].ty, IrType::Ptr(Box::new(IrType::I32)));
    assert_eq!(sig.return_type, IrType::I32);
    assert_eq!(sig.calling_convention, CallingConvention::Haxe);
    assert_eq!(sig.type_params, vec!["T7".to_string()]);
    assert!(!sig.can_throw);
    assert_eq!(build_function_signature(&t, &add_function(true)).calling_convention, CallingConvention::C);
}

#[test]
fn registering_creates_the_function_without_a_body() {
    let t = table();
    let mut b = IrBuilder::new("m".to_string(), "m.hx".to_string());
    let id = register_function_signature(&mut b, &t, SymbolId(3), &add_function(false));
    assert_eq!(id, IrFunctionId(0));
    assert!(b.current_function().is_none());
    let f = b.module.get_function(id).unwrap();
    assert_eq!(f.name, "add");
    assert_eq!(f.signature.parameters[0].reg, IrId(0));
    assert_eq!(f.signature.parameters[1].reg, IrId(1));
    assert_eq!(f.next_reg_id, 2);
    assert_eq!(f.cfg.blocks.len(), 1);
    assert!(f.cfg.get_block(IrBlockId(0)).unwrap().instructions.is_empty());
}

#[test]
fn every_function_of_a_module_is_registered_in_order() {
    let t = table();
    let mut b = IrBuilder::new("m".to_string(), "m.hx".to_string());
    let mut anonymous = add_function(false);
    anonymous.name = None;
    let fs = vec![(SymbolId(3), add_function(false)), (SymbolId(9), anonymous)];
    let map = register_function_signatures(&mut b, &t, &fs);
    assert_eq!(map, vec![(SymbolId(3), IrFunctionId(0)), (SymbolId(9), IrFunctionId(1))]);
    assert_eq!(b.module.functions.len(), 2);
    assert_eq!(b.module.functions[1].name, "func_9");
    assert_eq!(b.module.functions[1].symbol_id, SymbolId(9));
    assert_eq!(b.module.next_function_id, 2);
}

fn loop_ctx(cont: u32, brk: u32, label: Option<u32>) -> LoopContext {
    LoopContext {
        continue_block: IrBlockId(cont),
        break_block: IrBlockId(brk),
        label: label.map(SymbolId),
        exit_phi_nodes: vec![],
    }
}

#[test]
fn unlabelled_jump_targets_innermost_loop() {
    let stack = vec![loop_ctx(1, 2, Some(7)), loop_ctx(3, 4, None)];
    let found = find_loop_context(&stack, None).unwrap();
    assert_eq!(found.continue_block, IrBlockId(3));
    assert_eq!(found.break_block, IrBlockId(4));
}

#[test]
fn labelled_jump_targets_innermost_loop_with_that_label() {
    let stack = vec![loop_ctx(1, 2, Some(7)), loop_ctx(5, 6, Some(7)), loop_ctx(3, 4, None)];
    let found = find_loop_context(&stack, Some(SymbolId(7))).unwrap();
    assert_eq!(found.continue_block, IrBlockId(5));
    assert_eq!(found.break_block, IrBlockId(6));
}

#[test]
fn jump_outside_any_matching_loop_finds_nothing() {
    let empty: Vec<LoopContext> = vec![];
    assert!(find_loop_context(&empty, None).is_none());
    let stack = vec![loop_ctx(1, 2, Some(7))];
    assert!(find_loop_context(&stack, Some(SymbolId(8))).is_none());
}

#[test]
fn binary_operators_map_to_ir_operations() {
    assert_eq!(convert_binary_op_to_mir(HirBinaryOp::Add), MirBinaryOp::Binary(BinaryOp::Add));
    assert_eq!(convert_binary_op_to_mir(HirBinaryOp::Mod), MirBinaryOp::Binary(BinaryOp::Rem));
    assert_eq!(convert_binary_op_to_mir(HirBinaryOp::Le), MirBinaryOp::Compare(CompareOp::Le));
    assert_eq!(convert_binary_op_to_mir(HirBinaryOp::Ne), MirBinaryOp::Compare(CompareOp::Ne));
    assert_eq!(convert_binary_op_to_mir(HirBinaryOp::BitXor), MirBinaryOp::Binary(BinaryOp::Xor));
    assert_eq!(convert_binary_op_to_mir(HirBinaryOp::Shr), MirBinaryOp::Binary(BinaryOp::Shr));
    assert_eq!(convert_binary_op_to_mir(HirBinaryOp::And), MirBinaryOp::Binary(BinaryOp::Add));
    assert_eq!(convert_binary_op(HirBinaryOp::Mod), BinaryOp::Rem);
    assert_eq!(convert_binary_op(HirBinaryOp::BitAnd), BinaryOp::And);
    assert_eq!(convert_binary_op(HirBinaryOp::Shl), BinaryOp::Shl);
    assert_eq!(convert_binary_op(HirBinaryOp::Lt), BinaryOp::Add);
    assert_eq!(convert_binary_op(HirBinaryOp::Or), BinaryOp::Add);
}

#[test]
fn unary_operators_map_to_ir_operations() {
    assert_eq!(convert_unary_op(HirUnaryOp::Not), UnaryOp::Not);
    assert_eq!(convert_unary_op(HirUnaryOp::BitNot), UnaryOp::Not);
    assert_eq!(convert_unary_op(HirUnaryOp::Neg), UnaryOp::Neg);
    assert_eq!(convert_unary_op(HirUnaryOp::PostIncr), UnaryOp::Neg);
}

#[test]
fn array_element_type_is_read_from_the_table() {
    let t = TypeTable {
        types: vec![
            (TypeId(0), TypeKind::Int),
            (TypeId(1), TypeKind::Array { element_type: TypeId(0) }),
            (TypeId(1), TypeKind::Array { element_type: TypeId(5) }),
        ],
    };
    assert_eq!(get_array_element_type(&t, TypeId(1)), Some(TypeId(0)));
    assert_eq!(get_array_element_type(&t, TypeId(0)), None);
    assert_eq!(get_array_element_type(&t, TypeId(9)), None);
}

#[test]
fn class_type_parameters_come_before_the_methods_own() {
    let t = table();
    let class_tps = vec![HirTypeParam { name: Some("K".to_string()), raw: 1 }, HirTypeParam { name: None, raw: 2 }];
    let sig = build_function_signature_with_class_type_params(&t, &add_function(false), &class_tps);
    assert_eq!(sig.type_params, vec!["K".to_string(), "T2".to_string(), "T7".to_string()]);
    assert_eq!(sig.parameters.len(), 2);
    assert_eq!(sig.return_type, IrType::I32);
}

#[test]
fn instance_methods_get_an_implicit_this_first() {
    let t = table();
    let mut c = HirToMirContext::new("m".to_string(), "m.hx".to_string());
    let class_tps = vec![HirTypeParam { name: Some("V".to_string()), raw: 4 }];
    c.register_function_signature_with_class_type_params(&t, SymbolId(3), &add_function(false), Some(TypeId(6)), &class_tps);
    c.register_function_signature_with_class_type_params(&t, SymbolId(5), &add_function(true), None, &vec![]);
    assert!(c.builder.current_function().is_none());
    assert_eq!(c.get_function_id(SymbolId(3)), Some(IrFunctionId(0)));
    assert_eq!(c.get_function_id(SymbolId(5)), Some(IrFunctionId(1)));
    let m = &c.builder.module.functions[0];
    assert_eq!(m.signature.type_params, vec!["V".to_string(), "T7".to_string()]);
    let names: Vec<&str> = m.signature.parameters.iter().map(|p| p.name.as_str()).collect();
    assert_eq!(names, vec!["this", "a", "b"]);
    assert_eq!(m.signature.parameters[0].ty, ptr_void());
    assert_eq!(m.signature.parameters[2].reg, IrId(2));
    let s = &c.builder.module.functions[1];
    assert_eq!(s.signature.parameters.len(), 2);
    assert_eq!(s.signature.calling_convention, CallingConvention::C);
}
