use rayzor_ir::builder::{FunctionSignatureBuilder, IrBuilder};
use rayzor_ir::externs::{
    arg_name, extern_function_signature, get_or_register_extern_function, register_stdlib_mir_forward_ref,
    stdlib_mir_wrapper_signature,
};
use rayzor_ir::ids::{IrFunctionId, IrId, SymbolId};
use rayzor_ir::module::IrModule;
use rayzor_ir::types::{CallingConvention, IrType};

fn ptr(t: IrType) -> IrType {
    IrType::Ptr(Box::new(t))
}

#[test]
fn stdlib_wrapper_signatures() {
    assert_eq!(stdlib_mir_wrapper_signature("Thread_spawn"), Some((vec![ptr(IrType::U8)], ptr(IrType::U8))));
    assert_eq!(stdlib_mir_wrapper_signature("Thread_yieldNow"), Some((vec![], IrType::Void)));
    assert_eq!(
        stdlib_mir_wrapper_signature("VecI32_set"),
        Some((vec![ptr(IrType::U8), IrType::I64, IrType::I32], IrType::Void))
    );
    assert_eq!(stdlib_mir_wrapper_signature("VecF64_get"), Some((vec![ptr(IrType::U8), IrType::I64], IrType::F64)));
    assert_eq!(stdlib_mir_wrapper_signature("Arc_strongCount"), Some((vec![ptr(IrType::U8)], IrType::U64)));
    assert_eq!(stdlib_mir_wrapper_signature("VecBool_first"), None);
    assert_eq!(stdlib_mir_wrapper_signature("thread_spawn"), None);
    assert_eq!(stdlib_mir_wrapper_signature(""), None);
}

#[test]
fn runtime_function_signatures() {
    assert_eq!(extern_function_signature("haxe_math_abs"), Some((vec![IrType::F64], IrType::F64)));
    assert_eq!(extern_function_signature("haxe_math_random"), Some((vec![], IrType::F64)));
    assert_eq!(extern_function_signature("haxe_sys_get_env"), Some((vec![ptr(IrType::Void)], ptr(IrType::Void))));
    assert_eq!(
        extern_function_signature("haxe_intmap_keys"),
        Some((vec![ptr(IrType::Void), ptr(IrType::I64)], ptr(IrType::I64)))
    );
    assert_eq!(extern_function_signature("haxe_box_bool_ptr"), Some((vec![IrType::I64], ptr(IrType::U8))));
    assert_eq!(extern_function_signature("haxe_trace"), None);
}

#[test]
fn parameter_names() {
    assert_eq!(arg_name(0), "arg0");
    assert_eq!(arg_name(9), "arg9");
    assert_eq!(arg_name(10), "arg10");
    assert_eq!(arg_name(4071), "arg4071");
}

#[test]
fn a_runtime_function_is_registered_once() {
    let mut m = IrModule::new("m".to_string(), "m.hx".to_string());
    m.next_function_id = 5;
    let id = get_or_register_extern_function(&mut m, "haxe_print", vec![IrType::I64], IrType::Void);
    assert_eq!(id, IrFunctionId(5));
    assert_eq!(m.next_function_id, 6);
    assert_eq!(m.functions.len(), 1);
    assert_eq!(m.extern_functions.len(), 1);
    let f = &m.functions[0];
    assert_eq!(f.name, "haxe_print");
    assert!(f.cfg.blocks.is_empty());
    assert_eq!(f.signature.parameters[0].name, "arg0");
    assert_eq!(f.signature.parameters[0].reg, IrId(0));
    assert_eq!(f.signature.calling_convention, CallingConvention::C);
    let e = &m.extern_functions[0];
    assert_eq!(e.id, id);
    assert_eq!(e.source, "rayzor_runtime");
    assert_eq!(e.signature.parameters.len(), 1);
    let again = get_or_register_extern_function(&mut m, "haxe_print", vec![IrType::I64], IrType::Void);
    assert_eq!(again, id);
    assert_eq!(m.next_function_id, 6);
    assert_eq!(m.functions.len(), 1);
}

#[test]
fn more_parameters_widen_the_signature() {
    let mut m = IrModule::new("m".to_string(), "m.hx".to_string());
    let id = get_or_register_extern_function(&mut m, "haxe_log", vec![IrType::I64], IrType::Void);
    get_or_register_extern_function(&mut m, "haxe_log", vec![], IrType::Void);
    assert_eq!(m.extern_functions[0].signature.parameters.len(), 1);
    let same = get_or_register_extern_function(&mut m, "haxe_log", vec![IrType::I64, IrType::Bool], IrType::I32);
    assert_eq!(same, id);
    assert_eq!(m.extern_functions[0].signature.parameters.len(), 2);
    assert_eq!(m.extern_functions[0].signature.parameters[1].name, "arg1");
    assert_eq!(m.extern_functions[0].signature.return_type, IrType::I32);
    assert_eq!(m.functions[0].signature.parameters.len(), 2);
    assert_eq!(m.functions[0].signature.parameters[1].ty, IrType::Bool);
}

#[test]
fn known_runtime_signatures_take_precedence() {
    let mut m = IrModule::new("m".to_string(), "m.hx".to_string());
    get_or_register_extern_function(&mut m, "haxe_math_sqrt", vec![IrType::I64], IrType::I64);
    assert_eq!(m.extern_functions[0].signature.parameters[0].ty, IrType::F64);
    assert_eq!(m.extern_functions[0].signature.return_type, IrType::F64);
}

#[test]
fn a_mir_wrapper_with_a_body_is_used_as_it_is() {
    let mut b = IrBuilder::new("m".to_string(), "m.hx".to_string());
    let id = b.start_function(SymbolId::from_raw(3), "Channel_len".to_string(), FunctionSignatureBuilder::new().build());
    b.build_return(None).unwrap();
    b.finish_function();
    let mut m = b.module;
    let found = get_or_register_extern_function(&mut m, "Channel_len", vec![ptr(IrType::U8)], IrType::I32);
    assert_eq!(found, id);
    assert!(m.extern_functions.is_empty());
    assert_eq!(m.functions.len(), 1);
    assert_eq!(register_stdlib_mir_forward_ref(&mut m, "Channel_len", vec![], IrType::Void), id);
}

#[test]
fn a_bodiless_function_is_taken_and_widened() {
    let mut m = IrModule::new("m".to_string(), "m.hx".to_string());
    let id = register_stdlib_mir_forward_ref(&mut m, "custom", vec![], IrType::Void);
    m.functions[0].cfg.blocks.clear();
    let same = get_or_register_extern_function(&mut m, "custom", vec![IrType::I32], IrType::Void);
    assert_eq!(same, id);
    assert_eq!(m.functions[0].signature.parameters.len(), 1);
    assert!(m.extern_functions.is_empty());
}

#[test]
fn forward_references_to_stdlib_functions() {
    let mut m = IrModule::new("m".to_string(), "m.hx".to_string());
    let id = register_stdlib_mir_forward_ref(&mut m, "Mutex_lock", vec![IrType::I32], IrType::I32);
    assert_eq!(id, IrFunctionId(0));
    assert_eq!(m.next_function_id, 1);
    let f = &m.functions[0];
    assert_eq!(f.name, "Mutex_lock");
    assert_eq!(f.signature.parameters.len(), 1);
    assert_eq!(f.signature.parameters[0].ty, ptr(IrType::U8));
    assert_eq!(f.signature.return_type, ptr(IrType::U8));
    assert_eq!(f.cfg.blocks.len(), 1);
    assert!(m.extern_functions.is_empty());
    assert_eq!(register_stdlib_mir_forward_ref(&mut m, "Mutex_lock", vec![], IrType::Void), id);
    assert_eq!(m.functions.len(), 1);
    let other = register_stdlib_mir_forward_ref(&mut m, "my_helper", vec![IrType::Bool], IrType::I64);
    assert_eq!(other, IrFunctionId(1));
    assert_eq!(m.functions[1].signature.parameters[0].ty, IrType::Bool);
}
