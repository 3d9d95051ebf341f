use abi_checker::abis::rust::write_rust_prefix;
use abi_checker::abis::rust::write_rust_signature;
use abi_checker::abis::rust::CompilerRun;
use abi_checker::abis::rust::RustAbi;
use abi_checker::abis::rust_text::OUTPUT_NAME;
use abi_checker::abis::rust_text::OUT_PARAM_NAME;
use abi_checker::abis::rust_unit::RUST_TEST_PREFIX;
use abi_checker::error::BuildError;
use abi_checker::error::GenerateError;
use abi_checker::schema::CallingConvention;
use abi_checker::schema::Func;
use abi_checker::schema::Test;
use abi_checker::value::FloatVal;
use abi_checker::value::IntVal;
use abi_checker::value::Val;

fn int32(v: i32) -> Val {
    Val::Int(IntVal::c_int32_t(v))
}

fn byte(v: u8) -> Val {
    Val::Int(IntVal::c_uint8_t(v))
}

fn record(name: &str, fields: Vec<Val>) -> Val {
    Val::Struct(String::from(name), fields)
}

fn func(name: &str, conventions: Vec<CallingConvention>, inputs: Vec<Val>, output: Option<Val>) -> Func {
    Func { name: String::from(name), conventions, inputs, output }
}

fn test_of(funcs: Vec<Func>) -> Test {
    Test { name: String::from("t"), funcs }
}

#[test]
fn backend_names() {
    assert_eq!(RustAbi.name(), "rust");
    assert_eq!(RustAbi.src_ext(), "rs");
    assert_eq!(OUTPUT_NAME, "output");
    assert_eq!(OUT_PARAM_NAME, "out");
}

#[test]
fn convention_names() {
    assert_eq!(CallingConvention::C.rust_convention_decl(), "C");
    assert_eq!(CallingConvention::System.rust_convention_decl(), "system");
    assert_eq!(CallingConvention::Win64.rust_convention_decl(), "win64");
    assert_eq!(CallingConvention::Sysv64.rust_convention_decl(), "sysv64");
    assert_eq!(CallingConvention::Aapcs.rust_convention_decl(), "aapcs");
    assert_eq!(CallingConvention::Stdcall.rust_convention_decl(), "stdcall");
    assert_eq!(CallingConvention::Fastcall.rust_convention_decl(), "fastcall");
    assert_eq!(CallingConvention::Vectorcall.rust_convention_decl(), "vectorcall");
}

#[test]
fn concrete_conventions() {
    assert!(!CallingConvention::All.concrete());
    assert!(!CallingConvention::Handwritten.concrete());
    assert!(CallingConvention::C.concrete());
    assert!(CallingConvention::Vectorcall.concrete());
}

#[test]
fn conventions_of_a_function() {
    let f = func("f", vec![CallingConvention::Stdcall, CallingConvention::Win64], vec![], None);
    assert!(f.has_convention(CallingConvention::Stdcall));
    assert!(f.has_convention(CallingConvention::Win64));
    assert!(!f.has_convention(CallingConvention::C));
    assert!(!f.has_convention(CallingConvention::All));
    assert!(!f.has_convention(CallingConvention::Handwritten));
    let none = func("g", vec![], vec![], None);
    assert!(!none.has_convention(CallingConvention::C));
}

#[test]
fn all_stands_for_every_concrete_convention() {
    let f = func("f", vec![CallingConvention::All], vec![], None);
    assert!(f.has_convention(CallingConvention::C));
    assert!(f.has_convention(CallingConvention::Vectorcall));
    assert!(f.has_convention(CallingConvention::All));
    assert!(!f.has_convention(CallingConvention::Handwritten));
    let handwritten = func("h", vec![CallingConvention::Handwritten], vec![], None);
    assert!(handwritten.has_convention(CallingConvention::Handwritten));
    assert!(!handwritten.has_convention(CallingConvention::C));
}

#[test]
fn functions_called_under_a_convention() {
    let test = test_of(vec![
        func("a", vec![CallingConvention::C], vec![], None),
        func("b", vec![CallingConvention::Stdcall], vec![], None),
        func("c", vec![CallingConvention::All], vec![], None),
        func("d", vec![CallingConvention::Stdcall, CallingConvention::C], vec![], None),
    ]);
    assert_eq!(test.called_under(CallingConvention::C), vec!["a", "c", "d"]);
    assert_eq!(test.called_under(CallingConvention::Stdcall), vec!["b", "c", "d"]);
    assert_eq!(test.called_under(CallingConvention::Aapcs), vec!["c"]);
}

#[test]
fn signatures() {
    let mut out = String::from("  ");
    let plain = func("sum", vec![], vec![int32(1), Val::Ref(Box::new(byte(2)))], Some(int32(3)));
    assert_eq!(write_rust_signature(&mut out, &plain), Ok(()));
    assert_eq!(out, "  fn sum(arg0: i32, arg1: &u8, ) -> i32");
    let mut out = String::new();
    let nothing = func("nothing", vec![], vec![], None);
    assert_eq!(write_rust_signature(&mut out, &nothing), Ok(()));
    assert_eq!(out, "fn nothing()");
    let mut out = String::new();
    let by_ref = func("fill", vec![], vec![int32(1)], Some(Val::Ref(Box::new(record("P", vec![])))));
    assert_eq!(write_rust_signature(&mut out, &by_ref), Ok(()));
    assert_eq!(out, "fn fill(arg0: i32, out: &mut P)");
}

#[test]
fn signature_of_many_arguments() {
    let inputs: Vec<Val> = (0..40).map(int32).collect();
    let mut out = String::new();
    assert_eq!(write_rust_signature(&mut out, &func("wide", vec![], inputs, None)), Ok(()));
    assert!(out.starts_with("fn wide(arg0: i32, arg1: i32, "));
    assert!(out.ends_with("arg38: i32, arg39: i32, )"));
}

#[test]
fn signature_with_an_untyped_value() {
    let error = BuildError::Generate { func: String::from("bad"), error: GenerateError::EmptyArray };
    let mut out = String::from("kept");
    let input = func("bad", vec![], vec![int32(1), Val::Array(vec![])], None);
    assert_eq!(write_rust_signature(&mut out, &input), Err(error.clone()));
    assert_eq!(out, "kept");
    let output = func("bad", vec![], vec![], Some(Val::Array(vec![])));
    assert_eq!(write_rust_signature(&mut out, &output), Err(error.clone()));
    let by_ref = func("bad", vec![], vec![], Some(Val::Ref(Box::new(Val::Array(vec![])))));
    assert_eq!(write_rust_signature(&mut out, &by_ref), Err(error));
    assert_eq!(out, "kept");
}

#[test]
fn prelude_declares_each_struct_once() {
    let pair = || record("Pair", vec![int32(1), int32(2)]);
    let test = test_of(vec![
        func("a", vec![CallingConvention::C], vec![pair(), int32(1)], Some(pair())),
        func(
            "b",
            vec![CallingConvention::C],
            vec![record("Wrap", vec![pair(), Val::Float(FloatVal::Single(String::from("1")))])],
            Some(Val::Array(vec![record("Item", vec![byte(1)])])),
        ),
    ]);
    let mut out = String::from("// start\n");
    assert_eq!(write_rust_prefix(&mut out, &test), Ok(()));
    let expected = [
        "",
        "#[repr(C)]",
        "pub struct Pair {",
        "    field0: i32,",
        "    field1: i32,",
        "}",
        "",
        "#[repr(C)]",
        "pub struct Wrap {",
        "    field0: Pair,",
        "    field1: f32,",
        "}",
        "",
        "#[repr(C)]",
        "pub struct Item {",
        "    field0: u8,",
        "}",
        "",
    ]
    .join("\n");
    assert_eq!(out, format!("// start\n{}{}", RUST_TEST_PREFIX, expected));
}

#[test]
fn prelude_of_a_test_without_structs() {
    let mut out = String::new();
    assert_eq!(write_rust_prefix(&mut out, &test_of(vec![])), Ok(()));
    assert_eq!(out, RUST_TEST_PREFIX);
}

#[test]
fn prelude_rejects_a_second_definition() {
    let test = test_of(vec![func(
        "f",
        vec![],
        vec![record("Outer", vec![record("P", vec![int32(1)])])],
        Some(record("P", vec![byte(1)])),
    )]);
    let mut out = String::from("kept");
    assert_eq!(
        write_rust_prefix(&mut out, &test),
        Err(BuildError::InconsistentStructDefinition {
            name: String::from("P"),
            old_decl: String::from("\n#[repr(C)]\npub struct P {\n    field0: i32,\n}"),
            new_decl: String::from("\n#[repr(C)]\npub struct P {\n    field0: u8,\n}"),
        })
    );
    assert_eq!(out, "kept");
}

#[test]
fn prelude_accepts_the_same_definition_with_other_values() {
    let test = test_of(vec![func(
        "f",
        vec![],
        vec![record("P", vec![int32(1)]), record("P", vec![int32(2)])],
        Some(record("P", vec![int32(3)])),
    )]);
    let mut out = String::new();
    assert_eq!(write_rust_prefix(&mut out, &test), Ok(()));
    assert_eq!(out.matches("pub struct P {").count(), 1);
}

#[test]
fn prelude_rejects_a_value_that_cannot_be_declared() {
    let test = test_of(vec![
        func("fine", vec![], vec![int32(1)], None),
        func("broken", vec![], vec![int32(1)], Some(record("S", vec![Val::Array(vec![])]))),
    ]);
    let mut out = String::new();
    assert_eq!(
        write_rust_prefix(&mut out, &test),
        Err(BuildError::Generate { func: String::from("broken"), error: GenerateError::EmptyArray })
    );
    assert_eq!(out, "");
}

#[test]
fn caller_with_reference_inputs_and_two_functions() {
    let test = test_of(vec![
        func("skip", vec![CallingConvention::Stdcall], vec![], None),
        func(
            "take",
            vec![CallingConvention::All],
            vec![Val::Ref(Box::new(record("P", vec![int32(7)]))), Val::Bool(true)],
            None,
        ),
    ]);
    let mut src = String::new();
    RustAbi.generate_caller(&mut src, &test, CallingConvention::Fastcall).unwrap();
    let expected = [
        "",
        "#[repr(C)]",
        "pub struct P {",
        "    field0: i32,",
        "}",
        "extern \"fastcall\" {",
        "  fn skip();",
        "  fn take(arg0: &P, arg1: bool, );",
        "}",
        "",
        "#[no_mangle] pub extern \"C\" fn do_test() {",
        "   unsafe {",
        "        let arg0: P = P { field0: 7, };",
        "        let arg1: bool = true;",
        "",
        "        WRITE.unwrap()(CALLER_INPUTS, &arg0.field0 as *const _ as *const _, core::mem::size_of_val(&arg0.field0) as u32);",
        "        FINISHED_VAL.unwrap()(CALLER_INPUTS);",
        "        WRITE.unwrap()(CALLER_INPUTS, &arg1 as *const _ as *const _, core::mem::size_of_val(&arg1) as u32);",
        "        FINISHED_VAL.unwrap()(CALLER_INPUTS);",
        "",
        "        take(&arg0, arg1, );",
        "",
        "        FINISHED_FUNC.unwrap()(CALLER_INPUTS, CALLER_OUTPUTS);",
        "   }",
        "}",
        "",
    ]
    .join("\n");
    assert_eq!(src, format!("{}{}", RUST_TEST_PREFIX, expected));
}

#[test]
fn callee_with_reference_inputs_and_no_output() {
    let test = test_of(vec![func(
        "take",
        vec![CallingConvention::Sysv64],
        vec![Val::Ref(Box::new(record("P", vec![int32(7)])))],
        None,
    )]);
    let mut src = String::new();
    RustAbi.generate_callee(&mut src, &test, CallingConvention::Sysv64).unwrap();
    let expected = [
        "",
        "#[repr(C)]",
        "pub struct P {",
        "    field0: i32,",
        "}",
        "#[no_mangle]",
        "pub unsafe extern \"sysv64\" fn take(arg0: &P, ) {",
        "        WRITE.unwrap()(CALLEE_INPUTS, &(*arg0).field0 as *const _ as *const _, core::mem::size_of_val(&(*arg0).field0) as u32);",
        "        FINISHED_VAL.unwrap()(CALLEE_INPUTS);",
        "",
        "        FINISHED_FUNC.unwrap()(CALLEE_INPUTS, CALLEE_OUTPUTS);",
        "}",
        "",
    ]
    .join("\n");
    assert_eq!(src, format!("{}{}", RUST_TEST_PREFIX, expected));
}

#[test]
fn compile_command_and_outcome() {
    assert_eq!(
        RustAbi.compile_command(),
        vec!["rustc", "--crate-type", "staticlib", "--out-dir", "target/temp/"]
    );
    let good = || CompilerRun { success: true, stdout: vec![1], stderr: vec![2] };
    let bad = || CompilerRun { success: false, stdout: vec![3, 4], stderr: vec![5] };
    assert_eq!(RustAbi.compile_callee(good(), "add_callee"), Ok(String::from("add_callee")));
    assert_eq!(RustAbi.compile_caller(good(), "add_caller"), Ok(String::from("add_caller")));
    let error = BuildError::RustCompile { stdout: vec![3, 4], stderr: vec![5] };
    assert_eq!(RustAbi.compile_callee(bad(), "add_callee"), Err(error.clone()));
    assert_eq!(RustAbi.compile_caller(bad(), "add_caller"), Err(error));
}

#[test]
fn default_has_the_type_and_the_leaves_of_the_value() {
    let value = record(
        "S",
        vec![int32(5), Val::Array(vec![byte(1), byte(2)]), Val::Ref(Box::new(Val::Bool(true)))],
    );
    let zero = record(
        "S",
        vec![int32(0), Val::Array(vec![byte(0), byte(0)]), Val::Ref(Box::new(Val::Bool(false)))],
    );
    assert_eq!(value.rust_default_val(), zero.rust_val());
    assert_eq!(value.rust_arg_type(), zero.rust_arg_type());
    assert_eq!(value.rust_var_paths("output", true), zero.rust_var_paths("output", true));
    assert_eq!(value.rust_forward_decl(), zero.rust_forward_decl());
}

#[test]
fn both_sides_record_as_many_leaves() {
    let value = Val::Ref(Box::new(record(
        "S",
        vec![int32(5), Val::Array(vec![byte(1), byte(2)]), Val::Ref(Box::new(Val::Bool(true)))],
    )));
    let caller = value.rust_var_paths("arg0", true).unwrap();
    let callee = value.rust_var_paths("arg0", false).unwrap();
    assert_eq!(caller, vec!["arg0.field0", "arg0.field1[0]", "arg0.field1[1]", "(*arg0.field2)"]);
    assert_eq!(
        callee,
        vec!["(*arg0).field0", "(*arg0).field1[0]", "(*arg0).field1[1]", "(*(*arg0).field2)"]
    );
    assert_eq!(caller.len(), callee.len());
}
