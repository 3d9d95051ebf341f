use abi_checker::abis::rust_val::arg_name_text;
use abi_checker::abis::rust_val::field_name_text;
use abi_checker::error::GenerateError;
use abi_checker::text::decimal_text;
use abi_checker::text::is_digit_char;
use abi_checker::text::is_whole;
use abi_checker::text::push_decimal;
use abi_checker::text::signed_decimal_text;
use abi_checker::value::FloatVal;
use abi_checker::value::IntVal;
use abi_checker::value::Val;

fn i32_val(v: i32) -> Val {
    Val::Int(IntVal::c_int32_t(v))
}

fn u8_val(v: u8) -> Val {
    Val::Int(IntVal::c_uint8_t(v))
}

fn double_val(v: f64) -> Val {
    Val::Float(FloatVal::Double(format!("{}", v)))
}

fn single_val(v: f32) -> Val {
    Val::Float(FloatVal::Single(format!("{}", v)))
}

fn structure(name: &str, fields: Vec<Val>) -> Val {
    Val::Struct(String::from(name), fields)
}

fn reference(v: Val) -> Val {
    Val::Ref(Box::new(v))
}

fn empty_array() -> Val {
    Val::Array(vec![])
}

fn strings(items: &[&str]) -> Vec<String> {
    items.iter().map(|s| String::from(*s)).collect()
}

#[test]
fn decimal_of_unsigned() {
    assert_eq!(decimal_text(0), "0");
    assert_eq!(decimal_text(7), "7");
    assert_eq!(decimal_text(10), "10");
    assert_eq!(decimal_text(1234567890), "1234567890");
    assert_eq!(decimal_text(u128::MAX), "340282366920938463463374607431768211455");
}

#[test]
fn decimal_of_signed() {
    assert_eq!(signed_decimal_text(0), "0");
    assert_eq!(signed_decimal_text(-1), "-1");
    assert_eq!(signed_decimal_text(42), "42");
    assert_eq!(signed_decimal_text(i128::MAX), "170141183460469231731687303715884105727");
    assert_eq!(signed_decimal_text(i128::MIN), "-170141183460469231731687303715884105728");
}

#[test]
fn decimal_is_appended() {
    let mut out = String::from("x = ");
    push_decimal(&mut out, 305);
    assert_eq!(out, "x = 305");
}

#[test]
fn digits_and_whole_numbers() {
    assert!(is_digit_char('0'));
    assert!(is_digit_char('9'));
    assert!(!is_digit_char('a'));
    assert!(!is_digit_char('.'));
    assert!(is_whole("12"));
    assert!(is_whole("-12"));
    assert!(!is_whole("1.5"));
    assert!(!is_whole("inf"));
    assert!(!is_whole("NaN"));
}

#[test]
fn argument_and_field_names() {
    assert_eq!(arg_name_text(0), "arg0");
    assert_eq!(arg_name_text(12), "arg12");
    assert_eq!(field_name_text(0), "field0");
    assert_eq!(field_name_text(31), "field31");
}

#[test]
fn types_of_scalars() {
    let cases = vec![
        (Val::Int(IntVal::c__int128(0)), "i128"),
        (Val::Int(IntVal::c_int64_t(0)), "i64"),
        (Val::Int(IntVal::c_int32_t(0)), "i32"),
        (Val::Int(IntVal::c_int16_t(0)), "i16"),
        (Val::Int(IntVal::c_int8_t(0)), "i8"),
        (Val::Int(IntVal::c__uint128(0)), "u128"),
        (Val::Int(IntVal::c_uint64_t(0)), "u64"),
        (Val::Int(IntVal::c_uint32_t(0)), "u32"),
        (Val::Int(IntVal::c_uint16_t(0)), "u16"),
        (Val::Int(IntVal::c_uint8_t(0)), "u8"),
        (double_val(1.0), "f64"),
        (single_val(1.0), "f32"),
        (Val::Bool(true), "bool"),
        (Val::Ptr(16), "*mut ()"),
    ];
    for (val, expected) in cases {
        assert_eq!(val.rust_arg_type(), Ok(String::from(expected)));
        assert_eq!(val.rust_nested_type(), Ok(String::from(expected)));
    }
}

#[test]
fn types_of_composites() {
    assert_eq!(
        Val::Array(vec![i32_val(1), i32_val(2), i32_val(3)]).rust_arg_type(),
        Ok(String::from("[i32; 3]"))
    );
    assert_eq!(
        Val::Array(vec![Val::Array(vec![u8_val(1), u8_val(2)])]).rust_arg_type(),
        Ok(String::from("[[u8; 2]; 1]"))
    );
    assert_eq!(
        structure("Point", vec![i32_val(1), empty_array()]).rust_arg_type(),
        Ok(String::from("Point"))
    );
    assert_eq!(reference(Val::Bool(false)).rust_arg_type(), Ok(String::from("bool")));
    assert_eq!(
        reference(structure("Point", vec![])).rust_nested_type(),
        Ok(String::from("Point"))
    );
}

#[test]
fn array_without_elements_has_no_type() {
    assert_eq!(empty_array().rust_arg_type(), Err(GenerateError::EmptyArray));
    assert_eq!(empty_array().rust_nested_type(), Err(GenerateError::EmptyArray));
    assert_eq!(reference(empty_array()).rust_arg_type(), Err(GenerateError::EmptyArray));
    assert_eq!(
        Val::Array(vec![empty_array()]).rust_arg_type(),
        Err(GenerateError::EmptyArray)
    );
    assert_eq!(empty_array().rust_var_decl("x"), Err(GenerateError::EmptyArray));
    assert_eq!(empty_array().rust_arg_decl("x"), Err(GenerateError::EmptyArray));
    assert_eq!(reference(empty_array()).rust_arg_decl("x"), Err(GenerateError::EmptyArray));
    assert_eq!(reference(empty_array()).rust_out_param("out"), Err(GenerateError::EmptyArray));
    assert_eq!(
        reference(empty_array()).rust_out_param_var("output"),
        Err(GenerateError::EmptyArray)
    );
    assert_eq!(empty_array().rust_out_param("out"), Ok(None));
    assert_eq!(empty_array().rust_out_param_var("output"), Ok(None));
    assert_eq!(empty_array().rust_forward_decl(), Err(GenerateError::EmptyArray));
    assert_eq!(
        structure("S", vec![i32_val(1), empty_array()]).rust_forward_decl(),
        Err(GenerateError::EmptyArray)
    );
    assert_eq!(
        Val::Array(vec![i32_val(1), empty_array()]).rust_forward_decl(),
        Ok(vec![])
    );
}

#[test]
fn array_without_elements_still_has_a_literal() {
    assert_eq!(empty_array().rust_val(), Ok(String::from("[]")));
    assert_eq!(empty_array().rust_default_val(), Ok(String::from("[]")));
    assert_eq!(empty_array().rust_var_paths("x", true), Ok(vec![]));
    assert_eq!(
        empty_array().rust_write_val("CALLER_INPUTS", "x", true),
        Ok(String::from("        FINISHED_VAL.unwrap()(CALLER_INPUTS);"))
    );
}

#[test]
fn literals_of_integers() {
    assert_eq!(Val::Int(IntVal::c__int128(i128::MIN)).rust_val().unwrap(), i128::MIN.to_string());
    assert_eq!(Val::Int(IntVal::c_int64_t(i64::MIN)).rust_val().unwrap(), i64::MIN.to_string());
    assert_eq!(Val::Int(IntVal::c_int32_t(-7)).rust_val().unwrap(), "-7");
    assert_eq!(Val::Int(IntVal::c_int16_t(i16::MAX)).rust_val().unwrap(), "32767");
    assert_eq!(Val::Int(IntVal::c_int8_t(-128)).rust_val().unwrap(), "-128");
    assert_eq!(Val::Int(IntVal::c__uint128(u128::MAX)).rust_val().unwrap(), u128::MAX.to_string());
    assert_eq!(Val::Int(IntVal::c_uint64_t(u64::MAX)).rust_val().unwrap(), u64::MAX.to_string());
    assert_eq!(Val::Int(IntVal::c_uint32_t(0)).rust_val().unwrap(), "0");
    assert_eq!(Val::Int(IntVal::c_uint16_t(65535)).rust_val().unwrap(), "65535");
    assert_eq!(Val::Int(IntVal::c_uint8_t(255)).rust_val().unwrap(), "255");
}

#[test]
fn literals_of_floating_point() {
    assert_eq!(double_val(1.0).rust_val().unwrap(), "1.0");
    assert_eq!(double_val(1.5).rust_val().unwrap(), "1.5");
    assert_eq!(double_val(-3.0).rust_val().unwrap(), "-3.0");
    assert_eq!(double_val(0.1).rust_val().unwrap(), "0.1");
    assert_eq!(double_val(1e21).rust_val().unwrap(), "1000000000000000000000.0");
    assert_eq!(single_val(2.0).rust_val().unwrap(), "2.0");
    assert_eq!(single_val(-0.25).rust_val().unwrap(), "-0.25");
    assert_eq!(double_val(f64::INFINITY).rust_val().unwrap(), "inf");
    assert_eq!(double_val(f64::NAN).rust_val().unwrap(), "NaN");
}

#[test]
fn literals_of_other_scalars() {
    assert_eq!(Val::Ptr(4096).rust_val().unwrap(), "4096 as *mut ()");
    assert_eq!(Val::Ptr(0).rust_val().unwrap(), "0 as *mut ()");
    assert_eq!(Val::Bool(true).rust_val().unwrap(), "true");
    assert_eq!(Val::Bool(false).rust_val().unwrap(), "false");
}

#[test]
fn literals_of_composites() {
    assert_eq!(Val::Array(vec![i32_val(1), i32_val(2)]).rust_val().unwrap(), "[1, 2, ]");
    assert_eq!(
        structure("Point", vec![i32_val(1), double_val(2.0)]).rust_val().unwrap(),
        "Point { field0: 1,field1: 2.0, }"
    );
    assert_eq!(structure("Unit", vec![]).rust_val().unwrap(), "Unit {  }");
    assert_eq!(reference(i32_val(5)).rust_val().unwrap(), "5");
    assert_eq!(
        structure("Outer", vec![structure("Inner", vec![Val::Bool(true)]), reference(u8_val(9))])
            .rust_val()
            .unwrap(),
        "Outer { field0: Inner { field0: true, },field1: 9, }"
    );
}

#[test]
fn defaults() {
    assert_eq!(i32_val(77).rust_default_val().unwrap(), "0");
    assert_eq!(double_val(1.5).rust_default_val().unwrap(), "0.0");
    assert_eq!(single_val(1.5).rust_default_val().unwrap(), "0.0");
    assert_eq!(Val::Bool(true).rust_default_val().unwrap(), "false");
    assert_eq!(Val::Ptr(99).rust_default_val().unwrap(), "0 as *mut ()");
    assert_eq!(reference(i32_val(5)).rust_default_val().unwrap(), "0");
    assert_eq!(
        structure(
            "P",
            vec![
                i32_val(1),
                double_val(2.5),
                Val::Bool(true),
                Val::Ptr(8),
                Val::Array(vec![u8_val(1), u8_val(2)]),
            ]
        )
        .rust_default_val()
        .unwrap(),
        "P { field0: 0,field1: 0.0,field2: false,field3: 0 as *mut (),field4: [0, 0, ], }"
    );
}

#[test]
fn declarations_of_variables_and_parameters() {
    assert_eq!(i32_val(1).rust_var_decl("arg0").unwrap(), "let arg0: i32");
    assert_eq!(reference(i32_val(1)).rust_var_decl("arg0").unwrap(), "let arg0: i32");
    assert_eq!(
        reference(reference(structure("P", vec![]))).rust_var_decl("output").unwrap(),
        "let output: P"
    );
    assert_eq!(i32_val(1).rust_arg_decl("arg0").unwrap(), "arg0: i32");
    assert_eq!(reference(i32_val(1)).rust_arg_decl("arg0").unwrap(), "arg0: &i32");
    assert_eq!(
        reference(Val::Array(vec![u8_val(1)])).rust_arg_decl("arg3").unwrap(),
        "arg3: &[u8; 1]"
    );
}

#[test]
fn out_parameters() {
    assert_eq!(i32_val(1).rust_out_param("out"), Ok(None));
    assert_eq!(
        reference(structure("P", vec![])).rust_out_param("out"),
        Ok(Some(String::from("out: &mut P")))
    );
    assert_eq!(i32_val(1).rust_out_param_var("output"), Ok(None));
    assert_eq!(
        reference(structure("P", vec![i32_val(4)])).rust_out_param_var("output"),
        Ok(Some(String::from("let mut output: P = P { field0: 0, };")))
    );
}

#[test]
fn passing_and_returning() {
    assert_eq!(i32_val(1).rust_arg_pass("arg0").unwrap(), "arg0");
    assert_eq!(reference(i32_val(1)).rust_arg_pass("arg0").unwrap(), "&arg0");
    assert_eq!(i32_val(1).rust_var_return("output", "out").unwrap(), "return output;");
    assert_eq!(reference(i32_val(1)).rust_var_return("output", "out").unwrap(), "*out = output;");
}

#[test]
fn paths_of_scalars() {
    assert_eq!(i32_val(1).rust_var_paths("x", true), Ok(strings(&["x"])));
    assert_eq!(double_val(1.0).rust_var_paths("x", false), Ok(strings(&["x"])));
    assert_eq!(Val::Bool(true).rust_var_paths("a.b", false), Ok(strings(&["a.b"])));
    assert_eq!(Val::Ptr(1).rust_var_paths("p", true), Ok(strings(&["p"])));
}

#[test]
fn paths_of_composites() {
    let nested = || {
        structure(
            "S",
            vec![
                i32_val(1),
                Val::Array(vec![Val::Bool(true), Val::Bool(false)]),
                reference(u8_val(3)),
                structure("T", vec![double_val(1.0), Val::Ptr(0)]),
            ],
        )
    };
    let expected =
        strings(&["x.field0", "x.field1[0]", "x.field1[1]", "(*x.field2)", "x.field3.field0", "x.field3.field1"]);
    assert_eq!(nested().rust_var_paths("x", true), Ok(expected.clone()));
    assert_eq!(nested().rust_var_paths("x", false), Ok(expected));
    assert_eq!(
        Val::Array(vec![structure("P", vec![i32_val(1)]), structure("P", vec![i32_val(2)])])
            .rust_var_paths("arg1", true),
        Ok(strings(&["arg1[0].field0", "arg1[1].field0"]))
    );
}

#[test]
fn paths_through_a_reference_at_the_root() {
    let pointee = || reference(structure("P", vec![i32_val(1), i32_val(2)]));
    assert_eq!(
        pointee().rust_var_paths("arg0", true),
        Ok(strings(&["arg0.field0", "arg0.field1"]))
    );
    assert_eq!(
        pointee().rust_var_paths("arg0", false),
        Ok(strings(&["(*arg0).field0", "(*arg0).field1"]))
    );
}

#[test]
fn statements_that_record_a_value() {
    let expected = [
        "        WRITE.unwrap()(CALLEE_INPUTS, &(*arg0).field0 as *const _ as *const _, core::mem::size_of_val(&(*arg0).field0) as u32);",
        "        WRITE.unwrap()(CALLEE_INPUTS, &(*arg0).field1 as *const _ as *const _, core::mem::size_of_val(&(*arg0).field1) as u32);",
        "        FINISHED_VAL.unwrap()(CALLEE_INPUTS);",
    ]
    .join("\n");
    assert_eq!(
        reference(structure("P", vec![i32_val(1), i32_val(2)]))
            .rust_write_val("CALLEE_INPUTS", "arg0", false)
            .unwrap(),
        expected
    );
    assert_eq!(
        structure("Unit", vec![]).rust_write_val("CALLER_OUTPUTS", "output", true).unwrap(),
        "        FINISHED_VAL.unwrap()(CALLER_OUTPUTS);"
    );
}

#[test]
fn struct_declarations() {
    assert_eq!(i32_val(1).rust_forward_decl(), Ok(vec![]));
    assert_eq!(
        structure("Unit", vec![]).rust_forward_decl(),
        Ok(vec![(String::from("Unit"), String::from("\n#[repr(C)]\npub struct Unit {\n}"))])
    );
    let outer = structure(
        "Outer",
        vec![
            structure("Inner", vec![i32_val(1)]),
            Val::Array(vec![structure("Elem", vec![u8_val(1)]), structure("Other", vec![])]),
            reference(structure("Inner", vec![i32_val(2)])),
            double_val(1.0),
        ],
    );
    let inner = String::from("\n#[repr(C)]\npub struct Inner {\n    field0: i32,\n}");
    assert_eq!(
        outer.rust_forward_decl(),
        Ok(vec![
            (String::from("Inner"), inner.clone()),
            (String::from("Elem"), String::from("\n#[repr(C)]\npub struct Elem {\n    field0: u8,\n}")),
            (String::from("Inner"), inner),
            (
                String::from("Outer"),
                String::from(
                    "\n#[repr(C)]\npub struct Outer {\n    field0: Inner,\n    field1: [Elem; 2],\n    field2: Inner,\n    field3: f64,\n}"
                )
            ),
        ])
    );
}

#[test]
fn reference_has_the_type_of_its_pointee() {
    assert_eq!(reference(i32_val(1)).rust_arg_type(), Ok(String::from("i32")));
    assert_eq!(reference(i32_val(1)).rust_nested_type(), Ok(String::from("i32")));
    assert_eq!(reference(reference(u8_val(1))).rust_arg_type(), Ok(String::from("u8")));
    assert_eq!(
        Val::Array(vec![reference(i32_val(1)), reference(i32_val(2))]).rust_arg_type(),
        Ok(String::from("[i32; 2]"))
    );
    let holder = structure("Holder", vec![reference(i32_val(5))]);
    assert_eq!(
        holder.rust_forward_decl(),
        Ok(vec![(
            String::from("Holder"),
            String::from("\n#[repr(C)]\npub struct Holder {\n    field0: i32,\n}")
        )])
    );
    assert_eq!(holder.rust_val().unwrap(), "Holder { field0: 5, }");
    assert_eq!(holder.rust_default_val().unwrap(), "Holder { field0: 0, }");
    assert_eq!(reference(i32_val(5)).rust_val().unwrap(), "5");
    assert_eq!(reference(i32_val(5)).rust_default_val().unwrap(), "0");
}
