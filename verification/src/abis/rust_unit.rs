//! The Rust text of a whole source unit: the prelude with its struct
//! declarations, a function's signature, the caller and the callee.

use vstd::prelude::*;
use crate::abis::rust_text::arg_name;
use crate::abis::rust_text::lemma_declarable_is_typed;
use crate::abis::rust_text::Decl;
use crate::abis::rust_text::OUTPUT_NAME;
use crate::abis::rust_text::OUT_PARAM_NAME;
use crate::error::BuildErrorModel;
use crate::error::GenerateError;
use crate::schema::values_upto;
use crate::schema::CallingConvention;
use crate::schema::FuncModel;
use crate::schema::TestModel;
use crate::value::ValModel;

verus! {

/// What every generated unit starts with: the handles of the four capture
/// streams and the three entry points of the recording layer, which the
/// harness provides.
pub const RUST_TEST_PREFIX: &'static str =
    "#![allow(dead_code, unused_imports, non_camel_case_types, improper_ctypes)]\n\n#[repr(transparent)]\n#[derive(Copy, Clone)]\npub struct WriteBuffer(*mut ());\n\nextern \"C\" {\n    pub static mut CALLER_INPUTS: WriteBuffer;\n    pub static mut CALLER_OUTPUTS: WriteBuffer;\n    pub static mut CALLEE_INPUTS: WriteBuffer;\n    pub static mut CALLEE_OUTPUTS: WriteBuffer;\n    pub static mut WRITE: Option<unsafe extern \"C\" fn(WriteBuffer, *const u8, u32) -> ()>;\n    pub static mut FINISHED_VAL: Option<unsafe extern \"C\" fn(WriteBuffer) -> ()>;\n    pub static mut FINISHED_FUNC: Option<unsafe extern \"C\" fn(WriteBuffer, WriteBuffer) -> ()>;\n}\n";

/// The name under which Rust knows a concrete calling convention.
pub open spec fn rust_convention_text(convention: CallingConvention) -> Seq<char> {
    match convention {
        CallingConvention::C => "C"@,
        CallingConvention::System => "system"@,
        CallingConvention::Win64 => "win64"@,
        CallingConvention::Sysv64 => "sysv64"@,
        CallingConvention::Aapcs => "aapcs"@,
        CallingConvention::Stdcall => "stdcall"@,
        CallingConvention::Fastcall => "fastcall"@,
        _ => "vectorcall"@,
    }
}

/// The structs that the first `n` of `vals` reach, value by value.
pub open spec fn decls_upto(vals: Seq<ValModel>, n: nat) -> Seq<Decl>
    decreases n,
{
    if n == 0 || n > vals.len() {
        Seq::empty()
    } else {
        decls_upto(vals, (n - 1) as nat) + vals[n - 1].rust_decls()
    }
}

/// `k` is where the first value stands whose structs cannot be declared, or
/// the number of values if there is none.
pub open spec fn is_first_undeclarable(vals: Seq<ValModel>, k: int) -> bool {
    &&& 0 <= k <= vals.len()
    &&& forall|j: int| 0 <= j < k ==> (#[trigger] vals[j]).rust_declarable()
    &&& k < vals.len() ==> !vals[k].rust_declarable()
}

/// Where the first value stands whose structs cannot be declared.
pub open spec fn first_undeclarable(vals: Seq<ValModel>) -> int {
    choose|k: int| is_first_undeclarable(vals, k)
}

/// The declaration at `j` contradicts an earlier one: same name, another
/// definition.
pub open spec fn collides(decls: Seq<Decl>, j: int) -> bool {
    exists|i: int| 0 <= i < j && (#[trigger] decls[i]).0 == decls[j].0 && decls[i].1 != decls[j].1
}

/// No declaration contradicts an earlier one.
pub open spec fn consistent(decls: Seq<Decl>) -> bool {
    forall|j: int| 0 <= j < decls.len() ==> !collides(decls, j)
}

/// `j` is where the first declaration stands that contradicts an earlier one,
/// or the number of declarations if there is none.
pub open spec fn is_first_collision(decls: Seq<Decl>, j: int) -> bool {
    &&& 0 <= j <= decls.len()
    &&& forall|k: int| 0 <= k < j ==> !collides(decls, k)
    &&& j < decls.len() ==> collides(decls, j)
}

/// Where the first declaration stands that contradicts an earlier one.
pub open spec fn first_collision(decls: Seq<Decl>) -> int {
    choose|j: int| is_first_collision(decls, j)
}

/// The definition that an earlier declaration gives to the name declared at
/// `j`, where it differs from the one at `j`.
pub open spec fn earlier_decl(decls: Seq<Decl>, j: int) -> Seq<char> {
    let i = choose|i: int|
        0 <= i < j && (#[trigger] decls[i]).0 == decls[j].0 && decls[i].1 != decls[j].1;
    decls[i].1
}

/// The name declared at `j` has not been declared before.
pub open spec fn is_new(decls: Seq<Decl>, j: int) -> bool {
    forall|i: int| 0 <= i < j ==> (#[trigger] decls[i]).0 != decls[j].0
}

/// The definitions among the first `n` declarations, each written once, where
/// its name first comes up, with a line break behind it.
pub open spec fn decl_lines(decls: Seq<Decl>, n: nat) -> Seq<char>
    decreases n,
{
    if n == 0 || n > decls.len() {
        Seq::empty()
    } else if is_new(decls, n - 1) {
        decl_lines(decls, (n - 1) as nat) + decls[n - 1].1 + "\n"@
    } else {
        decl_lines(decls, (n - 1) as nat)
    }
}

/// What a unit starts with, or why it cannot be generated.
///
/// The values are gone through in order. The first value that cannot be
/// declared ends the walk with a `Generate` error, unless a declaration that
/// was met before it contradicts an earlier one: then that is reported, with
/// the name and both definitions. Otherwise the prelude is followed by every
/// struct definition, once.
pub open spec fn rust_prefix(test: TestModel) -> Result<Seq<char>, BuildErrorModel> {
    let vals = test.values();
    let k = first_undeclarable(vals);
    let decls = decls_upto(vals, k as nat);
    let j = first_collision(decls);
    if j < decls.len() {
        Err(
            BuildErrorModel::InconsistentStructDefinition {
                name: decls[j].0,
                old_decl: earlier_decl(decls, j),
                new_decl: decls[j].1,
            },
        )
    } else if k < vals.len() {
        Err(BuildErrorModel::Generate { func: test.owners()[k], error: GenerateError::EmptyArray })
    } else {
        Ok(RUST_TEST_PREFIX@ + decl_lines(decls, decls.len()))
    }
}

/// The parameters for the first `n` inputs, each with `, ` behind it.
pub open spec fn rust_params(inputs: Seq<ValModel>, n: nat) -> Seq<char>
    decreases n,
{
    if n == 0 || n > inputs.len() {
        Seq::empty()
    } else {
        rust_params(inputs, (n - 1) as nat) + inputs[n - 1].rust_arg_decl(
            arg_name((n - 1) as nat),
        ) + ", "@
    }
}

/// How a signature ends: with the out-parameter for an output that is returned
/// by reference, with a return type for another output, with nothing for none.
pub open spec fn rust_signature_end(output: Option<ValModel>) -> Seq<char> {
    match output {
        Some(out) => match out.rust_out_param(OUT_PARAM_NAME@) {
            Some(param) => param + ")"@,
            None => ")"@ + " -> "@ + out.rust_type(),
        },
        None => ")"@,
    }
}

/// The signature of a function, without its calling convention.
pub open spec fn rust_signature(func: FuncModel) -> Seq<char> {
    "fn "@ + func.name + "("@ + rust_params(func.inputs, func.inputs.len()) + rust_signature_end(
        func.output,
    )
}

impl FuncModel {
    /// Whether every value of the function has a Rust type.
    pub open spec fn rust_typed(self) -> bool {
        forall|i: int| 0 <= i < self.values().len() ==> (#[trigger] self.values()[i]).rust_typed()
    }
}

impl TestModel {
    /// Whether every struct that a value of the test reaches can be declared.
    pub open spec fn rust_declarable(self) -> bool {
        forall|i: int|
            0 <= i < self.values().len() ==> (#[trigger] self.values()[i]).rust_declarable()
    }

    /// Whether every value of every function has a Rust type.
    pub open spec fn rust_typed(self) -> bool {
        forall|i: int| 0 <= i < self.funcs.len() ==> (#[trigger] self.funcs[i]).rust_typed()
    }
}

/// The statement that ends the recording of one call on the caller's side.
pub open spec fn caller_finished() -> Seq<char> {
    "        FINISHED_FUNC.unwrap()(CALLER_INPUTS, CALLER_OUTPUTS);\n"@
}

/// The statement that ends the recording of one call on the callee's side.
pub open spec fn callee_finished() -> Seq<char> {
    "        FINISHED_FUNC.unwrap()(CALLEE_INPUTS, CALLEE_OUTPUTS);\n"@
}

/// The declarations of the first `n` functions inside the caller's `extern`
/// block, one line each.
pub open spec fn caller_extern_lines(funcs: Seq<FuncModel>, n: nat) -> Seq<char>
    decreases n,
{
    if n == 0 || n > funcs.len() {
        Seq::empty()
    } else {
        caller_extern_lines(funcs, (n - 1) as nat) + "  "@ + rust_signature(funcs[n - 1]) + ";\n"@
    }
}

/// The caller's `extern` block: every function of the test under the
/// convention, whether or not the function takes part in it.
pub open spec fn caller_externs(funcs: Seq<FuncModel>, convention: CallingConvention) -> Seq<
    char,
> {
    "extern \""@ + rust_convention_text(convention) + "\" {\n"@ + caller_extern_lines(
        funcs,
        funcs.len(),
    ) + "}\n"@ + "\n"@
}

/// The statements that build the first `n` inputs in locals.
pub open spec fn caller_input_decls(inputs: Seq<ValModel>, n: nat) -> Seq<char>
    decreases n,
{
    if n == 0 || n > inputs.len() {
        Seq::empty()
    } else {
        caller_input_decls(inputs, (n - 1) as nat) + "        "@ + inputs[n - 1].rust_var_decl(
            arg_name((n - 1) as nat),
        ) + " = "@ + inputs[n - 1].rust_literal() + ";\n"@
    }
}

/// The statements that record the first `n` inputs into the stream `to`.
pub open spec fn input_writes(inputs: Seq<ValModel>, n: nat, to: Seq<char>, is_var_root: bool) -> Seq<
    char,
>
    decreases n,
{
    if n == 0 || n > inputs.len() {
        Seq::empty()
    } else {
        input_writes(inputs, (n - 1) as nat, to, is_var_root) + inputs[n - 1].rust_write(
            to,
            arg_name((n - 1) as nat),
            is_var_root,
        ) + "\n"@
    }
}

/// The first `n` arguments of a call, each with `, ` behind it.
pub open spec fn caller_arg_passes(inputs: Seq<ValModel>, n: nat) -> Seq<char>
    decreases n,
{
    if n == 0 || n > inputs.len() {
        Seq::empty()
    } else {
        caller_arg_passes(inputs, (n - 1) as nat) + inputs[n - 1].rust_arg_pass(
            arg_name((n - 1) as nat),
        ) + ", "@
    }
}

/// What stands before a call for its output: the default-initialised storage
/// for an output that comes back through an out-parameter, the start of a
/// binding for one that is returned, nothing without an output.
pub open spec fn caller_output_start(output: Option<ValModel>) -> Seq<char> {
    match output {
        Some(out) => match out.rust_out_param_var(OUTPUT_NAME@) {
            Some(decl) => "        "@ + decl + "\n"@,
            None => "        "@ + out.rust_var_decl(OUTPUT_NAME@) + " = "@,
        },
        None => Seq::empty(),
    }
}

/// The last argument of a call whose output comes back through an
/// out-parameter.
pub open spec fn caller_out_pass(output: Option<ValModel>) -> Seq<char> {
    match output {
        Some(ValModel::Ref(_)) => "&mut "@ + OUTPUT_NAME@ + "\n"@,
        _ => Seq::empty(),
    }
}

/// The statements that record the output after a call.
pub open spec fn caller_output_write(output: Option<ValModel>) -> Seq<char> {
    match output {
        Some(out) => out.rust_write("CALLER_OUTPUTS"@, OUTPUT_NAME@, true) + "\n"@,
        None => Seq::empty(),
    }
}

/// One call in the caller's driver: build the inputs, record them, make room
/// for the output, call, record the output, and say that the call is done.
pub open spec fn caller_call(func: FuncModel) -> Seq<char> {
    "   unsafe {\n"@ + caller_input_decls(func.inputs, func.inputs.len()) + "\n"@ + input_writes(
        func.inputs,
        func.inputs.len(),
        "CALLER_INPUTS"@,
        true,
    ) + "\n"@ + "        "@ + caller_output_start(func.output) + func.name + "("@
        + caller_arg_passes(func.inputs, func.inputs.len()) + caller_out_pass(func.output)
        + ");\n"@ + "\n"@ + caller_output_write(func.output) + caller_finished() + "   }\n"@
}

/// The calls for those of the first `n` functions that take part in
/// `convention`, in order.
pub open spec fn caller_calls(funcs: Seq<FuncModel>, n: nat, convention: CallingConvention) -> Seq<
    char,
>
    decreases n,
{
    if n == 0 || n > funcs.len() {
        Seq::empty()
    } else if funcs[n - 1].has_convention(convention) {
        caller_calls(funcs, (n - 1) as nat, convention) + caller_call(funcs[n - 1])
    } else {
        caller_calls(funcs, (n - 1) as nat, convention)
    }
}

/// The source of the caller, or why it cannot be generated.
pub open spec fn rust_caller(test: TestModel, convention: CallingConvention) -> Result<
    Seq<char>,
    BuildErrorModel,
> {
    match rust_prefix(test) {
        Ok(prefix) => Ok(
            prefix + caller_externs(test.funcs, convention)
                + "#[no_mangle] pub extern \"C\" fn do_test() {\n"@ + caller_calls(
                test.funcs,
                test.funcs.len(),
                convention,
            ) + "}\n"@,
        ),
        Err(e) => Err(e),
    }
}

/// What the callee does about its output: build it, record it, say that the
/// call is done, and hand it back.
pub open spec fn callee_output(output: Option<ValModel>) -> Seq<char> {
    match output {
        Some(out) => "        "@ + out.rust_var_decl(OUTPUT_NAME@) + " = "@ + out.rust_literal()
            + ";\n"@ + out.rust_write("CALLEE_OUTPUTS"@, OUTPUT_NAME@, true) + "\n"@
            + callee_finished() + "        "@ + out.rust_var_return(
            OUTPUT_NAME@,
            OUT_PARAM_NAME@,
        ) + "\n"@,
        None => callee_finished(),
    }
}

/// The definition of one function on the callee's side.
pub open spec fn callee_def(func: FuncModel, convention: CallingConvention) -> Seq<char> {
    "#[no_mangle]\n"@ + "pub unsafe extern \""@ + rust_convention_text(convention) + "\" "@
        + rust_signature(func) + " {\n"@ + input_writes(
        func.inputs,
        func.inputs.len(),
        "CALLEE_INPUTS"@,
        false,
    ) + "\n"@ + callee_output(func.output) + "}\n"@
}

/// The definitions of those of the first `n` functions that take part in
/// `convention`, in order.
pub open spec fn callee_defs(funcs: Seq<FuncModel>, n: nat, convention: CallingConvention) -> Seq<
    char,
>
    decreases n,
{
    if n == 0 || n > funcs.len() {
        Seq::empty()
    } else if funcs[n - 1].has_convention(convention) {
        callee_defs(funcs, (n - 1) as nat, convention) + callee_def(funcs[n - 1], convention)
    } else {
        callee_defs(funcs, (n - 1) as nat, convention)
    }
}

/// The source of the callee, or why it cannot be generated.
pub open spec fn rust_callee(test: TestModel, convention: CallingConvention) -> Result<
    Seq<char>,
    BuildErrorModel,
> {
    match rust_prefix(test) {
        Ok(prefix) => Ok(prefix + callee_defs(test.funcs, test.funcs.len(), convention)),
        Err(e) => Err(e),
    }
}

/// In every function, every value is among the values of the test.
pub proof fn lemma_values_cover(funcs: Seq<FuncModel>, n: nat, i: int, j: int)
    requires
        0 <= i < n <= funcs.len(),
        0 <= j < funcs[i].values().len(),
    ensures
        exists|k: int|
            0 <= k < values_upto(funcs, n).len() && #[trigger] values_upto(funcs, n)[k]
                == funcs[i].values()[j],
    decreases n,
{
    let before = values_upto(funcs, (n - 1) as nat);
    if i == n - 1 {
        assert(values_upto(funcs, n)[before.len() + j] == funcs[i].values()[j]);
    } else {
        lemma_values_cover(funcs, (n - 1) as nat, i, j);
        let k = choose|k: int|
            0 <= k < before.len() && #[trigger] before[k] == funcs[i].values()[j];
        assert(values_upto(funcs, n)[k] == funcs[i].values()[j]);
    }
}

/// Where every struct can be declared, every value has a type.
pub proof fn lemma_declarable_test_is_typed(test: TestModel)
    requires
        test.rust_declarable(),
    ensures
        test.rust_typed(),
{
    assert forall|i: int| 0 <= i < test.funcs.len() implies (#[trigger] test.funcs[i]).rust_typed() by {
        let func = test.funcs[i];
        assert forall|j: int| 0 <= j < func.values().len() implies (
        #[trigger] func.values()[j]).rust_typed() by {
            lemma_values_cover(test.funcs, test.funcs.len(), i, j);
            let k = choose|k: int|
                0 <= k < test.values().len() && #[trigger] test.values()[k] == func.values()[j];
            assert(test.values()[k].rust_declarable());
            lemma_declarable_is_typed(func.values()[j]);
        }
    }
}

} // verus!
