//! The Rust backend: it lowers a test into the source of a caller and of a
//! callee, which record what they pass and receive.

use vstd::prelude::*;
use vstd::string::StringExecFns;
use crate::abis::rust_text::decl_views;
use crate::abis::rust_text::Decl;
use crate::abis::rust_text::OUTPUT_NAME;
use crate::abis::rust_text::OUT_PARAM_NAME;
use crate::abis::rust_unit::callee_def;
use crate::abis::rust_unit::callee_defs;
use crate::abis::rust_unit::callee_output;
use crate::abis::rust_unit::caller_arg_passes;
use crate::abis::rust_unit::caller_call;
use crate::abis::rust_unit::caller_calls;
use crate::abis::rust_unit::caller_extern_lines;
use crate::abis::rust_unit::caller_input_decls;
use crate::abis::rust_unit::caller_out_pass;
use crate::abis::rust_unit::caller_output_start;
use crate::abis::rust_unit::caller_output_write;
use crate::abis::rust_unit::collides;
use crate::abis::rust_unit::decl_lines;
use crate::abis::rust_unit::decls_upto;
use crate::abis::rust_unit::earlier_decl;
use crate::abis::rust_unit::first_collision;
use crate::abis::rust_unit::first_undeclarable;
use crate::abis::rust_unit::is_first_collision;
use crate::abis::rust_unit::is_first_undeclarable;
use crate::abis::rust_unit::input_writes;
use crate::abis::rust_unit::is_new;
use crate::abis::rust_unit::lemma_declarable_test_is_typed;
use crate::abis::rust_unit::rust_callee;
use crate::abis::rust_unit::rust_caller;
use crate::abis::rust_unit::rust_convention_text;
use crate::abis::rust_unit::rust_params;
use crate::abis::rust_unit::rust_prefix;
use crate::abis::rust_unit::rust_signature;
use crate::abis::rust_unit::RUST_TEST_PREFIX;
use crate::abis::rust_val::arg_name_text;
use crate::error::BuildError;
use crate::error::BuildErrorModel;
use crate::error::GenerateError;
use crate::schema::called_upto;
use crate::schema::owners_upto;
use crate::schema::values_upto;
use crate::text::texts;
use crate::schema::CallingConvention;
use crate::schema::Func;
use crate::schema::Test;
use crate::value::Val;
use crate::value::ValModel;

verus! {

/// What a vector of borrowed values holds.
pub open spec fn ref_models(vals: Seq<&Val>) -> Seq<ValModel> {
    Seq::new(vals.len(), |i: int| vals[i]@)
}

/// What a vector of borrowed strings holds.
pub open spec fn ref_texts(strings: Seq<&String>) -> Seq<Seq<char>> {
    Seq::new(strings.len(), |i: int| strings[i]@)
}

/// Appends the signature of `function` to `f`, without a calling convention.
/// Where a value of the function has no type, nothing is appended.
pub fn write_rust_signature(f: &mut String, function: &Func) -> (r: Result<(), BuildError>)
    ensures
        match r {
            Ok(()) => function@.rust_typed() && final(f)@ == old(f)@ + rust_signature(function@),
            Err(e) => !function@.rust_typed() && final(f)@ == old(f)@ && e@
                == (BuildErrorModel::Generate {
                func: function@.name,
                error: GenerateError::EmptyArray,
            }),
        },
{
    let mut sig = String::from_str("fn ");
    sig.append(function.name.as_str());
    sig.append("(");
    let mut idx: usize = 0;
    while idx < function.inputs.len()
        invariant
            idx <= function.inputs.len(),
            forall|i: int| 0 <= i < idx ==> (#[trigger] function@.inputs[i]).rust_typed(),
            sig@ == "fn "@ + function@.name + "("@ + rust_params(function@.inputs, idx as nat),
        decreases function.inputs.len() - idx,
    {
        let label = arg_name_text(idx);
        match function.inputs[idx].rust_arg_decl(label.as_str()) {
            Ok(decl) => {
                sig.append(decl.as_str());
                sig.append(", ");
            },
            Err(error) => {
                assert(!function@.values()[idx as int].rust_typed());
                return Err(BuildError::Generate { func: function.name.clone(), error });
            },
        }
        idx += 1;
    }
    if let Some(output) = &function.output {
        match output.rust_out_param(OUT_PARAM_NAME) {
            Ok(Some(out_param)) => {
                sig.append(out_param.as_str());
                sig.append(")");
            },
            Ok(None) => {
                match output.rust_arg_type() {
                    Ok(ty) => {
                        sig.append(")");
                        sig.append(" -> ");
                        sig.append(ty.as_str());
                    },
                    Err(error) => {
                        assert(!function@.values()[function@.inputs.len() as int].rust_typed());
                        return Err(BuildError::Generate { func: function.name.clone(), error });
                    },
                }
            },
            Err(error) => {
                assert(!function@.values()[function@.inputs.len() as int].rust_typed());
                return Err(BuildError::Generate { func: function.name.clone(), error });
            },
        }
        assert(function@.values()[function@.inputs.len() as int].rust_typed());
        assert forall|i: int| 0 <= i < function@.values().len() implies (
        #[trigger] function@.values()[i]).rust_typed() by {
            if i < function@.inputs.len() {
                assert(function@.inputs[i].rust_typed());
            }
        }
    } else {
        sig.append(")");
        assert forall|i: int| 0 <= i < function@.values().len() implies (
        #[trigger] function@.values()[i]).rust_typed() by {
            assert(function@.inputs[i].rust_typed());
        }
    }
    f.append(sig.as_str());
    Ok(())
}

/// Every value of the test with the name of its function, in the order in which
/// the values are declared.
fn collect_values<'a>(test: &'a Test) -> (r: (Vec<&'a Val>, Vec<&'a String>))
    ensures
        r.0@.len() == r.1@.len(),
        ref_models(r.0@) == test@.values(),
        ref_texts(r.1@) == test@.owners(),
{
    let mut vals: Vec<&Val> = Vec::new();
    let mut owners: Vec<&String> = Vec::new();
    let mut fi: usize = 0;
    while fi < test.funcs.len()
        invariant
            fi <= test.funcs.len(),
            vals@.len() == owners@.len(),
            ref_models(vals@) == values_upto(test@.funcs, fi as nat),
            ref_texts(owners@) == owners_upto(test@.funcs, fi as nat),
        decreases test.funcs.len() - fi,
    {
        let function = &test.funcs[fi];
        let ghost vals_before = ref_models(vals@);
        let ghost owners_before = ref_texts(owners@);
        let mut vi: usize = 0;
        while vi < function.inputs.len()
            invariant
                vi <= function.inputs.len(),
                vals@.len() == owners@.len(),
                ref_models(vals@) == vals_before + function@.inputs.take(vi as int),
                ref_texts(owners@) == owners_before + Seq::new(vi as nat, |i: int| function@.name),
            decreases function.inputs.len() - vi,
        {
            let ghost vals_so_far = vals@;
            let ghost owners_so_far = owners@;
            vals.push(&function.inputs[vi]);
            owners.push(&function.name);
            assert(ref_models(vals@) =~= ref_models(vals_so_far).push(function@.inputs[vi as int]));
            assert(function@.inputs.take(vi + 1) =~= function@.inputs.take(vi as int).push(
                function@.inputs[vi as int],
            ));
            assert(ref_texts(owners@) =~= ref_texts(owners_so_far).push(function@.name));
            assert(Seq::new((vi + 1) as nat, |i: int| function@.name) =~= Seq::new(
                vi as nat,
                |i: int| function@.name,
            ).push(function@.name));
            vi += 1;
        }
        assert(function@.inputs.take(function@.inputs.len() as int) =~= function@.inputs);
        if let Some(output) = &function.output {
            let ghost vals_so_far = vals@;
            let ghost owners_so_far = owners@;
            vals.push(output);
            owners.push(&function.name);
            assert(ref_models(vals@) =~= ref_models(vals_so_far).push(output@));
            assert(ref_texts(owners@) =~= ref_texts(owners_so_far).push(function@.name));
        }
        assert(ref_models(vals@) =~= vals_before + function@.values());
        assert(ref_texts(owners@) =~= owners_before + Seq::new(
            function@.values().len(),
            |i: int| function@.name,
        ));
        assert(test@.funcs[fi as int] == function@);
        fi += 1;
    }
    (vals, owners)
}

/// The declarations of the values up to the first one that cannot be declared,
/// and where that one stands.
fn gather_decls(vals: &Vec<&Val>) -> (r: (Vec<(String, String)>, usize))
    ensures
        is_first_undeclarable(ref_models(vals@), r.1 as int),
        decl_views(r.0@) == decls_upto(ref_models(vals@), r.1 as nat),
{
    let mut decls: Vec<(String, String)> = Vec::new();
    let mut k: usize = 0;
    while k < vals.len()
        invariant
            k <= vals.len(),
            forall|j: int| 0 <= j < k ==> (#[trigger] ref_models(vals@)[j]).rust_declarable(),
            decl_views(decls@) == decls_upto(ref_models(vals@), k as nat),
        decreases vals.len() - k,
    {
        match vals[k].rust_forward_decl() {
            Ok(mut found) => {
                let ghost before = decls@;
                let ghost added = found@;
                decls.append(&mut found);
                assert(decl_views(decls@) =~= decl_views(before) + decl_views(added));
                assert(ref_models(vals@)[k as int] == vals[k as int]@);
            },
            Err(_) => {
                assert(ref_models(vals@)[k as int] == vals[k as int]@);
                return (decls, k);
            },
        }
        k += 1;
    }
    (decls, k)
}

/// The name declared at `i` is that of a declaration listed in `firsts`.
spec fn represented(d: Seq<Decl>, firsts: Seq<usize>, i: int) -> bool {
    exists|t: int| 0 <= t < firsts.len() && d[#[trigger] firsts[t] as int].0 == d[i].0
}

/// Goes through the declarations for the first that contradicts an earlier one.
/// Without one, the definitions are returned, each once, a line break behind
/// each.
fn check_decls(decls: &Vec<(String, String)>) -> (r: Result<String, BuildError>)
    ensures
        match r {
            Ok(lines) => first_collision(decl_views(decls@)) == decls@.len() && lines@
                == decl_lines(decl_views(decls@), decls@.len()),
            Err(e) => {
                let d = decl_views(decls@);
                let j = first_collision(d);
                &&& 0 <= j < d.len()
                &&& e@ == (BuildErrorModel::InconsistentStructDefinition {
                    name: d[j].0,
                    old_decl: earlier_decl(d, j),
                    new_decl: d[j].1,
                })
            },
        },
{
    let ghost d = decl_views(decls@);
    let mut lines = String::new();
    let mut firsts: Vec<usize> = Vec::new();
    let mut j: usize = 0;
    while j < decls.len()
        invariant
            j <= decls.len(),
            d == decl_views(decls@),
            forall|t: int| 0 <= t < firsts@.len() ==> 0 <= #[trigger] firsts@[t] < j && is_new(d, firsts@[t] as int),
            forall|i: int| 0 <= i < j ==> #[trigger] represented(d, firsts@, i),
            forall|k: int| 0 <= k < j ==> !collides(d, k),
            lines@ == decl_lines(d, j as nat),
        decreases decls.len() - j,
    {
        let mut t: usize = 0;
        let mut found: Option<usize> = None;
        while t < firsts.len()
            invariant_except_break
                found is None,
                forall|u: int| 0 <= u < t ==> d[#[trigger] firsts@[u] as int].0 != d[j as int].0,
            invariant
                t <= firsts.len(),
                j < decls.len(),
                d == decl_views(decls@),
                forall|u: int| 0 <= u < firsts@.len() ==> 0 <= #[trigger] firsts@[u] < j,
            ensures
                match found {
                    Some(i0) => i0 < j && d[i0 as int].0 == d[j as int].0 && exists|u: int|
                        0 <= u < firsts@.len() && firsts@[u] == i0,
                    None => forall|u: int|
                        0 <= u < firsts@.len() ==> d[#[trigger] firsts@[u] as int].0 != d[j as int].0,
                },
            decreases firsts.len() - t,
        {
            let i0 = firsts[t];
            if decls[i0].0 == decls[j].0 {
                found = Some(i0);
                break;
            }
            t += 1;
        }
        match found {
            Some(i0) => {
                assert(is_new(d, i0 as int));
                assert forall|i: int| 0 <= i < j && (#[trigger] d[i]).0 == d[j as int].0 implies d[i].1
                    == d[i0 as int].1 by {
                    if i > i0 {
                        assert(!collides(d, i));
                        assert(d[i0 as int].0 == d[i].0);
                    }
                }
                if decls[i0].1 == decls[j].1 {
                    assert(!collides(d, j as int));
                    assert(d[i0 as int].0 == d[j as int].0);
                    assert(!is_new(d, j as int));
                    assert(represented(d, firsts@, j as int));
                } else {
                    assert(d[i0 as int].0 == d[j as int].0 && d[i0 as int].1 != d[j as int].1);
                    assert(collides(d, j as int));
                    assert(is_first_collision(d, j as int));
                    assert(first_collision(d) == j);
                    assert(earlier_decl(d, j as int) == d[i0 as int].1);
                    return Err(
                        BuildError::InconsistentStructDefinition {
                            name: decls[j].0.clone(),
                            old_decl: decls[i0].1.clone(),
                            new_decl: decls[j].1.clone(),
                        },
                    );
                }
            },
            None => {
                assert forall|i: int| 0 <= i < j implies (#[trigger] d[i]).0 != d[j as int].0 by {
                    assert(represented(d, firsts@, i));
                }
                assert(is_new(d, j as int));
                assert(!collides(d, j as int));
                lines.append(decls[j].1.as_str());
                lines.append("\n");
                let ghost firsts_before = firsts@;
                firsts.push(j);
                assert forall|i: int| 0 <= i <= j implies #[trigger] represented(
                    d,
                    firsts@,
                    i,
                ) by {
                    if i < j {
                        assert(represented(d, firsts_before, i));
                        let t = choose|t: int|
                            0 <= t < firsts_before.len() && d[#[trigger] firsts_before[t] as int].0
                                == d[i].0;
                        assert(firsts@[t] == firsts_before[t]);
                    } else {
                        assert(firsts@[firsts@.len() - 1] == j);
                    }
                }
            },
        }
        j += 1;
    }
    assert(is_first_collision(d, j as int));
    Ok(lines)
}

/// Appends what every unit starts with: the capture prelude, then the
/// definition of every struct that a value of `test` reaches, each once.
///
/// The values are gone through in order. Where a value cannot be declared, or
/// a struct name comes with a second, different definition, the first such
/// fault is returned and nothing is appended.
pub fn write_rust_prefix(f: &mut String, test: &Test) -> (r: Result<(), BuildError>)
    ensures
        match r {
            Ok(()) => test@.rust_declarable() && rust_prefix(test@) is Ok && final(f)@ == old(f)@
                + rust_prefix(test@)->Ok_0,
            Err(e) => rust_prefix(test@) == Err::<Seq<char>, BuildErrorModel>(e@) && final(f)@
                == old(f)@,
        },
{
    let (vals, owners) = collect_values(test);
    let (decls, stop) = gather_decls(&vals);
    assert(first_undeclarable(test@.values()) == stop);
    let lines = check_decls(&decls)?;
    if stop < vals.len() {
        assert(ref_texts(owners@)[stop as int] == owners[stop as int]@);
        return Err(
            BuildError::Generate { func: owners[stop].clone(), error: GenerateError::EmptyArray },
        );
    }
    f.append(RUST_TEST_PREFIX);
    f.append(lines.as_str());
    Ok(())
}

/// Says for which function a value could not be lowered.
fn in_func<T>(result: Result<T, GenerateError>, func: &String) -> (r: Result<T, BuildError>)
    ensures
        match result {
            Ok(value) => r == Ok::<T, BuildError>(value),
            Err(error) => r is Err && r->Err_0@ == (BuildErrorModel::Generate {
                func: func@,
                error,
            }),
        },
{
    match result {
        Ok(value) => Ok(value),
        Err(error) => Err(BuildError::Generate { func: func.clone(), error }),
    }
}

/// The lines of the caller's `extern` block.
fn extern_lines_text(test: &Test) -> (r: Result<String, BuildError>)
    requires
        test@.rust_typed(),
    ensures
        r is Ok,
        r->Ok_0@ == caller_extern_lines(test@.funcs, test@.funcs.len()),
{
    let mut out = String::new();
    let mut i: usize = 0;
    while i < test.funcs.len()
        invariant
            i <= test.funcs.len(),
            test@.rust_typed(),
            out@ == caller_extern_lines(test@.funcs, i as nat),
        decreases test.funcs.len() - i,
    {
        assert(test@.funcs[i as int] == test.funcs[i as int]@);
        out.append("  ");
        write_rust_signature(&mut out, &test.funcs[i])?;
        out.append(";\n");
        i += 1;
    }
    Ok(out)
}

/// The statements that build the inputs of `function` in locals.
fn input_decls_text(function: &Func) -> (r: Result<String, BuildError>)
    requires
        function@.rust_typed(),
    ensures
        r is Ok,
        r->Ok_0@ == caller_input_decls(function@.inputs, function@.inputs.len()),
{
    let mut out = String::new();
    let mut idx: usize = 0;
    while idx < function.inputs.len()
        invariant
            idx <= function.inputs.len(),
            function@.rust_typed(),
            out@ == caller_input_decls(function@.inputs, idx as nat),
        decreases function.inputs.len() - idx,
    {
        assert(function@.values()[idx as int] == function.inputs[idx as int]@);
        let label = arg_name_text(idx);
        let decl = in_func(function.inputs[idx].rust_var_decl(label.as_str()), &function.name)?;
        let val = in_func(function.inputs[idx].rust_val(), &function.name)?;
        out.append("        ");
        out.append(decl.as_str());
        out.append(" = ");
        out.append(val.as_str());
        out.append(";\n");
        idx += 1;
    }
    Ok(out)
}

/// The statements that record the inputs of `function` into the stream `to`.
fn input_writes_text(function: &Func, to: &str, is_var_root: bool) -> (r: Result<
    String,
    BuildError,
>)
    ensures
        r is Ok,
        r->Ok_0@ == input_writes(function@.inputs, function@.inputs.len(), to@, is_var_root),
{
    let mut out = String::new();
    let mut idx: usize = 0;
    while idx < function.inputs.len()
        invariant
            idx <= function.inputs.len(),
            out@ == input_writes(function@.inputs, idx as nat, to@, is_var_root),
        decreases function.inputs.len() - idx,
    {
        let label = arg_name_text(idx);
        let write = in_func(
            function.inputs[idx].rust_write_val(to, label.as_str(), is_var_root),
            &function.name,
        )?;
        out.append(write.as_str());
        out.append("\n");
        idx += 1;
    }
    Ok(out)
}

/// The arguments of the call of `function`.
fn arg_passes_text(function: &Func) -> (r: Result<String, BuildError>)
    ensures
        r is Ok,
        r->Ok_0@ == caller_arg_passes(function@.inputs, function@.inputs.len()),
{
    let mut out = String::new();
    let mut idx: usize = 0;
    while idx < function.inputs.len()
        invariant
            idx <= function.inputs.len(),
            out@ == caller_arg_passes(function@.inputs, idx as nat),
        decreases function.inputs.len() - idx,
    {
        let label = arg_name_text(idx);
        let pass = in_func(function.inputs[idx].rust_arg_pass(label.as_str()), &function.name)?;
        out.append(pass.as_str());
        out.append(", ");
        idx += 1;
    }
    Ok(out)
}

/// What stands before the call of `function` for its output.
fn output_start_text(function: &Func) -> (r: Result<String, BuildError>)
    requires
        function@.rust_typed(),
    ensures
        r is Ok,
        r->Ok_0@ == caller_output_start(function@.output),
{
    let mut out = String::new();
    if let Some(output) = &function.output {
        assert(function@.values()[function@.inputs.len() as int] == output@);
        match in_func(output.rust_out_param_var(OUTPUT_NAME), &function.name)? {
            Some(decl) => {
                out.append("        ");
                out.append(decl.as_str());
                out.append("\n");
            },
            None => {
                let decl = in_func(output.rust_var_decl(OUTPUT_NAME), &function.name)?;
                out.append("        ");
                out.append(decl.as_str());
                out.append(" = ");
            },
        }
    }
    Ok(out)
}

/// One call in the caller's driver.
fn caller_call_text(function: &Func) -> (r: Result<String, BuildError>)
    requires
        function@.rust_typed(),
    ensures
        r is Ok,
        r->Ok_0@ == caller_call(function@),
{
    let input_decls = input_decls_text(function)?;
    let input_records = input_writes_text(function, "CALLER_INPUTS", true)?;
    let output_start = output_start_text(function)?;
    let arg_passes = arg_passes_text(function)?;
    let mut out_pass = String::new();
    if let Some(Val::Ref(_)) = &function.output {
        out_pass.append("&mut ");
        out_pass.append(OUTPUT_NAME);
        out_pass.append("\n");
    }
    let mut output_record = String::new();
    if let Some(output) = &function.output {
        let write = in_func(
            output.rust_write_val("CALLER_OUTPUTS", OUTPUT_NAME, true),
            &function.name,
        )?;
        output_record.append(write.as_str());
        output_record.append("\n");
    }
    assert(out_pass@ == caller_out_pass(function@.output));
    assert(output_record@ == caller_output_write(function@.output));
    let mut out = String::from_str("   unsafe {\n");
    out.append(input_decls.as_str());
    out.append("\n");
    out.append(input_records.as_str());
    out.append("\n");
    out.append("        ");
    out.append(output_start.as_str());
    out.append(function.name.as_str());
    out.append("(");
    out.append(arg_passes.as_str());
    out.append(out_pass.as_str());
    out.append(");\n");
    out.append("\n");
    out.append(output_record.as_str());
    out.append("        FINISHED_FUNC.unwrap()(CALLER_INPUTS, CALLER_OUTPUTS);\n");
    out.append("   }\n");
    Ok(out)
}

/// What the callee does about the output of `function`.
fn callee_output_text(function: &Func) -> (r: Result<String, BuildError>)
    requires
        function@.rust_typed(),
    ensures
        r is Ok,
        r->Ok_0@ == callee_output(function@.output),
{
    if let Some(output) = &function.output {
        assert(function@.values()[function@.inputs.len() as int] == output@);
        let decl = in_func(output.rust_var_decl(OUTPUT_NAME), &function.name)?;
        let val = in_func(output.rust_val(), &function.name)?;
        let write = in_func(
            output.rust_write_val("CALLEE_OUTPUTS", OUTPUT_NAME, true),
            &function.name,
        )?;
        let hand_back = in_func(
            output.rust_var_return(OUTPUT_NAME, OUT_PARAM_NAME),
            &function.name,
        )?;
        let mut out = String::from_str("        ");
        out.append(decl.as_str());
        out.append(" = ");
        out.append(val.as_str());
        out.append(";\n");
        out.append(write.as_str());
        out.append("\n");
        out.append("        FINISHED_FUNC.unwrap()(CALLEE_INPUTS, CALLEE_OUTPUTS);\n");
        out.append("        ");
        out.append(hand_back.as_str());
        out.append("\n");
        Ok(out)
    } else {
        Ok(String::from_str("        FINISHED_FUNC.unwrap()(CALLEE_INPUTS, CALLEE_OUTPUTS);\n"))
    }
}

/// The definition of `function` on the callee's side.
fn callee_def_text(function: &Func, convention: CallingConvention) -> (r: Result<
    String,
    BuildError,
>)
    requires
        function@.rust_typed(),
        convention.is_concrete(),
    ensures
        r is Ok,
        r->Ok_0@ == callee_def(function@, convention),
{
    let input_records = input_writes_text(function, "CALLEE_INPUTS", false)?;
    let output_part = callee_output_text(function)?;
    let mut out = String::from_str("#[no_mangle]\n");
    out.append("pub unsafe extern \"");
    out.append(convention.rust_convention_decl());
    out.append("\" ");
    write_rust_signature(&mut out, function)?;
    out.append(" {\n");
    out.append(input_records.as_str());
    out.append("\n");
    out.append(output_part.as_str());
    out.append("}\n");
    Ok(out)
}

impl CallingConvention {
    /// The name under which Rust knows this convention. The two
    /// pseudo-conventions have none and never get here.
    pub fn rust_convention_decl(&self) -> (r: &'static str)
        requires
            self.is_concrete(),
        ensures
            r@ == rust_convention_text(*self),
    {
        match self {
            CallingConvention::C => "C",
            CallingConvention::System => "system",
            CallingConvention::Win64 => "win64",
            CallingConvention::Sysv64 => "sysv64",
            CallingConvention::Aapcs => "aapcs",
            CallingConvention::Stdcall => "stdcall",
            CallingConvention::Fastcall => "fastcall",
            _ => "vectorcall",
        }
    }
}

/// How a run of the compiler ended, and what it printed.
#[derive(Debug, PartialEq, Eq)]
pub struct CompilerRun {
    pub success: bool,
    pub stdout: Vec<u8>,
    pub stderr: Vec<u8>,
}

/// The backend for Rust.
pub struct RustAbi;

impl RustAbi {
    /// The name of the backend.
    pub fn name(&self) -> (r: &'static str)
        ensures
            r@ == "rust"@,
    {
        "rust"
    }

    /// The extension of the source files that the backend writes.
    pub fn src_ext(&self) -> (r: &'static str)
        ensures
            r@ == "rs"@,
    {
        "rs"
    }

    /// Whether the backend can generate code for `convention`, which must be a
    /// concrete one. Rust knows all of them; `vectorcall` is left out as
    /// experimental.
    pub fn supports_convention(&self, convention: CallingConvention) -> (r: bool)
        requires
            convention.is_concrete(),
        ensures
            r == (convention != CallingConvention::Vectorcall),
    {
        match convention {
            CallingConvention::Vectorcall => false,
            _ => true,
        }
    }

    /// The command that compiles a source file into a static library: the
    /// program, then its arguments. The path of the source file follows them
    /// as the last argument.
    pub fn compile_command(&self) -> (r: Vec<String>)
        ensures
            texts(r@) == seq![
                "rustc"@,
                "--crate-type"@,
                "staticlib"@,
                "--out-dir"@,
                "target/temp/"@,
            ],
    {
        let mut command: Vec<String> = Vec::new();
        command.push(String::from_str("rustc"));
        command.push(String::from_str("--crate-type"));
        command.push(String::from_str("staticlib"));
        command.push(String::from_str("--out-dir"));
        command.push(String::from_str("target/temp/"));
        assert(texts(command@) =~= seq![
            "rustc"@,
            "--crate-type"@,
            "staticlib"@,
            "--out-dir"@,
            "target/temp/"@,
        ]);
        command
    }

    /// The functions that a run under `convention` calls, in the order of the
    /// calls: those that take part in the convention, and none where the
    /// backend cannot generate code for it.
    pub fn tested_functions(&self, test: &Test, convention: CallingConvention) -> (r: Vec<String>)
        requires
            convention.is_concrete(),
        ensures
            texts(r@) == if convention != CallingConvention::Vectorcall {
                called_upto(test@.funcs, test@.funcs.len(), convention)
            } else {
                Seq::empty()
            },
    {
        if self.supports_convention(convention) {
            test.called_under(convention)
        } else {
            let none: Vec<String> = Vec::new();
            assert(texts(none@) =~= Seq::<Seq<char>>::empty());
            none
        }
    }

    /// What a finished run of the compiler on the callee's source means: the
    /// library `lib_name` where the compiler succeeded, else an error that
    /// holds all that it printed.
    pub fn compile_callee(&self, run: CompilerRun, lib_name: &str) -> (r: Result<
        String,
        BuildError,
    >)
        ensures
            match r {
                Ok(lib) => run.success && lib@ == lib_name@,
                Err(e) => !run.success && e@ == (BuildErrorModel::RustCompile {
                    stdout: run.stdout@,
                    stderr: run.stderr@,
                }),
            },
    {
        if !run.success {
            Err(BuildError::RustCompile { stdout: run.stdout, stderr: run.stderr })
        } else {
            Ok(String::from_str(lib_name))
        }
    }

    /// What a finished run of the compiler on the caller's source means: the
    /// same as for the callee.
    pub fn compile_caller(&self, run: CompilerRun, lib_name: &str) -> (r: Result<
        String,
        BuildError,
    >)
        ensures
            match r {
                Ok(lib) => run.success && lib@ == lib_name@,
                Err(e) => !run.success && e@ == (BuildErrorModel::RustCompile {
                    stdout: run.stdout@,
                    stderr: run.stderr@,
                }),
            },
    {
        self.compile_callee(run, lib_name)
    }

    /// Appends the source of the caller to `f`: the prelude with the struct
    /// declarations, an `extern` block that declares every function under
    /// `convention`, and the driver `do_test`, which calls each function that
    /// takes part in `convention`, in order, and records what it passes and
    /// what comes back. On an error nothing is appended.
    pub fn generate_caller(
        &self,
        f: &mut String,
        test: &Test,
        convention: CallingConvention,
    ) -> (r: Result<(), BuildError>)
        requires
            convention.is_concrete(),
        ensures
            match r {
                Ok(()) => rust_caller(test@, convention) is Ok && final(f)@ == old(f)@
                    + rust_caller(test@, convention)->Ok_0,
                Err(e) => rust_caller(test@, convention) == Err::<Seq<char>, BuildErrorModel>(e@)
                    && final(f)@ == old(f)@,
            },
    {
        let mut src = String::new();
        write_rust_prefix(&mut src, test)?;
        assert(src@ =~= rust_prefix(test@)->Ok_0);
        proof {
            lemma_declarable_test_is_typed(test@);
        }
        let convention_decl = convention.rust_convention_decl();

        // The extern block
        let extern_lines = extern_lines_text(test)?;
        let mut externs = String::from_str("extern \"");
        externs.append(convention_decl);
        externs.append("\" {\n");
        externs.append(extern_lines.as_str());
        externs.append("}\n");
        externs.append("\n");

        // The driver
        let mut calls = String::new();
        let mut i: usize = 0;
        while i < test.funcs.len()
            invariant
                i <= test.funcs.len(),
                test@.rust_typed(),
                calls@ == caller_calls(test@.funcs, i as nat, convention),
            decreases test.funcs.len() - i,
        {
            let function = &test.funcs[i];
            assert(test@.funcs[i as int] == function@);
            if function.has_convention(convention) {
                let call = caller_call_text(function)?;
                calls.append(call.as_str());
            }
            i += 1;
        }
        src.append(externs.as_str());
        src.append("#[no_mangle] pub extern \"C\" fn do_test() {\n");
        src.append(calls.as_str());
        src.append("}\n");
        f.append(src.as_str());
        Ok(())
    }

    /// Appends the source of the callee to `f`: the prelude with the struct
    /// declarations, then for each function that takes part in `convention`, in
    /// order, its definition, which records what it receives, builds its output,
    /// records it and hands it back. On an error nothing is appended.
    pub fn generate_callee(
        &self,
        f: &mut String,
        test: &Test,
        convention: CallingConvention,
    ) -> (r: Result<(), BuildError>)
        requires
            convention.is_concrete(),
        ensures
            match r {
                Ok(()) => rust_callee(test@, convention) is Ok && final(f)@ == old(f)@
                    + rust_callee(test@, convention)->Ok_0,
                Err(e) => rust_callee(test@, convention) == Err::<Seq<char>, BuildErrorModel>(e@)
                    && final(f)@ == old(f)@,
            },
    {
        let mut src = String::new();
        write_rust_prefix(&mut src, test)?;
        assert(src@ =~= rust_prefix(test@)->Ok_0);
        proof {
            lemma_declarable_test_is_typed(test@);
        }
        let mut defs = String::new();
        let mut i: usize = 0;
        while i < test.funcs.len()
            invariant
                i <= test.funcs.len(),
                test@.rust_typed(),
                convention.is_concrete(),
                defs@ == callee_defs(test@.funcs, i as nat, convention),
            decreases test.funcs.len() - i,
        {
            let function = &test.funcs[i];
            assert(test@.funcs[i as int] == function@);
            if function.has_convention(convention) {
                let def = callee_def_text(function, convention)?;
                defs.append(def.as_str());
            }
            i += 1;
        }
        src.append(defs.as_str());
        f.append(src.as_str());
        Ok(())
    }
}

} // verus!
