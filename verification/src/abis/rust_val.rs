//! How the Rust backend lowers a value: its type, its literal, its declarations
//! and the statements that record it.

use vstd::prelude::*;
use vstd::string::StringExecFns;
use crate::abis::rust_text::arg_name;
use crate::abis::rust_text::decl_views;
use crate::abis::rust_text::field_name;
use crate::abis::rust_text::lemma_declarable_is_typed;
use crate::abis::rust_text::option_text;
use crate::abis::rust_text::write_lines;
use crate::error::GenerateError;
use crate::text::decimal_text;
use crate::text::digit_char;
use crate::text::is_whole;
use crate::text::push_decimal;
use crate::text::signed_decimal_text;
use crate::text::texts;
use crate::value::FloatVal;
use crate::value::IntVal;
use crate::value::Val;
use crate::value::ValModel;

verus! {

/// The name of the `idx`-th argument of a function.
pub fn arg_name_text(idx: usize) -> (r: String)
    ensures
        r@ == arg_name(idx as nat),
{
    let mut out = String::from_str("arg");
    push_decimal(&mut out, idx as u128);
    out
}

/// The name of the `idx`-th field of a struct.
pub fn field_name_text(idx: usize) -> (r: String)
    ensures
        r@ == field_name(idx as nat),
{
    let mut out = String::from_str("field");
    push_decimal(&mut out, idx as u128);
    out
}

fn float_literal_text(text: &String) -> (r: String)
    ensures
        r@ == crate::abis::rust_text::float_literal(text@),
{
    let mut out = text.clone();
    if is_whole(text.as_str()) {
        out.append(".0");
    }
    out
}

impl Val {
    /// The type name to use for this value when it is stored in a variable or
    /// an argument. A reference has the type of what it points to. An array
    /// without elements has no element type and is rejected.
    pub fn rust_arg_type(&self) -> (r: Result<String, GenerateError>)
        ensures
            match r {
                Ok(text) => self@.rust_typed() && text@ == self@.rust_type(),
                Err(e) => !self@.rust_typed() && e == GenerateError::EmptyArray,
            },
        decreases self,
    {
        match self {
            Val::Ref(inner) => inner.rust_arg_type(),
            Val::Ptr(_) => Ok(String::from_str("*mut ()")),
            Val::Bool(_) => Ok(String::from_str("bool")),
            Val::Array(items) => {
                if items.len() == 0 {
                    return Err(GenerateError::EmptyArray);
                }
                let element = items[0].rust_arg_type()?;
                let mut out = String::from_str("[");
                out.append(element.as_str());
                out.append("; ");
                push_decimal(&mut out, items.len() as u128);
                out.append("]");
                Ok(out)
            },
            Val::Struct(name, _) => Ok(name.clone()),
            Val::Float(FloatVal::Double(_)) => Ok(String::from_str("f64")),
            Val::Float(FloatVal::Single(_)) => Ok(String::from_str("f32")),
            Val::Int(int_val) => Ok(
                String::from_str(
                    match int_val {
                        IntVal::c__int128(_) => "i128",
                        IntVal::c_int64_t(_) => "i64",
                        IntVal::c_int32_t(_) => "i32",
                        IntVal::c_int16_t(_) => "i16",
                        IntVal::c_int8_t(_) => "i8",
                        IntVal::c__uint128(_) => "u128",
                        IntVal::c_uint64_t(_) => "u64",
                        IntVal::c_uint32_t(_) => "u32",
                        IntVal::c_uint16_t(_) => "u16",
                        IntVal::c_uint8_t(_) => "u8",
                    },
                ),
            ),
        }
    }

    /// The type name to use for this value when it is stored in a composite.
    /// In Rust a field has the type that a variable has.
    pub fn rust_nested_type(&self) -> (r: Result<String, GenerateError>)
        ensures
            match r {
                Ok(text) => self@.rust_typed() && text@ == self@.rust_type(),
                Err(e) => !self@.rust_typed() && e == GenerateError::EmptyArray,
            },
    {
        self.rust_arg_type()
    }

    /// An expression that generates this value.
    pub fn rust_val(&self) -> (r: Result<String, GenerateError>)
        ensures
            r is Ok,
            r->Ok_0@ == self@.rust_literal(),
        decreases self,
    {
        match self {
            Val::Ref(inner) => inner.rust_val(),
            Val::Ptr(addr) => {
                let mut out = decimal_text(*addr as u128);
                out.append(" as *mut ()");
                Ok(out)
            },
            Val::Bool(b) => Ok(
                String::from_str(
                    if *b {
                        "true"
                    } else {
                        "false"
                    },
                ),
            ),
            Val::Array(items) => {
                let mut out = String::from_str("[");
                let mut i: usize = 0;
                while i < items.len()
                    invariant
                        i <= items.len(),
                        *self is Array,
                        self->Array_0 == *items,
                        out@ == "["@ + ValModel::rust_item_literals(self@->Array_0, i as nat),
                    decreases items.len() - i,
                {
                    assert(decreases_to!(*self => self->Array_0));
                    let part = items[i].rust_val()?;
                    out.append(part.as_str());
                    out.append(", ");
                    i += 1;
                }
                out.append("]");
                Ok(out)
            },
            Val::Struct(name, fields) => {
                let mut out = name.clone();
                out.append(" { ");
                let mut i: usize = 0;
                while i < fields.len()
                    invariant
                        i <= fields.len(),
                        *self is Struct,
                        self->Struct_1 == *fields,
                        out@ == name@ + " { "@ + ValModel::rust_field_literals(
                            self@->Struct_1,
                            i as nat,
                        ),
                    decreases fields.len() - i,
                {
                    assert(decreases_to!(*self => self->Struct_1));
                    let part = fields[i].rust_val()?;
                    let label = field_name_text(i);
                    out.append(label.as_str());
                    out.append(": ");
                    out.append(part.as_str());
                    out.append(",");
                    i += 1;
                }
                out.append(" }");
                Ok(out)
            },
            Val::Float(FloatVal::Double(text)) => Ok(float_literal_text(text)),
            Val::Float(FloatVal::Single(text)) => Ok(float_literal_text(text)),
            Val::Int(int_val) => Ok(
                match int_val {
                    IntVal::c__int128(v) => signed_decimal_text(*v),
                    IntVal::c_int64_t(v) => signed_decimal_text(*v as i128),
                    IntVal::c_int32_t(v) => signed_decimal_text(*v as i128),
                    IntVal::c_int16_t(v) => signed_decimal_text(*v as i128),
                    IntVal::c_int8_t(v) => signed_decimal_text(*v as i128),
                    IntVal::c__uint128(v) => decimal_text(*v),
                    IntVal::c_uint64_t(v) => decimal_text(*v as u128),
                    IntVal::c_uint32_t(v) => decimal_text(*v as u128),
                    IntVal::c_uint16_t(v) => decimal_text(*v as u128),
                    IntVal::c_uint8_t(v) => decimal_text(*v as u128),
                },
            ),
        }
    }

    /// A suitable default value for this type: every scalar zero.
    pub fn rust_default_val(&self) -> (r: Result<String, GenerateError>)
        ensures
            r is Ok,
            r->Ok_0@ == self@.rust_default(),
        decreases self,
    {
        match self {
            Val::Ref(inner) => inner.rust_default_val(),
            Val::Ptr(_) => {
                let mut out = decimal_text(0);
                out.append(" as *mut ()");
                Ok(out)
            },
            Val::Bool(_) => Ok(String::from_str("false")),
            Val::Array(items) => {
                let mut out = String::from_str("[");
                let mut i: usize = 0;
                while i < items.len()
                    invariant
                        i <= items.len(),
                        *self is Array,
                        self->Array_0 == *items,
                        out@ == "["@ + ValModel::rust_item_literals(
                            self@.zeroed()->Array_0,
                            i as nat,
                        ),
                    decreases items.len() - i,
                {
                    assert(decreases_to!(*self => self->Array_0));
                    let part = items[i].rust_default_val()?;
                    out.append(part.as_str());
                    out.append(", ");
                    i += 1;
                }
                out.append("]");
                Ok(out)
            },
            Val::Struct(name, fields) => {
                let mut out = name.clone();
                out.append(" { ");
                let mut i: usize = 0;
                while i < fields.len()
                    invariant
                        i <= fields.len(),
                        *self is Struct,
                        self->Struct_1 == *fields,
                        out@ == name@ + " { "@ + ValModel::rust_field_literals(
                            self@.zeroed()->Struct_1,
                            i as nat,
                        ),
                    decreases fields.len() - i,
                {
                    assert(decreases_to!(*self => self->Struct_1));
                    let part = fields[i].rust_default_val()?;
                    let label = field_name_text(i);
                    out.append(label.as_str());
                    out.append(": ");
                    out.append(part.as_str());
                    out.append(",");
                    i += 1;
                }
                out.append(" }");
                Ok(out)
            },
            Val::Float(_) => {
                let mut out = decimal_text(0);
                out.append(".0");
                proof {
                    assert('0' == digit_char(0));
                }
                Ok(out)
            },
            Val::Int(_) => Ok(decimal_text(0)),
        }
    }

    /// The declaration to use for a local variable: what a reference points to
    /// is declared, never the reference.
    pub fn rust_var_decl(&self, var_name: &str) -> (r: Result<String, GenerateError>)
        ensures
            match r {
                Ok(text) => self@.rust_typed() && text@ == self@.rust_var_decl(var_name@),
                Err(e) => !self@.rust_typed() && e == GenerateError::EmptyArray,
            },
        decreases self,
    {
        if let Val::Ref(inner) = self {
            inner.rust_var_decl(var_name)
        } else {
            let ty = self.rust_arg_type()?;
            let mut out = String::from_str("let ");
            out.append(var_name);
            out.append(": ");
            out.append(ty.as_str());
            Ok(out)
        }
    }

    /// The declaration to use for a function parameter: a reference shows as
    /// one.
    pub fn rust_arg_decl(&self, arg_name: &str) -> (r: Result<String, GenerateError>)
        ensures
            match r {
                Ok(text) => self@.rust_typed() && text@ == self@.rust_arg_decl(arg_name@),
                Err(e) => !self@.rust_typed() && e == GenerateError::EmptyArray,
            },
    {
        let mut out = String::from_str(arg_name);
        if let Val::Ref(inner) = self {
            let ty = inner.rust_arg_type()?;
            out.append(": &");
            out.append(ty.as_str());
        } else {
            let ty = self.rust_arg_type()?;
            out.append(": ");
            out.append(ty.as_str());
        }
        Ok(out)
    }

    /// If the value is returned by reference, the out-parameter that takes it.
    pub fn rust_out_param(&self, out_param_name: &str) -> (r: Result<
        Option<String>,
        GenerateError,
    >)
        ensures
            match r {
                Ok(param) => (self@ is Ref ==> self@.rust_typed()) && option_text(param)
                    == self@.rust_out_param(out_param_name@),
                Err(e) => self@ is Ref && !self@.rust_typed() && e == GenerateError::EmptyArray,
            },
    {
        if let Val::Ref(inner) = self {
            let ty = inner.rust_arg_type()?;
            let mut out = String::from_str(out_param_name);
            out.append(": &mut ");
            out.append(ty.as_str());
            Ok(Some(out))
        } else {
            Ok(None)
        }
    }

    /// If the value is returned by reference, the statement that declares the
    /// storage for it, initialised to the default.
    pub fn rust_out_param_var(&self, output_name: &str) -> (r: Result<
        Option<String>,
        GenerateError,
    >)
        ensures
            match r {
                Ok(decl) => (self@ is Ref ==> self@.rust_typed()) && option_text(decl)
                    == self@.rust_out_param_var(output_name@),
                Err(e) => self@ is Ref && !self@.rust_typed() && e == GenerateError::EmptyArray,
            },
    {
        if let Val::Ref(inner) = self {
            let ty = inner.rust_arg_type()?;
            let default = inner.rust_default_val()?;
            let mut out = String::from_str("let mut ");
            out.append(output_name);
            out.append(": ");
            out.append(ty.as_str());
            out.append(" = ");
            out.append(default.as_str());
            out.append(";");
            Ok(Some(out))
        } else {
            Ok(None)
        }
    }

    /// How to pass the variable `arg_name` as this value.
    pub fn rust_arg_pass(&self, arg_name: &str) -> (r: Result<String, GenerateError>)
        ensures
            r is Ok,
            r->Ok_0@ == self@.rust_arg_pass(arg_name@),
    {
        if let Val::Ref(_) = self {
            let mut out = String::from_str("&");
            out.append(arg_name);
            Ok(out)
        } else {
            Ok(String::from_str(arg_name))
        }
    }

    /// How to return the variable `var_name` as this value.
    pub fn rust_var_return(&self, var_name: &str, out_param_name: &str) -> (r: Result<
        String,
        GenerateError,
    >)
        ensures
            r is Ok,
            r->Ok_0@ == self@.rust_var_return(var_name@, out_param_name@),
    {
        if let Val::Ref(_) = self {
            let mut out = String::from_str("*");
            out.append(out_param_name);
            out.append(" = ");
            out.append(var_name);
            out.append(";");
            Ok(out)
        } else {
            let mut out = String::from_str("return ");
            out.append(var_name);
            out.append(";");
            Ok(out)
        }
    }

    /// The statements that record this value, stored at `from`, into the stream
    /// `to`: one `WRITE` for every leaf, then `FINISHED_VAL`.
    pub fn rust_write_val(&self, to: &str, from: &str, is_var_root: bool) -> (r: Result<
        String,
        GenerateError,
    >)
        ensures
            r is Ok,
            r->Ok_0@ == self@.rust_write(to@, from@, is_var_root),
    {
        let paths = self.rust_var_paths(from, is_var_root)?;
        let mut out = String::new();
        let mut i: usize = 0;
        while i < paths.len()
            invariant
                i <= paths.len(),
                out@ == write_lines(to@, texts(paths@), i as nat),
            decreases paths.len() - i,
        {
            out.append("        WRITE.unwrap()(");
            out.append(to);
            out.append(", &");
            out.append(paths[i].as_str());
            out.append(" as *const _ as *const _, core::mem::size_of_val(&");
            out.append(paths[i].as_str());
            out.append(") as u32);\n");
            i += 1;
        }
        out.append("        FINISHED_VAL.unwrap()(");
        out.append(to);
        out.append(");");
        Ok(out)
    }

    /// The paths to every leaf of this value, with `from` as the path to the
    /// value itself.
    pub fn rust_var_paths(&self, from: &str, is_var_root: bool) -> (r: Result<
        Vec<String>,
        GenerateError,
    >)
        ensures
            r is Ok,
            texts(r->Ok_0@) == self@.rust_paths(from@, is_var_root),
        decreases self,
    {
        match self {
            Val::Int(_) | Val::Float(_) | Val::Bool(_) | Val::Ptr(_) => {
                let mut paths: Vec<String> = Vec::new();
                paths.push(String::from_str(from));
                assert(texts(paths@) =~= seq![from@]);
                Ok(paths)
            },
            Val::Struct(_, fields) => {
                let mut paths: Vec<String> = Vec::new();
                let mut i: usize = 0;
                while i < fields.len()
                    invariant
                        i <= fields.len(),
                        *self is Struct,
                        self->Struct_1 == *fields,
                        texts(paths@) == ValModel::rust_field_paths(
                            self@->Struct_1,
                            i as nat,
                            from@,
                        ),
                    decreases fields.len() - i,
                {
                    assert(decreases_to!(*self => self->Struct_1));
                    let mut base = String::from_str(from);
                    base.append(".");
                    let label = field_name_text(i);
                    base.append(label.as_str());
                    let mut sub = fields[i].rust_var_paths(base.as_str(), false)?;
                    let ghost before = paths@;
                    let ghost added = sub@;
                    paths.append(&mut sub);
                    assert(texts(paths@) =~= texts(before) + texts(added));
                    i += 1;
                }
                Ok(paths)
            },
            Val::Ref(inner) => {
                if is_var_root {
                    inner.rust_var_paths(from, false)
                } else {
                    let mut base = String::from_str("(*");
                    base.append(from);
                    base.append(")");
                    inner.rust_var_paths(base.as_str(), false)
                }
            },
            Val::Array(items) => {
                let mut paths: Vec<String> = Vec::new();
                let mut i: usize = 0;
                while i < items.len()
                    invariant
                        i <= items.len(),
                        *self is Array,
                        self->Array_0 == *items,
                        texts(paths@) == ValModel::rust_item_paths(
                            self@->Array_0,
                            i as nat,
                            from@,
                        ),
                    decreases items.len() - i,
                {
                    assert(decreases_to!(*self => self->Array_0));
                    let mut base = String::from_str(from);
                    base.append("[");
                    push_decimal(&mut base, i as u128);
                    base.append("]");
                    let mut sub = items[i].rust_var_paths(base.as_str(), false)?;
                    let ghost before = paths@;
                    let ghost added = sub@;
                    paths.append(&mut sub);
                    assert(texts(paths@) =~= texts(before) + texts(added));
                    i += 1;
                }
                Ok(paths)
            },
        }
    }

    /// The structs that this value needs declared, each by its name and its
    /// definition, inner ones first. A name may come up more than once; that
    /// all its definitions agree is for the caller to see to.
    pub fn rust_forward_decl(&self) -> (r: Result<Vec<(String, String)>, GenerateError>)
        ensures
            match r {
                Ok(decls) => self@.rust_declarable() && decl_views(decls@) == self@.rust_decls(),
                Err(e) => !self@.rust_declarable() && e == GenerateError::EmptyArray,
            },
        decreases self,
    {
        match self {
            Val::Struct(name, fields) => {
                let mut results: Vec<(String, String)> = Vec::new();
                let mut i: usize = 0;
                while i < fields.len()
                    invariant
                        i <= fields.len(),
                        *self is Struct,
                        self->Struct_1 == *fields,
                        decl_views(results@) == ValModel::rust_field_decls(
                            self@->Struct_1,
                            i as nat,
                        ),
                        forall|j: int|
                            0 <= j < i ==> (#[trigger] self@->Struct_1[j]).rust_declarable(),
                    decreases fields.len() - i,
                {
                    assert(decreases_to!(*self => self->Struct_1));
                    let declared = fields[i].rust_forward_decl();
                    assert(declared is Err ==> !self@->Struct_1[i as int].rust_declarable());
                    let mut inner = declared?;
                    let ghost before = results@;
                    let ghost added = inner@;
                    results.append(&mut inner);
                    assert(decl_views(results@) =~= decl_views(before) + decl_views(added));
                    i += 1;
                }
                let mut output = String::from_str("\n#[repr(C)]\n");
                output.append("pub struct ");
                output.append(name.as_str());
                output.append(" {\n");
                let mut k: usize = 0;
                while k < fields.len()
                    invariant
                        k <= fields.len(),
                        *self is Struct,
                        self->Struct_1 == *fields,
                        self@.rust_declarable(),
                        output@ == "\n#[repr(C)]\n"@ + "pub struct "@ + name@ + " {\n"@
                            + ValModel::rust_struct_lines(self@->Struct_1, k as nat),
                    decreases fields.len() - k,
                {
                    proof {
                        lemma_declarable_is_typed(self@->Struct_1[k as int]);
                    }
                    let ty = fields[k].rust_nested_type()?;
                    let label = field_name_text(k);
                    output.append("    ");
                    output.append(label.as_str());
                    output.append(": ");
                    output.append(ty.as_str());
                    output.append(",\n");
                    k += 1;
                }
                output.append("}");
                let ghost before = results@;
                results.push((name.clone(), output));
                assert(decl_views(results@) =~= decl_views(before).push(
                    (name@, ValModel::rust_struct_decl(name@, self@->Struct_1)),
                ));
                Ok(results)
            },
            Val::Array(items) => {
                if items.len() == 0 {
                    return Err(GenerateError::EmptyArray);
                }
                items[0].rust_forward_decl()
            },
            Val::Ref(inner) => inner.rust_forward_decl(),
            _ => {
                let results: Vec<(String, String)> = Vec::new();
                assert(decl_views(results@) =~= Seq::<crate::abis::rust_text::Decl>::empty());
                Ok(results)
            },
        }
    }
}

} // verus!
