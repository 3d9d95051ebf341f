//! The Rust text that a value lowers to: its type, its literal, its declarations
//! and the paths to its leaves. These functions say what the Rust backend writes;
//! the backend is proved against them.

use vstd::prelude::*;
use crate::text::decimal;
use crate::text::is_whole_text;
use crate::text::signed_decimal;
use crate::value::FloatModel;
use crate::value::IntVal;
use crate::value::Step;
use crate::value::ValModel;

verus! {

/// The name of the local that holds a function's output.
pub const OUTPUT_NAME: &'static str = "output";

/// The name of the parameter through which an output is written back.
pub const OUT_PARAM_NAME: &'static str = "out";

/// The name of the `idx`-th argument of a function.
pub open spec fn arg_name(idx: nat) -> Seq<char> {
    "arg"@ + decimal(idx)
}

/// The name of the `idx`-th field of a struct.
pub open spec fn field_name(idx: nat) -> Seq<char> {
    "field"@ + decimal(idx)
}

/// The Rust type of an integer scalar.
pub open spec fn int_type(int_val: IntVal) -> Seq<char> {
    match int_val {
        IntVal::c__int128(_) => "i128"@,
        IntVal::c_int64_t(_) => "i64"@,
        IntVal::c_int32_t(_) => "i32"@,
        IntVal::c_int16_t(_) => "i16"@,
        IntVal::c_int8_t(_) => "i8"@,
        IntVal::c__uint128(_) => "u128"@,
        IntVal::c_uint64_t(_) => "u64"@,
        IntVal::c_uint32_t(_) => "u32"@,
        IntVal::c_uint16_t(_) => "u16"@,
        IntVal::c_uint8_t(_) => "u8"@,
    }
}

/// The Rust type of a floating-point scalar.
pub open spec fn float_type(float_val: FloatModel) -> Seq<char> {
    match float_val {
        FloatModel::Double(_) => "f64"@,
        FloatModel::Single(_) => "f32"@,
    }
}

/// The Rust literal for a floating-point value given as decimal text: the text
/// itself, with `.0` behind it where it has no fractional part.
pub open spec fn float_literal(text: Seq<char>) -> Seq<char> {
    if is_whole_text(text) {
        text + ".0"@
    } else {
        text
    }
}

/// One line that records the leaf at `path` into the stream `to`.
pub open spec fn write_line(to: Seq<char>, path: Seq<char>) -> Seq<char> {
    "        WRITE.unwrap()("@ + to + ", &"@ + path
        + " as *const _ as *const _, core::mem::size_of_val(&"@ + path + ") as u32);\n"@
}

/// The lines that record the first `n` of `paths` into the stream `to`.
pub open spec fn write_lines(to: Seq<char>, paths: Seq<Seq<char>>, n: nat) -> Seq<char>
    decreases n,
{
    if n == 0 || n > paths.len() {
        Seq::empty()
    } else {
        write_lines(to, paths, (n - 1) as nat) + write_line(to, paths[n - 1])
    }
}

/// The place that one step leads to from the place `from`. A reference at the
/// root of a variable is the variable itself; anywhere else what it points to
/// lies behind a dereference.
pub open spec fn rust_step(from: Seq<char>, step: Step, is_var_root: bool) -> Seq<char> {
    match step {
        Step::Field(idx) => from + "."@ + field_name(idx),
        Step::Item(idx) => from + "["@ + decimal(idx) + "]"@,
        Step::Deref => if is_var_root {
            from
        } else {
            "(*"@ + from + ")"@
        },
    }
}

/// The path that a route leads to from the place `from`. Only the first step
/// starts at the root of a variable.
pub open spec fn rust_route_path(route: Seq<Step>, from: Seq<char>, is_var_root: bool) -> Seq<
    char,
>
    decreases route.len(),
{
    if route.len() == 0 {
        from
    } else {
        rust_route_path(route.drop_first(), rust_step(from, route[0], is_var_root), false)
    }
}

/// A struct's name with its definition.
pub type Decl = (Seq<char>, Seq<char>);

/// What a vector of declarations holds, as text.
pub open spec fn decl_views(decls: Seq<(String, String)>) -> Seq<Decl> {
    Seq::new(decls.len(), |i: int| (decls[i].0@, decls[i].1@))
}

/// What an optional string holds, as text.
pub open spec fn option_text(text: Option<String>) -> Option<Seq<char>> {
    match text {
        Some(t) => Some(t@),
        None => None,
    }
}

impl ValModel {
    /// Whether the value has a Rust type: no array on the way to its type is
    /// empty. An array's element type is that of its first element, a reference
    /// has the type of what it points to, and a struct is named, so that its
    /// fields do not matter here.
    pub open spec fn rust_typed(self) -> bool
        decreases self,
    {
        match self {
            ValModel::Ref(inner) => inner.rust_typed(),
            ValModel::Array(items) => items.len() > 0 && items[0].rust_typed(),
            _ => true,
        }
    }

    /// The type name of the value where it is stored in a variable, an argument
    /// or a field. A reference has the type of what it points to: that it is a
    /// reference shows where it is used, never in the stored type. The name
    /// means something where the value is `rust_typed`.
    pub open spec fn rust_type(self) -> Seq<char>
        decreases self,
    {
        match self {
            ValModel::Ref(inner) => inner.rust_type(),
            ValModel::Ptr(_) => "*mut ()"@,
            ValModel::Bool(_) => "bool"@,
            ValModel::Array(items) => "["@ + (if items.len() > 0 {
                items[0].rust_type()
            } else {
                Seq::empty()
            }) + "; "@ + decimal(items.len()) + "]"@,
            ValModel::Struct(name, _) => name,
            ValModel::Float(float_val) => float_type(float_val),
            ValModel::Int(int_val) => int_type(int_val),
        }
    }

    /// An expression that builds the value.
    pub open spec fn rust_literal(self) -> Seq<char>
        decreases self, 0nat,
    {
        match self {
            ValModel::Ref(inner) => inner.rust_literal(),
            ValModel::Ptr(addr) => decimal(addr as nat) + " as *mut ()"@,
            ValModel::Bool(b) => if b {
                "true"@
            } else {
                "false"@
            },
            ValModel::Array(items) => "["@ + Self::rust_item_literals(items, items.len()) + "]"@,
            ValModel::Struct(name, fields) => name + " { "@ + Self::rust_field_literals(
                fields,
                fields.len(),
            ) + " }"@,
            ValModel::Float(float_val) => float_literal(float_val.text()),
            ValModel::Int(int_val) => signed_decimal(int_val.value()),
        }
    }

    /// The literals of the first `n` of an array's items, each with `, ` behind it.
    pub open spec fn rust_item_literals(items: Seq<ValModel>, n: nat) -> Seq<char>
        decreases items, n,
    {
        if n == 0 || n > items.len() {
            Seq::empty()
        } else {
            Self::rust_item_literals(items, (n - 1) as nat) + items[n - 1].rust_literal() + ", "@
        }
    }

    /// The initialisers of the first `n` of a struct's fields, each with `,`
    /// behind it.
    pub open spec fn rust_field_literals(fields: Seq<ValModel>, n: nat) -> Seq<char>
        decreases fields, n,
    {
        if n == 0 || n > fields.len() {
            Seq::empty()
        } else {
            Self::rust_field_literals(fields, (n - 1) as nat) + field_name((n - 1) as nat) + ": "@
                + fields[n - 1].rust_literal() + ","@
        }
    }

    /// An expression for the neutral instance of the value's type: the literal
    /// of the value with every scalar set to zero.
    pub open spec fn rust_default(self) -> Seq<char> {
        self.zeroed().rust_literal()
    }

    /// The declaration of a local variable for the value. A local holds what a
    /// reference points to, never the reference.
    pub open spec fn rust_var_decl(self, var_name: Seq<char>) -> Seq<char>
        decreases self,
    {
        match self {
            ValModel::Ref(inner) => inner.rust_var_decl(var_name),
            _ => "let "@ + var_name + ": "@ + self.rust_type(),
        }
    }

    /// The declaration of a function parameter for the value. A reference
    /// becomes a `&` of what it points to.
    pub open spec fn rust_arg_decl(self, arg_name: Seq<char>) -> Seq<char> {
        match self {
            ValModel::Ref(inner) => arg_name + ": &"@ + inner.rust_type(),
            _ => arg_name + ": "@ + self.rust_type(),
        }
    }

    /// The out-parameter through which the value is returned, if it is returned
    /// by reference.
    pub open spec fn rust_out_param(self, out_param_name: Seq<char>) -> Option<Seq<char>> {
        match self {
            ValModel::Ref(inner) => Some(out_param_name + ": &mut "@ + inner.rust_type()),
            _ => None,
        }
    }

    /// The statement that declares and default-initialises the storage behind an
    /// out-parameter, if the value is returned by reference.
    pub open spec fn rust_out_param_var(self, output_name: Seq<char>) -> Option<Seq<char>> {
        match self {
            ValModel::Ref(inner) => Some(
                "let mut "@ + output_name + ": "@ + inner.rust_type() + " = "@
                    + inner.rust_default() + ";"@,
            ),
            _ => None,
        }
    }

    /// The expression that passes the variable `arg_name` as this value.
    pub open spec fn rust_arg_pass(self, arg_name: Seq<char>) -> Seq<char> {
        match self {
            ValModel::Ref(_) => "&"@ + arg_name,
            _ => arg_name,
        }
    }

    /// The statement that hands the variable `var_name` back to the caller.
    pub open spec fn rust_var_return(
        self,
        var_name: Seq<char>,
        out_param_name: Seq<char>,
    ) -> Seq<char> {
        match self {
            ValModel::Ref(_) => "*"@ + out_param_name + " = "@ + var_name + ";"@,
            _ => "return "@ + var_name + ";"@,
        }
    }

    /// The paths to the scalar leaves of the value stored at `from`, depth first,
    /// fields in declaration order and array items by index. A reference at the
    /// root of a variable is the variable itself; anywhere else its leaves lie
    /// behind a dereference.
    pub open spec fn rust_paths(self, from: Seq<char>, is_var_root: bool) -> Seq<Seq<char>>
        decreases self, 0nat,
    {
        match self {
            ValModel::Struct(_, fields) => Self::rust_field_paths(fields, fields.len(), from),
            ValModel::Ref(inner) => if is_var_root {
                inner.rust_paths(from, false)
            } else {
                inner.rust_paths("(*"@ + from + ")"@, false)
            },
            ValModel::Array(items) => Self::rust_item_paths(items, items.len(), from),
            _ => seq![from],
        }
    }

    /// The leaf paths of the first `n` fields of a struct stored at `from`.
    pub open spec fn rust_field_paths(fields: Seq<ValModel>, n: nat, from: Seq<char>) -> Seq<
        Seq<char>,
    >
        decreases fields, n,
    {
        if n == 0 || n > fields.len() {
            Seq::empty()
        } else {
            Self::rust_field_paths(fields, (n - 1) as nat, from) + fields[n - 1].rust_paths(
                from + "."@ + field_name((n - 1) as nat),
                false,
            )
        }
    }

    /// The leaf paths of the first `n` items of an array stored at `from`.
    pub open spec fn rust_item_paths(items: Seq<ValModel>, n: nat, from: Seq<char>) -> Seq<
        Seq<char>,
    >
        decreases items, n,
    {
        if n == 0 || n > items.len() {
            Seq::empty()
        } else {
            Self::rust_item_paths(items, (n - 1) as nat, from) + items[n - 1].rust_paths(
                from + "["@ + decimal((n - 1) as nat) + "]"@,
                false,
            )
        }
    }

    /// The statements that record every leaf of the value stored at `from` into
    /// the stream `to`, and then close the value.
    pub open spec fn rust_write(self, to: Seq<char>, from: Seq<char>, is_var_root: bool) -> Seq<
        char,
    > {
        let paths = self.rust_paths(from, is_var_root);
        write_lines(to, paths, paths.len()) + "        FINISHED_VAL.unwrap()("@ + to + ");"@
    }

    /// Whether every struct that the value reaches can be declared: no array on
    /// the way to a struct or to a field's type is empty.
    pub open spec fn rust_declarable(self) -> bool
        decreases self,
    {
        match self {
            ValModel::Struct(_, fields) => forall|i: int|
                0 <= i < fields.len() ==> (#[trigger] fields[i]).rust_declarable(),
            ValModel::Array(items) => items.len() > 0 && items[0].rust_declarable(),
            ValModel::Ref(inner) => inner.rust_declarable(),
            _ => true,
        }
    }

    /// The structs that the value reaches, each with its definition: those of a
    /// struct's fields before the struct itself; of an array those of its first
    /// item.
    pub open spec fn rust_decls(self) -> Seq<Decl>
        decreases self, 0nat,
    {
        match self {
            ValModel::Struct(name, fields) => Self::rust_field_decls(fields, fields.len()).push(
                (name, Self::rust_struct_decl(name, fields)),
            ),
            ValModel::Array(items) => if items.len() > 0 {
                items[0].rust_decls()
            } else {
                Seq::empty()
            },
            ValModel::Ref(inner) => inner.rust_decls(),
            _ => Seq::empty(),
        }
    }

    /// The structs that the first `n` fields reach.
    pub open spec fn rust_field_decls(fields: Seq<ValModel>, n: nat) -> Seq<Decl>
        decreases fields, n,
    {
        if n == 0 || n > fields.len() {
            Seq::empty()
        } else {
            Self::rust_field_decls(fields, (n - 1) as nat) + fields[n - 1].rust_decls()
        }
    }

    /// The definition of the struct `name` with the given fields.
    pub open spec fn rust_struct_decl(name: Seq<char>, fields: Seq<ValModel>) -> Seq<char> {
        "\n#[repr(C)]\n"@ + "pub struct "@ + name + " {\n"@ + Self::rust_struct_lines(
            fields,
            fields.len(),
        ) + "}"@
    }

    /// The lines of a struct's definition for its first `n` fields.
    pub open spec fn rust_struct_lines(fields: Seq<ValModel>, n: nat) -> Seq<char>
        decreases n,
    {
        if n == 0 || n > fields.len() {
            Seq::empty()
        } else {
            Self::rust_struct_lines(fields, (n - 1) as nat) + "    "@ + field_name((n - 1) as nat)
                + ": "@ + fields[n - 1].rust_type() + ",\n"@
        }
    }
}

/// A value whose structs can all be declared has a type.
pub proof fn lemma_declarable_is_typed(v: ValModel)
    requires
        v.rust_declarable(),
    ensures
        v.rust_typed(),
    decreases v,
{
    match v {
        ValModel::Ref(inner) => lemma_declarable_is_typed(*inner),
        ValModel::Array(items) => lemma_declarable_is_typed(items[0]),
        _ => {},
    }
}

} // verus!
