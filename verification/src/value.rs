//! The language-agnostic value model: what a test passes to a function and gets
//! back from it.

use vstd::prelude::*;

verus! {

/// An integer scalar, by width and signedness, with the value it carries.
#[allow(non_camel_case_types)]
#[derive(Clone, Copy, Debug, PartialEq, Eq)]
pub enum IntVal {
    c__int128(i128),
    c_int64_t(i64),
    c_int32_t(i32),
    c_int16_t(i16),
    c_int8_t(i8),
    c__uint128(u128),
    c_uint64_t(u64),
    c_uint32_t(u32),
    c_uint16_t(u16),
    c_uint8_t(u8),
}

impl IntVal {
    /// The number that the scalar carries.
    pub open spec fn value(self) -> int {
        match self {
            IntVal::c__int128(v) => v as int,
            IntVal::c_int64_t(v) => v as int,
            IntVal::c_int32_t(v) => v as int,
            IntVal::c_int16_t(v) => v as int,
            IntVal::c_int8_t(v) => v as int,
            IntVal::c__uint128(v) => v as int,
            IntVal::c_uint64_t(v) => v as int,
            IntVal::c_uint32_t(v) => v as int,
            IntVal::c_uint16_t(v) => v as int,
            IntVal::c_uint8_t(v) => v as int,
        }
    }

    /// The zero of the same width and signedness.
    pub open spec fn zeroed(self) -> IntVal {
        match self {
            IntVal::c__int128(_) => IntVal::c__int128(0),
            IntVal::c_int64_t(_) => IntVal::c_int64_t(0),
            IntVal::c_int32_t(_) => IntVal::c_int32_t(0),
            IntVal::c_int16_t(_) => IntVal::c_int16_t(0),
            IntVal::c_int8_t(_) => IntVal::c_int8_t(0),
            IntVal::c__uint128(_) => IntVal::c__uint128(0),
            IntVal::c_uint64_t(_) => IntVal::c_uint64_t(0),
            IntVal::c_uint32_t(_) => IntVal::c_uint32_t(0),
            IntVal::c_uint16_t(_) => IntVal::c_uint16_t(0),
            IntVal::c_uint8_t(_) => IntVal::c_uint8_t(0),
        }
    }

    /// Same width and signedness, whatever the values.
    pub open spec fn same_shape(self, other: IntVal) -> bool {
        self.zeroed() == other.zeroed()
    }
}

/// A floating-point scalar, by precision. It carries its value as text, the
/// way the number is printed. The text is taken as it comes: nothing is asked
/// of its form, and what is not a number, such as `inf` or `NaN`, is carried
/// like any other text.
#[derive(Clone, Debug, PartialEq, Eq)]
pub enum FloatVal {
    Double(String),
    Single(String),
}

/// What a [`FloatVal`] stands for.
pub enum FloatModel {
    Double(Seq<char>),
    Single(Seq<char>),
}

impl View for FloatVal {
    type V = FloatModel;

    open spec fn view(&self) -> FloatModel {
        match self {
            FloatVal::Double(text) => FloatModel::Double(text@),
            FloatVal::Single(text) => FloatModel::Single(text@),
        }
    }
}

impl FloatModel {
    /// The decimal text of the value.
    pub open spec fn text(self) -> Seq<char> {
        match self {
            FloatModel::Double(text) => text,
            FloatModel::Single(text) => text,
        }
    }

    /// The zero of the same precision.
    pub open spec fn zeroed(self) -> FloatModel {
        match self {
            FloatModel::Double(_) => FloatModel::Double(seq!['0']),
            FloatModel::Single(_) => FloatModel::Single(seq!['0']),
        }
    }

    /// Same precision, whatever the values.
    pub open spec fn same_shape(self, other: FloatModel) -> bool {
        (self is Double) == (other is Double)
    }
}

/// One step on the way from a value to one of its leaves: into a field of a
/// struct, into an item of an array, or through a reference.
pub enum Step {
    Field(nat),
    Item(nat),
    Deref,
}

/// A value under test.
///
/// All elements of an `Array` are taken to have the shape of the first one. A
/// `Struct` is nominal: its name stands for its field types wherever it occurs.
/// A `Ref` says that the value is passed or returned by reference.
#[derive(Debug, PartialEq, Eq)]
pub enum Val {
    Ref(Box<Val>),
    Array(Vec<Val>),
    Struct(String, Vec<Val>),
    Ptr(u64),
    Bool(bool),
    Int(IntVal),
    Float(FloatVal),
}

/// What a [`Val`] stands for: the same tree over sequences.
pub enum ValModel {
    Ref(Box<ValModel>),
    Array(Seq<ValModel>),
    Struct(Seq<char>, Seq<ValModel>),
    Ptr(u64),
    Bool(bool),
    Int(IntVal),
    Float(FloatModel),
}

impl Val {
    /// The model of the value, built recursively.
    pub open spec fn model(self) -> ValModel
        decreases self,
    {
        match self {
            Val::Ref(inner) => ValModel::Ref(Box::new(inner.model())),
            Val::Array(items) => ValModel::Array(
                Seq::new(
                    items.len() as nat,
                    |i: int|
                        if 0 <= i < items.len() {
                            items[i].model()
                        } else {
                            arbitrary()
                        },
                ),
            ),
            Val::Struct(name, fields) => ValModel::Struct(
                name@,
                Seq::new(
                    fields.len() as nat,
                    |i: int|
                        if 0 <= i < fields.len() {
                            fields[i].model()
                        } else {
                            arbitrary()
                        },
                ),
            ),
            Val::Ptr(addr) => ValModel::Ptr(addr),
            Val::Bool(b) => ValModel::Bool(b),
            Val::Int(int_val) => ValModel::Int(int_val),
            Val::Float(float_val) => ValModel::Float(float_val@),
        }
    }
}

impl View for Val {
    type V = ValModel;

    open spec fn view(&self) -> ValModel {
        self.model()
    }
}

impl ValModel {
    /// Whether the value is a scalar: a leaf of the tree.
    pub open spec fn is_scalar(self) -> bool {
        self is Ptr || self is Bool || self is Int || self is Float
    }

    /// Whether two values have the same type: the same tree, whatever the scalars
    /// carry.
    pub open spec fn same_shape(self, other: ValModel) -> bool
        decreases self,
    {
        match self {
            ValModel::Ref(inner) => other is Ref && inner.same_shape(*other->Ref_0),
            ValModel::Array(items) => {
                &&& other is Array
                &&& items.len() == other->Array_0.len()
                &&& forall|i: int|
                    0 <= i < items.len() ==> (#[trigger] items[i]).same_shape(other->Array_0[i])
            },
            ValModel::Struct(name, fields) => {
                &&& other is Struct
                &&& name == other->Struct_0
                &&& fields.len() == other->Struct_1.len()
                &&& forall|i: int|
                    0 <= i < fields.len() ==> (#[trigger] fields[i]).same_shape(
                        other->Struct_1[i],
                    )
            },
            ValModel::Ptr(_) => other is Ptr,
            ValModel::Bool(_) => other is Bool,
            ValModel::Int(int_val) => other is Int && int_val.same_shape(other->Int_0),
            ValModel::Float(float_val) => other is Float && float_val.same_shape(other->Float_0),
        }
    }

    /// The value of the same shape in which every scalar is zero.
    pub open spec fn zeroed(self) -> ValModel
        decreases self,
    {
        match self {
            ValModel::Ref(inner) => ValModel::Ref(Box::new(inner.zeroed())),
            ValModel::Array(items) => ValModel::Array(
                Seq::new(
                    items.len(),
                    |i: int|
                        if 0 <= i < items.len() {
                            items[i].zeroed()
                        } else {
                            arbitrary()
                        },
                ),
            ),
            ValModel::Struct(name, fields) => ValModel::Struct(
                name,
                Seq::new(
                    fields.len(),
                    |i: int|
                        if 0 <= i < fields.len() {
                            fields[i].zeroed()
                        } else {
                            arbitrary()
                        },
                ),
            ),
            ValModel::Ptr(_) => ValModel::Ptr(0),
            ValModel::Bool(_) => ValModel::Bool(false),
            ValModel::Int(int_val) => ValModel::Int(int_val.zeroed()),
            ValModel::Float(float_val) => ValModel::Float(float_val.zeroed()),
        }
    }

    /// The scalar leaves of the value, depth first: fields in declaration
    /// order, array items by index, and what a reference points to in its
    /// place.
    pub open spec fn leaves(self) -> Seq<ValModel>
        decreases self, 0nat,
    {
        match self {
            ValModel::Ref(inner) => inner.leaves(),
            ValModel::Array(items) => Self::leaves_upto(items, items.len()),
            ValModel::Struct(_, fields) => Self::leaves_upto(fields, fields.len()),
            _ => seq![self],
        }
    }

    /// The route from the value to its leaf `i`, counted as in `leaves`.
    pub open spec fn route(self, i: int) -> Seq<Step>
        decreases self, 0nat,
    {
        match self {
            ValModel::Ref(inner) => seq![Step::Deref] + inner.route(i),
            ValModel::Array(items) => Self::route_in(items, items.len(), i, false),
            ValModel::Struct(_, fields) => Self::route_in(fields, fields.len(), i, true),
            _ => Seq::empty(),
        }
    }

    /// The route to leaf `i` of the first `n` of `parts`, which are the fields
    /// of a struct where `named` holds and the items of an array where not:
    /// into the part that holds the leaf, then on to the leaf.
    pub open spec fn route_in(parts: Seq<ValModel>, n: nat, i: int, named: bool) -> Seq<Step>
        decreases parts, n,
    {
        if n == 0 || n > parts.len() {
            Seq::empty()
        } else {
            let before = Self::leaves_upto(parts, (n - 1) as nat).len();
            if i < before {
                Self::route_in(parts, (n - 1) as nat, i, named)
            } else {
                seq![
                    if named {
                        Step::Field((n - 1) as nat)
                    } else {
                        Step::Item((n - 1) as nat)
                    },
                ] + parts[n - 1].route(i - before)
            }
        }
    }

    /// What a route leads to from the value. A step that does not fit the
    /// value ends the walk.
    pub open spec fn follow(self, route: Seq<Step>) -> ValModel
        decreases route.len(),
    {
        if route.len() == 0 {
            self
        } else {
            match (route[0], self) {
                (Step::Deref, ValModel::Ref(inner)) => inner.follow(route.drop_first()),
                (Step::Field(idx), ValModel::Struct(_, fields)) => if idx < fields.len() {
                    fields[idx as int].follow(route.drop_first())
                } else {
                    self
                },
                (Step::Item(idx), ValModel::Array(items)) => if idx < items.len() {
                    items[idx as int].follow(route.drop_first())
                } else {
                    self
                },
                _ => self,
            }
        }
    }

    /// The scalar leaves of the first `n` of `parts`.
    pub open spec fn leaves_upto(parts: Seq<ValModel>, n: nat) -> Seq<ValModel>
        decreases parts, n,
    {
        if n == 0 || n > parts.len() {
            Seq::empty()
        } else {
            Self::leaves_upto(parts, (n - 1) as nat) + parts[n - 1].leaves()
        }
    }
}

/// Setting every scalar to zero keeps the shape of a value.
pub proof fn lemma_zeroed_same_shape(v: ValModel)
    ensures
        v.same_shape(v.zeroed()),
    decreases v,
{
    match v {
        ValModel::Ref(inner) => lemma_zeroed_same_shape(*inner),
        ValModel::Array(items) => {
            assert forall|i: int| 0 <= i < items.len() implies (#[trigger] items[i]).same_shape(
                v.zeroed()->Array_0[i],
            ) by {
                lemma_zeroed_same_shape(items[i]);
            }
        },
        ValModel::Struct(_, fields) => {
            assert forall|i: int| 0 <= i < fields.len() implies (#[trigger] fields[i]).same_shape(
                v.zeroed()->Struct_1[i],
            ) by {
                lemma_zeroed_same_shape(fields[i]);
            }
        },
        _ => {},
    }
}

/// Two values of the same shape have the same leaves but for what the leaves
/// carry: as many, and each of the type of the one in its place.
pub proof fn lemma_same_shape_leaves(a: ValModel, b: ValModel)
    requires
        a.same_shape(b),
    ensures
        a.leaves().len() == b.leaves().len(),
        forall|i: int|
            0 <= i < a.leaves().len() ==> (#[trigger] a.leaves()[i]).is_scalar()
                && a.leaves()[i].same_shape(b.leaves()[i]),
    decreases a, 0nat,
{
    match a {
        ValModel::Ref(inner) => lemma_same_shape_leaves(*inner, *b->Ref_0),
        ValModel::Array(items) => lemma_same_shape_leaves_upto(
            items,
            b->Array_0,
            items.len(),
        ),
        ValModel::Struct(_, fields) => lemma_same_shape_leaves_upto(
            fields,
            b->Struct_1,
            fields.len(),
        ),
        _ => {},
    }
}

/// The same for the first `n` parts of two composites.
pub proof fn lemma_same_shape_leaves_upto(xs: Seq<ValModel>, ys: Seq<ValModel>, n: nat)
    requires
        n <= xs.len(),
        xs.len() == ys.len(),
        forall|i: int| 0 <= i < xs.len() ==> (#[trigger] xs[i]).same_shape(ys[i]),
    ensures
        ValModel::leaves_upto(xs, n).len() == ValModel::leaves_upto(ys, n).len(),
        forall|i: int|
            0 <= i < ValModel::leaves_upto(xs, n).len() ==> (#[trigger] ValModel::leaves_upto(
                xs,
                n,
            )[i]).is_scalar() && ValModel::leaves_upto(xs, n)[i].same_shape(
                ValModel::leaves_upto(ys, n)[i],
            ),
    decreases xs, n,
{
    if n > 0 {
        lemma_same_shape_leaves_upto(xs, ys, (n - 1) as nat);
        assert(xs[n - 1].same_shape(ys[n - 1]));
        lemma_same_shape_leaves(xs[n - 1], ys[n - 1]);
    }
}

/// The route to a leaf leads to that leaf.
pub proof fn lemma_route_leads_to_leaf(v: ValModel, i: int)
    requires
        0 <= i < v.leaves().len(),
    ensures
        v.follow(v.route(i)) == v.leaves()[i],
    decreases v, 0nat,
{
    match v {
        ValModel::Ref(inner) => {
            lemma_route_leads_to_leaf(*inner, i);
            assert(v.route(i).drop_first() =~= inner.route(i));
        },
        ValModel::Array(items) => lemma_route_in_leads_to_leaf(v, items, items.len(), i, false),
        ValModel::Struct(_, fields) => lemma_route_in_leads_to_leaf(
            v,
            fields,
            fields.len(),
            i,
            true,
        ),
        _ => {},
    }
}

/// The same for a leaf among the first `n` parts of the composite `whole`.
pub proof fn lemma_route_in_leads_to_leaf(
    whole: ValModel,
    parts: Seq<ValModel>,
    n: nat,
    i: int,
    named: bool,
)
    requires
        n <= parts.len(),
        0 <= i < ValModel::leaves_upto(parts, n).len(),
        if named {
            whole is Struct && whole->Struct_1 == parts
        } else {
            whole is Array && whole->Array_0 == parts
        },
    ensures
        whole.follow(ValModel::route_in(parts, n, i, named)) == ValModel::leaves_upto(parts, n)[i],
    decreases parts, n,
{
    let before = ValModel::leaves_upto(parts, (n - 1) as nat).len();
    if i < before {
        lemma_route_in_leads_to_leaf(whole, parts, (n - 1) as nat, i, named);
    } else {
        lemma_route_leads_to_leaf(parts[n - 1], i - before);
        let route = ValModel::route_in(parts, n, i, named);
        assert(route.drop_first() =~= parts[n - 1].route(i - before));
        assert(route.len() > 0);
    }
}

} // verus!
