//! Functions and tests: values composed into typed signatures, each with the
//! calling conventions it takes part in.

use vstd::prelude::*;
use crate::text::texts;
use crate::value::Val;
use crate::value::ValModel;

verus! {

/// A calling convention. `All` and `Handwritten` are pseudo-conventions: the
/// first stands for every concrete one, the second marks a function whose code
/// is supplied by hand. Neither is ever handed to a backend.
#[derive(Clone, Copy, Debug, PartialEq, Eq, Structural)]
pub enum CallingConvention {
    All,
    Handwritten,
    C,
    System,
    Win64,
    Sysv64,
    Aapcs,
    Stdcall,
    Fastcall,
    Vectorcall,
}

impl CallingConvention {
    /// Whether this is a real convention, one that code can be generated for.
    pub open spec fn is_concrete(self) -> bool {
        self != CallingConvention::All && self != CallingConvention::Handwritten
    }

    /// Whether an entry `self` of a function's convention set admits the
    /// convention `wanted`: by being it, or by being `All` while `wanted` is not
    /// `Handwritten`.
    pub open spec fn admits(self, wanted: CallingConvention) -> bool {
        self == wanted || (self == CallingConvention::All && wanted
            != CallingConvention::Handwritten)
    }

    /// Whether this is a real convention.
    pub fn concrete(&self) -> (r: bool)
        ensures
            r == self.is_concrete(),
    {
        !matches!(self, CallingConvention::All | CallingConvention::Handwritten)
    }
}

/// A function under test.
#[derive(Debug, PartialEq, Eq)]
pub struct Func {
    pub name: String,
    pub conventions: Vec<CallingConvention>,
    pub inputs: Vec<Val>,
    pub output: Option<Val>,
}

/// What a [`Func`] stands for.
pub struct FuncModel {
    pub name: Seq<char>,
    pub conventions: Seq<CallingConvention>,
    pub inputs: Seq<ValModel>,
    pub output: Option<ValModel>,
}

impl View for Func {
    type V = FuncModel;

    open spec fn view(&self) -> FuncModel {
        FuncModel {
            name: self.name@,
            conventions: self.conventions@,
            inputs: Seq::new(self.inputs.len() as nat, |i: int| self.inputs[i]@),
            output: match self.output {
                Some(v) => Some(v@),
                None => None,
            },
        }
    }
}

impl FuncModel {
    /// Whether the function takes part in `convention`. This goes by the
    /// function's own set, entry by entry: two conventions that mean the same
    /// ABI on some platform are still two conventions.
    pub open spec fn has_convention(self, convention: CallingConvention) -> bool {
        exists|i: int|
            0 <= i < self.conventions.len() && (#[trigger] self.conventions[i]).admits(convention)
    }

    /// The values of the function in the order in which they are declared: the
    /// inputs, then the output if there is one.
    pub open spec fn values(self) -> Seq<ValModel> {
        match self.output {
            Some(v) => self.inputs.push(v),
            None => self.inputs,
        }
    }
}

impl Func {
    /// Whether the function takes part in `convention`.
    pub fn has_convention(&self, convention: CallingConvention) -> (r: bool)
        ensures
            r == self@.has_convention(convention),
    {
        let mut i: usize = 0;
        while i < self.conventions.len()
            invariant
                i <= self.conventions.len(),
                forall|j: int| 0 <= j < i ==> !(#[trigger] self.conventions@[j]).admits(convention),
            decreases self.conventions.len() - i,
        {
            let entry = self.conventions[i];
            if entry == convention || (entry == CallingConvention::All && convention
                != CallingConvention::Handwritten) {
                assert(self@.conventions[i as int].admits(convention));
                return true;
            }
            i += 1;
        }
        false
    }
}

/// A test: functions in the order in which they are called.
#[derive(Debug, PartialEq, Eq)]
pub struct Test {
    pub name: String,
    pub funcs: Vec<Func>,
}

/// What a [`Test`] stands for.
pub struct TestModel {
    pub name: Seq<char>,
    pub funcs: Seq<FuncModel>,
}

/// The values of the first `n` functions, in order.
pub open spec fn values_upto(funcs: Seq<FuncModel>, n: nat) -> Seq<ValModel>
    decreases n,
{
    if n == 0 || n > funcs.len() {
        Seq::empty()
    } else {
        values_upto(funcs, (n - 1) as nat) + funcs[n - 1].values()
    }
}

/// For each value of the first `n` functions, the name of the function that it
/// belongs to.
pub open spec fn owners_upto(funcs: Seq<FuncModel>, n: nat) -> Seq<Seq<char>>
    decreases n,
{
    if n == 0 || n > funcs.len() {
        Seq::empty()
    } else {
        owners_upto(funcs, (n - 1) as nat) + Seq::new(
            funcs[n - 1].values().len(),
            |i: int| funcs[n - 1].name,
        )
    }
}

impl TestModel {
    /// Every value of the test: function by function, inputs before the output.
    pub open spec fn values(self) -> Seq<ValModel> {
        values_upto(self.funcs, self.funcs.len())
    }

    /// For each of `values`, the name of the function that it belongs to.
    pub open spec fn owners(self) -> Seq<Seq<char>> {
        owners_upto(self.funcs, self.funcs.len())
    }
}

/// The names of those of the first `n` functions that take part in
/// `convention`, in order.
pub open spec fn called_upto(funcs: Seq<FuncModel>, n: nat, convention: CallingConvention) -> Seq<
    Seq<char>,
>
    decreases n,
{
    if n == 0 || n > funcs.len() {
        Seq::empty()
    } else if funcs[n - 1].has_convention(convention) {
        called_upto(funcs, (n - 1) as nat, convention).push(funcs[n - 1].name)
    } else {
        called_upto(funcs, (n - 1) as nat, convention)
    }
}

impl View for Test {
    type V = TestModel;

    open spec fn view(&self) -> TestModel {
        TestModel { name: self.name@, funcs: Seq::new(self.funcs.len() as nat, |i: int| self.funcs[i]@) }
    }
}

impl Test {
    /// The names of the functions that a run under `convention` calls, in the
    /// order of the calls: those that take part in the convention.
    pub fn called_under(&self, convention: CallingConvention) -> (r: Vec<String>)
        ensures
            texts(r@) == called_upto(self@.funcs, self@.funcs.len(), convention),
    {
        let mut names: Vec<String> = Vec::new();
        let mut i: usize = 0;
        while i < self.funcs.len()
            invariant
                i <= self.funcs.len(),
                texts(names@) == called_upto(self@.funcs, i as nat, convention),
            decreases self.funcs.len() - i,
        {
            assert(self@.funcs[i as int] == self.funcs[i as int]@);
            if self.funcs[i].has_convention(convention) {
                let ghost before = names@;
                names.push(self.funcs[i].name.clone());
                assert(texts(names@) =~= texts(before).push(self.funcs[i as int].name@));
            }
            i += 1;
        }
        names
    }
}

/// Functions are picked by the conventions that they list, not by what a
/// convention means on some platform: a function whose set holds neither
/// `convention` nor `All` does not take part in `convention`, and one whose set
/// holds `convention` does.
pub proof fn convention_filter_goes_by_identity(func: FuncModel, convention: CallingConvention)
    ensures
        (forall|i: int|
            0 <= i < func.conventions.len() ==> #[trigger] func.conventions[i] != convention
                && func.conventions[i] != CallingConvention::All) ==> !func.has_convention(
            convention,
        ),
        func.conventions.contains(convention) ==> func.has_convention(convention),
{
    if func.conventions.contains(convention) {
        let i = choose|i: int| 0 <= i < func.conventions.len() && func.conventions[i] == convention;
        assert(func.conventions[i].admits(convention));
    }
}

} // verus!
