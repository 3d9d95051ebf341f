//! What can go wrong between a test and a linkable artifact.

use vstd::prelude::*;

verus! {

/// A value whose shape cannot be lowered.
#[derive(Clone, Copy, Debug, PartialEq, Eq)]
pub enum GenerateError {
    /// An array without elements stands where its element type is needed.
    EmptyArray,
}

/// Why one side of a test could not be built.
#[derive(Clone, Debug, PartialEq, Eq)]
pub enum BuildError {
    /// A value of the function `func` cannot be lowered.
    Generate { func: String, error: GenerateError },
    /// Two values claim the struct `name` with different definitions.
    InconsistentStructDefinition { name: String, old_decl: String, new_decl: String },
    /// The compiler ended with a failure; this is what it printed.
    RustCompile { stdout: Vec<u8>, stderr: Vec<u8> },
}

/// What a [`BuildError`] stands for.
pub enum BuildErrorModel {
    Generate { func: Seq<char>, error: GenerateError },
    InconsistentStructDefinition { name: Seq<char>, old_decl: Seq<char>, new_decl: Seq<char> },
    RustCompile { stdout: Seq<u8>, stderr: Seq<u8> },
}

impl View for BuildError {
    type V = BuildErrorModel;

    open spec fn view(&self) -> BuildErrorModel {
        match self {
            BuildError::Generate { func, error } => BuildErrorModel::Generate {
                func: func@,
                error: *error,
            },
            BuildError::InconsistentStructDefinition {
                name,
                old_decl,
                new_decl,
            } => BuildErrorModel::InconsistentStructDefinition {
                name: name@,
                old_decl: old_decl@,
                new_decl: new_decl@,
            },
            BuildError::RustCompile { stdout, stderr } => BuildErrorModel::RustCompile {
                stdout: stdout@,
                stderr: stderr@,
            },
        }
    }
}

} // verus!
