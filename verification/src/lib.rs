//! An ABI conformance test generator.
//!
//! From a description of functions, of the values they take and return, and of
//! calling conventions, a backend writes the source of a caller and of a
//! callee. Both record the raw bytes of every scalar that they pass or
//! receive, and the records of the two sides are compared leaf by leaf.

pub mod abis;
pub mod compare;
pub mod error;
pub mod schema;
pub mod text;
pub mod value;
