//! Backends: one per target language.

pub mod rust;
pub mod rust_laws;
pub mod rust_text;
pub mod rust_unit;
pub mod rust_val;
