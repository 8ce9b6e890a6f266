//! The logic of the `FieldName` and `FieldType` derives: which fields of a
//! struct become enum variants, how they are named, which derives the
//! generated enum gets, and how the items to generate are laid out.
//!
//! The derive input is read into the plain model of `model`; the result is a
//! plan of the items to emit, which a thin token layer renders.

pub mod text;
pub mod case;
pub mod model;
pub mod error;
pub mod common;
pub mod derive_list;
pub mod slots;
pub mod field_name;
pub mod field_type;
pub mod reverse;
pub mod laws;
