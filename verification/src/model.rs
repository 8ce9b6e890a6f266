//! The derive input as the derive logic reads it: the struct's name, its
//! attributes, its fields with their attributes, and the shape of each field's
//! type. Everything here is a plain value; the token layer fills it in.

use vstd::prelude::*;

verus! {

/// One token of an attribute's argument list.
pub enum Token {
    /// An identifier (keywords such as `true` included).
    Ident(String),
    /// A punctuation character.
    Punct(char),
    /// A literal or a delimited group, with its text.
    Other(String),
}

/// How an attribute is written.
pub enum Meta {
    /// `#[name]`
    Path,
    /// `#[name(..)]`: the tokens between the parentheses, their text as the
    /// token printer writes it, and the tokens read as a path: the
    /// identifiers of its segments, or the path parser's message where they
    /// are not one.
    List { tokens: Vec<Token>, text: String, path: Result<Vec<String>, String> },
    /// `#[name = value]`: the text of the value.
    NameValue { value: String },
}

/// An attribute of the struct or of a field.
pub struct Attribute {
    /// The attribute's path, where it is a single identifier.
    pub name: Option<String>,
    pub meta: Meta,
}

/// The shape of a field's type, as far as the derives read it.
pub enum TypeShape {
    /// A type path such as `a::b::Inner<T>`: the identifiers of its segments.
    Path { segments: Vec<String> },
    /// Any other type (a reference, a tuple, an array, ...).
    Other,
}

/// A field of the struct.
pub struct Field {
    /// The field's name; `None` for a field of a tuple struct.
    pub ident: Option<String>,
    pub ty: TypeShape,
    pub attrs: Vec<Attribute>,
}

/// What the derive is applied to.
pub enum Data {
    Struct(Vec<Field>),
    Enum,
    Union,
}

/// The item a derive is applied to.
pub struct DeriveInput {
    pub ident: String,
    /// Whether the item declares generic parameters.
    pub has_generics: bool,
    pub attrs: Vec<Attribute>,
    pub data: Data,
}

} // verus!
