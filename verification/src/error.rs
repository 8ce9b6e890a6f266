//! The errors the derives report, where they point, and their text.

use vstd::prelude::*;

use crate::common::DeriveVariant;
use crate::text::concat3;

verus! {

/// Why a derive was refused.
#[derive(Debug)]
pub enum DeriveError {
    /// The derive was applied to an enum or a union.
    NotAStruct(DeriveVariant),
    /// No field is left once skipped and unnamed fields are left out.
    NoFields(DeriveVariant),
    /// A struct attribute (at this position) that must carry a parenthesised
    /// list does not.
    ExpectedList { attr: usize, name: &'static str },
    /// A field attribute of the derive is a bare path.
    UnknownAttrFormat,
    /// A field is marked `nested` but nesting is not enabled for the derive.
    NestedUnsupported { field: usize, derive: DeriveVariant },
    /// A `nested` field's type is a path with no segment.
    EmptyTypePath { field: usize },
    /// A `nested` field's type is not a type path.
    NestedNotPath { field: usize },
    /// `no_defaults =` is followed by a token that is not `true` or `false`.
    NoDefaultsValue { attr: usize, pos: usize },
    /// `no_defaults =` ends the list.
    NoDefaultsEnd,
    /// `::` in a derive path is followed by a token that is not an identifier.
    SegmentExpected { attr: usize, pos: usize },
    /// `::` ends a derive list.
    SegmentEnd,
    /// A literal or a group stands in a derive list.
    UnexpectedToken { attr: usize, pos: usize },
    /// A field-checking derive was applied to an enum or a union.
    VerifyNotAStruct(DeriveVariant),
    /// The attribute naming the enum to check is not a parenthesised list.
    EnumAttrNotList { attr: usize, name: &'static str },
    /// No attribute names the enum to check.
    MissingEnumAttr { name: &'static str },
    /// The attribute naming the enum to check does not hold a path; the
    /// message is the path parser's.
    EnumPath { attr: usize, message: String },
}

/// The part of the input that an error points at.
#[derive(Debug, Clone, Copy, PartialEq, Eq)]
pub enum ErrorSpan {
    /// The struct's name.
    Ident,
    /// The struct attribute at this position.
    Attr(usize),
    /// The field at this position.
    Field(usize),
    /// The type of the field at this position.
    FieldType(usize),
    /// The token at `pos` in the list of the struct attribute at `attr`.
    Token { attr: usize, pos: usize },
    /// The attribute whose value was asked for.
    ReadAttr,
    /// The derive invocation as a whole.
    CallSite,
}

pub open spec fn derive_word(d: DeriveVariant) -> Seq<char> {
    match d {
        DeriveVariant::Type => "FieldType"@,
        DeriveVariant::Name => "FieldName"@,
    }
}

/// The text of an error.
pub open spec fn message_text(e: DeriveError) -> Seq<char> {
    match e {
        DeriveError::NotAStruct(d) => derive_word(d) + " can only be derived for structs"@,
        DeriveError::NoFields(d) => match d {
            DeriveVariant::Name => "FieldName can only be derived for non-empty structures"@,
            DeriveVariant::Type => "FieldType can only be derived for non-empty structs"@,
        },
        DeriveError::ExpectedList { attr, name } =>
            "expected at least 1 argument in parentheses: #["@ + name@ + "(...)]"@,
        DeriveError::UnknownAttrFormat => "Unknown attribute format"@,
        DeriveError::NestedUnsupported { field, derive } => match derive {
            DeriveVariant::Type =>
                "nested fields are not supported without the 'nested-type' feature"@,
            DeriveVariant::Name =>
                "nested fields are not supported without the 'nested-name' feature"@,
        },
        DeriveError::EmptyTypePath { field } => "Type path must have at least one segment"@,
        DeriveError::NestedNotPath { field } =>
            "nested attribute can only be used with named struct types"@,
        DeriveError::NoDefaultsValue { attr, pos } =>
            "expected `true` or `false` for `no_defaults` flag"@,
        DeriveError::NoDefaultsEnd =>
            "unexpected end of input: expected `true` or `false` after `no_defaults =`"@,
        DeriveError::SegmentExpected { attr, pos } => "expected identifier after `::`"@,
        DeriveError::SegmentEnd => "unexpected end of input: expected identifier after `::`"@,
        DeriveError::UnexpectedToken { attr, pos } => "unexpected token in derive attribute"@,
        DeriveError::VerifyNotAStruct(d) => "Verify"@ + derive_word(d)
            + " can only be derived for structs"@,
        DeriveError::EnumAttrNotList { attr, name } => "expected #["@ + name@ + "(EnumName)]"@,
        DeriveError::MissingEnumAttr { name } =>
            "missing required attribute: #["@ + name@ + "(EnumName)]"@,
        DeriveError::EnumPath { attr, message } => message@,
    }
}

/// Where an error points.
pub open spec fn span_of(e: DeriveError) -> ErrorSpan {
    match e {
        DeriveError::NotAStruct(_) => ErrorSpan::Ident,
        DeriveError::NoFields(_) => ErrorSpan::Ident,
        DeriveError::ExpectedList { attr, name } => ErrorSpan::Attr(attr),
        DeriveError::UnknownAttrFormat => ErrorSpan::ReadAttr,
        DeriveError::NestedUnsupported { field, derive } => ErrorSpan::Field(field),
        DeriveError::EmptyTypePath { field } => ErrorSpan::FieldType(field),
        DeriveError::NestedNotPath { field } => ErrorSpan::FieldType(field),
        DeriveError::NoDefaultsValue { attr, pos } => ErrorSpan::Token { attr, pos },
        DeriveError::NoDefaultsEnd => ErrorSpan::CallSite,
        DeriveError::SegmentExpected { attr, pos } => ErrorSpan::Token { attr, pos },
        DeriveError::SegmentEnd => ErrorSpan::CallSite,
        DeriveError::UnexpectedToken { attr, pos } => ErrorSpan::Token { attr, pos },
        DeriveError::VerifyNotAStruct(_) => ErrorSpan::Ident,
        DeriveError::EnumAttrNotList { attr, name } => ErrorSpan::Attr(attr),
        DeriveError::MissingEnumAttr { name } => ErrorSpan::CallSite,
        DeriveError::EnumPath { attr, message } => ErrorSpan::Attr(attr),
    }
}

fn derive_word_str(d: DeriveVariant) -> (r: &'static str)
    ensures
        r@ == derive_word(d),
{
    match d {
        DeriveVariant::Type => "FieldType",
        DeriveVariant::Name => "FieldName",
    }
}

impl DeriveError {
    /// The error's text.
    pub fn message(&self) -> (r: String)
        ensures
            r@ == message_text(*self),
    {
        match self {
            DeriveError::NotAStruct(d) => {
                let mut s = String::from_str(derive_word_str(*d));
                s.append(" can only be derived for structs");
                s
            },
            DeriveError::NoFields(d) => match d {
                DeriveVariant::Name => String::from_str(
                    "FieldName can only be derived for non-empty structures",
                ),
                DeriveVariant::Type => String::from_str(
                    "FieldType can only be derived for non-empty structs",
                ),
            },
            DeriveError::ExpectedList { attr, name } => concat3(
                "expected at least 1 argument in parentheses: #[",
                name,
                "(...)]",
            ),
            DeriveError::UnknownAttrFormat => String::from_str("Unknown attribute format"),
            DeriveError::NestedUnsupported { field, derive } => match derive {
                DeriveVariant::Type => String::from_str(
                    "nested fields are not supported without the 'nested-type' feature",
                ),
                DeriveVariant::Name => String::from_str(
                    "nested fields are not supported without the 'nested-name' feature",
                ),
            },
            DeriveError::EmptyTypePath { field } => String::from_str(
                "Type path must have at least one segment",
            ),
            DeriveError::NestedNotPath { field } => String::from_str(
                "nested attribute can only be used with named struct types",
            ),
            DeriveError::NoDefaultsValue { attr, pos } => String::from_str(
                "expected `true` or `false` for `no_defaults` flag",
            ),
            DeriveError::NoDefaultsEnd => String::from_str(
                "unexpected end of input: expected `true` or `false` after `no_defaults =`",
            ),
            DeriveError::SegmentExpected { attr, pos } => String::from_str(
                "expected identifier after `::`",
            ),
            DeriveError::SegmentEnd => String::from_str(
                "unexpected end of input: expected identifier after `::`",
            ),
            DeriveError::UnexpectedToken { attr, pos } => String::from_str(
                "unexpected token in derive attribute",
            ),
            DeriveError::VerifyNotAStruct(d) => concat3(
                "Verify",
                derive_word_str(*d),
                " can only be derived for structs",
            ),
            DeriveError::EnumAttrNotList { attr, name } => concat3(
                "expected #[",
                name,
                "(EnumName)]",
            ),
            DeriveError::MissingEnumAttr { name } => concat3(
                "missing required attribute: #[",
                name,
                "(EnumName)]",
            ),
            DeriveError::EnumPath { attr, message } => message.clone(),
        }
    }

    /// The part of the input the error points at.
    pub fn span(&self) -> (r: ErrorSpan)
        ensures
            r == span_of(*self),
    {
        match self {
            DeriveError::NotAStruct(_) => ErrorSpan::Ident,
            DeriveError::NoFields(_) => ErrorSpan::Ident,
            DeriveError::ExpectedList { attr, name } => ErrorSpan::Attr(*attr),
            DeriveError::UnknownAttrFormat => ErrorSpan::ReadAttr,
            DeriveError::NestedUnsupported { field, derive } => ErrorSpan::Field(*field),
            DeriveError::EmptyTypePath { field } => ErrorSpan::FieldType(*field),
            DeriveError::NestedNotPath { field } => ErrorSpan::FieldType(*field),
            DeriveError::NoDefaultsValue { attr, pos } => ErrorSpan::Token { attr: *attr, pos: *pos },
            DeriveError::NoDefaultsEnd => ErrorSpan::CallSite,
            DeriveError::SegmentExpected { attr, pos } => ErrorSpan::Token { attr: *attr, pos: *pos },
            DeriveError::SegmentEnd => ErrorSpan::CallSite,
            DeriveError::UnexpectedToken { attr, pos } => ErrorSpan::Token { attr: *attr, pos: *pos },
            DeriveError::VerifyNotAStruct(_) => ErrorSpan::Ident,
            DeriveError::EnumAttrNotList { attr, name } => ErrorSpan::Attr(*attr),
            DeriveError::MissingEnumAttr { name } => ErrorSpan::CallSite,
            DeriveError::EnumPath { attr, message } => ErrorSpan::Attr(*attr),
        }
    }
}

} // verus!
