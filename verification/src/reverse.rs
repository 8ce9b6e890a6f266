//! The field-checking derives: given an enum written by hand and named in
//! `#[stem_reverse_name(Enum)]` (or `#[stem_reverse_type(Enum)]`), they
//! generate a test that the enum has exactly one variant per field of the
//! struct, in declaration order, named as `FieldName` (or `FieldType`) would
//! name it.

use vstd::prelude::*;

use crate::case::{snake_case, to_snake_case, upper_camel_case};
use crate::common::{filter_fields, name_is, selection, DerivePath, DeriveVariant, Features};
use crate::error::DeriveError;
use crate::field_name::{name_field_attrs, NamePair};
use crate::field_type::type_field_attrs;
use crate::model::{Attribute, Data, DeriveInput, Field, Meta};
use crate::slots::{duplicate_vec, Duplicate};
use crate::text::{concat3, decimal, push_decimal, two_names};

verus! {

/// The identifiers of a path's segments, as plain text.
pub open spec fn segments_view(segs: Seq<String>) -> Seq<Seq<char>> {
    segs.map_values(|s: String| s@)
}

/// The enum a field check names: the struct attribute whose list holds its
/// path, and the path's segments.
pub struct EnumPath {
    /// The position of the attribute; its list is the path the generated
    /// test writes.
    pub attr: usize,
    pub path: DerivePath,
}

/// The first of `names`, from the `j`-th on, that the attribute's path is.
pub open spec fn first_name_from(attr: Attribute, names: Seq<&'static str>, j: int) -> Option<int>
    decreases names.len() - j,
{
    if j < 0 || j >= names.len() {
        None
    } else if name_is(attr.name, names[j]) {
        Some(j)
    } else {
        first_name_from(attr, names, j + 1)
    }
}

/// The first attribute, from the `i`-th on, whose path is one of `names`,
/// and which name it is.
pub open spec fn first_named_attr(attrs: Seq<Attribute>, names: Seq<&'static str>, i: int) -> Option<
    (int, int),
>
    decreases attrs.len() - i,
{
    if i < 0 || i >= attrs.len() {
        None
    } else {
        match first_name_from(attrs[i], names, 0) {
            Some(j) => Some((i, j)),
            None => first_named_attr(attrs, names, i + 1),
        }
    }
}

/// What `get_enum_path` gives: the first attribute of one of `names`, with
/// the segments of the path its list holds; an error where there is no such
/// attribute, where it is not a list, or where its list is not a path.
pub open spec fn enum_path_outcome(
    attrs: Seq<Attribute>,
    names: Seq<&'static str>,
    r: Result<EnumPath, DeriveError>,
) -> bool {
    match first_named_attr(attrs, names, 0) {
        None => r == Err::<EnumPath, DeriveError>(DeriveError::MissingEnumAttr { name: names[0] }),
        Some((i, j)) => match attrs[i].meta {
            Meta::List { path, .. } => match path {
                Ok(segs) => r matches Ok(p) && p.attr == i && p.path@ == segments_view(segs@),
                Err(m) => r == Err::<EnumPath, DeriveError>(
                    DeriveError::EnumPath { attr: i as usize, message: m },
                ),
            },
            _ => r == Err::<EnumPath, DeriveError>(
                DeriveError::EnumAttrNotList { attr: i as usize, name: names[j] },
            ),
        },
    }
}

/// The enum named by the first attribute of one of `attr_names`
/// (`#[stem_reverse_name(MyEnum)]`).
pub fn get_enum_path(attrs: &Vec<Attribute>, attr_names: &[&'static str]) -> (r: Result<
    EnumPath,
    DeriveError,
>)
    requires
        attr_names@.len() > 0,
    ensures
        enum_path_outcome(attrs@, attr_names@, r),
{
    let mut i: usize = 0;
    while i < attrs.len()
        invariant
            i <= attrs@.len(),
            attr_names@.len() > 0,
            first_named_attr(attrs@, attr_names@, i as int) == first_named_attr(
                attrs@,
                attr_names@,
                0,
            ),
        decreases attrs@.len() - i,
    {
        let attr = &attrs[i];
        let mut j: usize = 0;
        while j < attr_names.len()
            invariant
                i < attrs@.len(),
                *attr == attrs@[i as int],
                j <= attr_names@.len(),
                first_name_from(*attr, attr_names@, j as int) == first_name_from(
                    *attr,
                    attr_names@,
                    0,
                ),
                first_named_attr(attrs@, attr_names@, i as int) == first_named_attr(
                    attrs@,
                    attr_names@,
                    0,
                ),
            decreases attr_names@.len() - j,
        {
            let matched = match &attr.name {
                Some(n) => crate::text::str_eq(n.as_str(), attr_names[j]),
                None => false,
            };
            if matched {
                match &attr.meta {
                    Meta::List { path, .. } => {
                        return match path {
                            Ok(segs) => {
                                let copy = DerivePath { segments: duplicate_vec(segs) };
                                Ok(EnumPath { attr: i, path: copy })
                            },
                            Err(m) => Err(DeriveError::EnumPath { attr: i, message: m.duplicate() }),
                        };
                    },
                    _ => {
                        return Err(DeriveError::EnumAttrNotList { attr: i, name: attr_names[j] });
                    },
                }
            }
            j = j + 1;
        }
        i = i + 1;
    }
    Err(DeriveError::MissingEnumAttr { name: attr_names[0] })
}

/// The test `VerifyFieldName` generates.
pub struct VerifyFieldNamePlan {
    /// The module holding the test.
    pub test_mod: String,
    /// The test function.
    pub test_fn: String,
    /// The enum that is checked.
    pub enum_path: EnumPath,
    /// Each variant the enum must have, in order, with the field name it
    /// must map to; the enum must have exactly `entries.len()` variants.
    pub entries: Vec<NamePair>,
}

/// One variant `VerifyFieldType` checks.
pub struct TypeCheck {
    pub variant_ident: String,
    pub field_ident: String,
    /// The field whose type the variant must hold.
    pub field_index: usize,
    /// The function that checks that the variant holds that type.
    pub check_fn: String,
}

/// The test `VerifyFieldType` generates.
pub struct VerifyFieldTypePlan {
    pub test_mod: String,
    pub test_fn: String,
    /// The enum that is checked.
    pub enum_path: EnumPath,
    /// The variants the enum must have, exactly, each holding its field's type.
    pub checks: Vec<TypeCheck>,
}

pub open spec fn reverse_name_attrs() -> Seq<&'static str> {
    seq!["stem_reverse_name", "ste_reverse_name"]
}

pub open spec fn reverse_type_attrs() -> Seq<&'static str> {
    seq!["stem_reverse_type", "ste_reverse_type"]
}

/// The field at `idx` is named `id`, and `variant` is its variant name.
pub open spec fn names_field(fields: Seq<Field>, idx: usize, field: Seq<char>, variant: Seq<char>) -> bool {
    &&& idx < fields.len()
    &&& fields[idx as int].ident matches Some(id)
    &&& field == id@
    &&& variant == upper_camel_case(id@)
}

/// `r` is what the check of `input` against the enum named by the struct
/// attribute at `attr`, whose path has the segments `path`, gives.
pub open spec fn verify_name_plan_outcome(
    input: DeriveInput,
    features: Features,
    attr: usize,
    path: Seq<Seq<char>>,
    r: Result<VerifyFieldNamePlan, DeriveError>,
) -> bool {
    match input.data {
        Data::Struct(fields) => match selection(
            fields@,
            name_field_attrs(),
            DeriveVariant::Name,
            features,
        ) {
            Err(e) => r == Err::<VerifyFieldNamePlan, DeriveError>(e),
            Ok(sel) => {
                &&& r matches Ok(p)
                &&& p.enum_path.attr == attr
                &&& p.enum_path.path@ == path
                &&& p.test_mod@ == "__verify_"@ + snake_case(input.ident@) + "_field_name"@
                &&& p.test_fn@ == "verify_"@ + snake_case(input.ident@) + "_matches_field_name"@
                &&& p.entries@.len() == sel.len()
                &&& forall|k: int|
                    0 <= k < sel.len() ==> names_field(
                        fields@,
                        sel[k],
                        (#[trigger] p.entries@[k]).field_name@,
                        p.entries@[k].variant_ident@,
                    )
            },
        },
        _ => r == Err::<VerifyFieldNamePlan, DeriveError>(
            DeriveError::VerifyNotAStruct(DeriveVariant::Name),
        ),
    }
}

/// `r` is what `expand_verify_field_name` gives for `input`: the enum is
/// the one the first attribute of `reverse_name_attrs()` names; where its
/// list is not a path, the error says so.
pub open spec fn verify_name_outcome(
    input: DeriveInput,
    features: Features,
    r: Result<VerifyFieldNamePlan, DeriveError>,
) -> bool {
    match first_named_attr(input.attrs@, reverse_name_attrs(), 0) {
        None => r == Err::<VerifyFieldNamePlan, DeriveError>(
            DeriveError::MissingEnumAttr { name: reverse_name_attrs()[0] },
        ),
        Some((i, j)) => match input.attrs@[i].meta {
            Meta::List { path, .. } => match path {
                Ok(segs) => verify_name_plan_outcome(
                    input,
                    features,
                    i as usize,
                    segments_view(segs@),
                    r,
                ),
                Err(m) => r == Err::<VerifyFieldNamePlan, DeriveError>(
                    DeriveError::EnumPath { attr: i as usize, message: m },
                ),
            },
            _ => r == Err::<VerifyFieldNamePlan, DeriveError>(
                DeriveError::EnumAttrNotList { attr: i as usize, name: reverse_name_attrs()[j] },
            ),
        },
    }
}

/// `r` is what the check of `input` against the enum named by the struct
/// attribute at `attr`, whose path has the segments `path`, gives.
pub open spec fn verify_type_plan_outcome(
    input: DeriveInput,
    features: Features,
    attr: usize,
    path: Seq<Seq<char>>,
    r: Result<VerifyFieldTypePlan, DeriveError>,
) -> bool {
    match input.data {
        Data::Struct(fields) => match selection(
            fields@,
            type_field_attrs(),
            DeriveVariant::Type,
            features,
        ) {
            Err(e) => r == Err::<VerifyFieldTypePlan, DeriveError>(e),
            Ok(sel) => {
                &&& r matches Ok(p)
                &&& p.enum_path.attr == attr
                &&& p.enum_path.path@ == path
                &&& p.test_mod@ == "__verify_"@ + snake_case(input.ident@) + "_field_type"@
                &&& p.test_fn@ == "verify_"@ + snake_case(input.ident@) + "_matches_field_type"@
                &&& p.checks@.len() == sel.len()
                &&& forall|k: int|
                    0 <= k < sel.len() ==> {
                        &&& names_field(
                            fields@,
                            sel[k],
                            (#[trigger] p.checks@[k]).field_ident@,
                            p.checks@[k].variant_ident@,
                        )
                        &&& p.checks@[k].field_index == sel[k]
                        &&& p.checks@[k].check_fn@ == "__check_type_"@ + decimal(k as nat)
                    }
            },
        },
        _ => r == Err::<VerifyFieldTypePlan, DeriveError>(
            DeriveError::VerifyNotAStruct(DeriveVariant::Type),
        ),
    }
}

/// `r` is what `expand_verify_field_type` gives for `input`: the enum is
/// the one the first attribute of `reverse_type_attrs()` names; where its
/// list is not a path, the error says so.
pub open spec fn verify_type_outcome(
    input: DeriveInput,
    features: Features,
    r: Result<VerifyFieldTypePlan, DeriveError>,
) -> bool {
    match first_named_attr(input.attrs@, reverse_type_attrs(), 0) {
        None => r == Err::<VerifyFieldTypePlan, DeriveError>(
            DeriveError::MissingEnumAttr { name: reverse_type_attrs()[0] },
        ),
        Some((i, j)) => match input.attrs@[i].meta {
            Meta::List { path, .. } => match path {
                Ok(segs) => verify_type_plan_outcome(
                    input,
                    features,
                    i as usize,
                    segments_view(segs@),
                    r,
                ),
                Err(m) => r == Err::<VerifyFieldTypePlan, DeriveError>(
                    DeriveError::EnumPath { attr: i as usize, message: m },
                ),
            },
            _ => r == Err::<VerifyFieldTypePlan, DeriveError>(
                DeriveError::EnumAttrNotList { attr: i as usize, name: reverse_type_attrs()[j] },
            ),
        },
    }
}

/// The test that the enum named in `#[stem_reverse_name(..)]` matches what
/// `FieldName` would generate for the struct.
pub fn expand_verify_field_name(input: DeriveInput, features: Features) -> (r: Result<
    VerifyFieldNamePlan,
    DeriveError,
>)
    ensures
        verify_name_outcome(input, features, r),
{
    let names = two_names("stem_reverse_name", "ste_reverse_name");
    match get_enum_path(&input.attrs, names.as_slice()) {
        Ok(p) => verify_field_name_plan(&input, features, p),
        Err(e) => Err(e),
    }
}

/// The check of `input` against `enum_path`: the test module and function,
/// and the variants the enum must have, in order.
pub fn verify_field_name_plan(input: &DeriveInput, features: Features, enum_path: EnumPath) -> (r: Result<
    VerifyFieldNamePlan,
    DeriveError,
>)
    ensures
        verify_name_plan_outcome(*input, features, enum_path.attr, enum_path.path@, r),
{
    let fields = match &input.data {
        Data::Struct(f) => f,
        _ => {
            return Err(DeriveError::VerifyNotAStruct(DeriveVariant::Name));
        },
    };
    let field_names = two_names("stem_name", "ste_name");
    let infos = match filter_fields(fields, field_names.as_slice(), DeriveVariant::Name, features) {
        Ok(v) => v,
        Err(e) => {
            return Err(e);
        },
    };
    let snake = to_snake_case(input.ident.as_str());
    let test_mod = concat3("__verify_", snake.as_str(), "_field_name");
    let test_fn = concat3("verify_", snake.as_str(), "_matches_field_name");
    let mut entries: Vec<NamePair> = Vec::new();
    let mut k: usize = 0;
    while k < infos.len()
        invariant
            k <= infos@.len(),
            entries@.len() == k,
            selection(fields@, name_field_attrs(), DeriveVariant::Name, features) is Ok,
            infos@.len() == selection(
                fields@,
                name_field_attrs(),
                DeriveVariant::Name,
                features,
            )->Ok_0.len(),
            forall|m: int|
                0 <= m < infos@.len() ==> crate::common::describes(
                    #[trigger] infos@[m],
                    fields@,
                    selection(fields@, name_field_attrs(), DeriveVariant::Name, features)->Ok_0[m],
                    name_field_attrs(),
                ),
            forall|m: int|
                0 <= m < k ==> names_field(
                    fields@,
                    selection(fields@, name_field_attrs(), DeriveVariant::Name, features)->Ok_0[m],
                    (#[trigger] entries@[m]).field_name@,
                    entries@[m].variant_ident@,
                ),
        decreases infos@.len() - k,
    {
        entries.push(
            NamePair {
                variant_ident: infos[k].variant_ident.clone(),
                field_name: infos[k].field_ident.clone(),
            },
        );
        k = k + 1;
    }
    Ok(VerifyFieldNamePlan { test_mod, test_fn, enum_path, entries })
}

/// The test that the enum named in `#[stem_reverse_type(..)]` matches what
/// `FieldType` would generate for the struct.
pub fn expand_verify_field_type(input: DeriveInput, features: Features) -> (r: Result<
    VerifyFieldTypePlan,
    DeriveError,
>)
    ensures
        verify_type_outcome(input, features, r),
{
    let names = two_names("stem_reverse_type", "ste_reverse_type");
    match get_enum_path(&input.attrs, names.as_slice()) {
        Ok(p) => verify_field_type_plan(&input, features, p),
        Err(e) => Err(e),
    }
}

/// The check of `input` against `enum_path`: the test module and function,
/// and the variants the enum must have, in order.
pub fn verify_field_type_plan(input: &DeriveInput, features: Features, enum_path: EnumPath) -> (r: Result<
    VerifyFieldTypePlan,
    DeriveError,
>)
    ensures
        verify_type_plan_outcome(*input, features, enum_path.attr, enum_path.path@, r),
{
    let fields = match &input.data {
        Data::Struct(f) => f,
        _ => {
            return Err(DeriveError::VerifyNotAStruct(DeriveVariant::Type));
        },
    };
    let field_names = two_names("stem_type", "ste_type");
    let infos = match filter_fields(fields, field_names.as_slice(), DeriveVariant::Type, features) {
        Ok(v) => v,
        Err(e) => {
            return Err(e);
        },
    };
    let snake = to_snake_case(input.ident.as_str());
    let test_mod = concat3("__verify_", snake.as_str(), "_field_type");
    let test_fn = concat3("verify_", snake.as_str(), "_matches_field_type");
    let mut checks: Vec<TypeCheck> = Vec::new();
    let mut k: usize = 0;
    while k < infos.len()
        invariant
            k <= infos@.len(),
            checks@.len() == k,
            selection(fields@, type_field_attrs(), DeriveVariant::Type, features) is Ok,
            infos@.len() == selection(
                fields@,
                type_field_attrs(),
                DeriveVariant::Type,
                features,
            )->Ok_0.len(),
            forall|m: int|
                0 <= m < infos@.len() ==> crate::common::describes(
                    #[trigger] infos@[m],
                    fields@,
                    selection(fields@, type_field_attrs(), DeriveVariant::Type, features)->Ok_0[m],
                    type_field_attrs(),
                ),
            forall|m: int|
                0 <= m < k ==> {
                    &&& names_field(
                        fields@,
                        selection(
                            fields@,
                            type_field_attrs(),
                            DeriveVariant::Type,
                            features,
                        )->Ok_0[m],
                        (#[trigger] checks@[m]).field_ident@,
                        checks@[m].variant_ident@,
                    )
                    &&& checks@[m].field_index == selection(
                        fields@,
                        type_field_attrs(),
                        DeriveVariant::Type,
                        features,
                    )->Ok_0[m]
                    &&& checks@[m].check_fn@ == "__check_type_"@ + decimal(m as nat)
                },
        decreases infos@.len() - k,
    {
        let mut check_fn = String::from_str("__check_type_");
        push_decimal(&mut check_fn, k);
        checks.push(
            TypeCheck {
                variant_ident: infos[k].variant_ident.clone(),
                field_ident: infos[k].field_ident.clone(),
                field_index: infos[k].field_index,
                check_fn,
            },
        );
        k = k + 1;
    }
    Ok(VerifyFieldTypePlan { test_mod, test_fn, enum_path, checks })
}

} // verus!
