//! What both derives share: reading struct attributes, choosing the fields
//! that become variants and naming them, and the derive paths.

use vstd::prelude::*;

use crate::case::{to_upper_camel_case, upper_camel_case};
use crate::error::DeriveError;
use crate::laws::{lemma_meta_lists_collect_every_named_attribute, positions_of_named};
use crate::model::{Attribute, Field, Meta, TypeShape};
use crate::text::{join_path, str_eq, trim_quote_marks, trim_quotes};

verus! {

/// Which of the two derives is at work.
#[derive(Debug, Clone, Copy, PartialEq, Eq)]
pub enum DeriveVariant {
    Type,
    Name,
}

/// Whether `nested` fields are enabled, for each derive.
#[derive(Debug, Clone, Copy)]
pub struct Features {
    pub nested_type: bool,
    pub nested_name: bool,
}

impl Features {
    pub open spec fn allows_nested(self, d: DeriveVariant) -> bool {
        match d {
            DeriveVariant::Type => self.nested_type,
            DeriveVariant::Name => self.nested_name,
        }
    }

    fn nested_allowed(&self, d: DeriveVariant) -> (r: bool)
        ensures
            r == self.allows_nested(d),
    {
        match d {
            DeriveVariant::Type => self.nested_type,
            DeriveVariant::Name => self.nested_name,
        }
    }
}

/// A path such as `serde::Serialize`, by the identifiers of its segments.
pub struct DerivePath {
    pub segments: Vec<String>,
}

impl View for DerivePath {
    type V = Seq<Seq<char>>;

    open spec fn view(&self) -> Seq<Seq<char>> {
        self.segments@.map_values(|s: String| s@)
    }
}

/// A field that becomes a variant.
pub struct FieldInfo {
    /// The field's position among the struct's fields.
    pub field_index: usize,
    /// The field's name.
    pub field_ident: String,
    /// The variant's name: the field's name in UpperCamelCase.
    pub variant_ident: String,
    /// Whether the field is marked `nested`.
    pub is_nested: bool,
}

/// `name` is the single identifier `target`.
pub open spec fn name_is(name: Option<String>, target: &str) -> bool {
    match name {
        Some(n) => n@ == target@,
        None => false,
    }
}

/// The attribute's path is one of `names`.
pub open spec fn attr_named(attr: Attribute, names: Seq<&'static str>) -> bool {
    exists|j: int| 0 <= j < names.len() && name_is(attr.name, #[trigger] names[j])
}

fn name_matches(name: &Option<String>, target: &str) -> (r: bool)
    ensures
        r == name_is(*name, target),
{
    match name {
        Some(n) => str_eq(n.as_str(), target),
        None => false,
    }
}

fn named_any(attr: &Attribute, names: &[&'static str]) -> (r: bool)
    ensures
        r == attr_named(*attr, names@),
{
    let mut j: usize = 0;
    while j < names.len()
        invariant
            j <= names@.len(),
            forall|k: int| 0 <= k < j ==> !name_is(attr.name, #[trigger] names@[k]),
        decreases names@.len() - j,
    {
        if name_matches(&attr.name, names[j]) {
            return true;
        }
        j = j + 1;
    }
    false
}

// ---------------------------------------------------------------- struct attributes

/// The lists that one attribute (at position `idx`) contributes, scanning
/// `names` from position `j`: one for each name the attribute's path equals;
/// an error where such an attribute is not a list.
pub open spec fn attr_lists_from(
    attr: Attribute,
    idx: usize,
    names: Seq<&'static str>,
    j: int,
    acc: Seq<usize>,
) -> Result<Seq<usize>, DeriveError>
    decreases names.len() - j,
{
    if j < 0 || j >= names.len() {
        Ok(acc)
    } else if name_is(attr.name, names[j]) {
        match attr.meta {
            Meta::List { .. } => attr_lists_from(attr, idx, names, j + 1, acc.push(idx)),
            _ => Err(DeriveError::ExpectedList { attr: idx, name: names[j] }),
        }
    } else {
        attr_lists_from(attr, idx, names, j + 1, acc)
    }
}

/// The positions of the attributes, from position `i` on, whose list
/// `get_meta_list` collects.
pub open spec fn meta_lists_from(
    attrs: Seq<Attribute>,
    names: Seq<&'static str>,
    i: int,
    acc: Seq<usize>,
) -> Result<Seq<usize>, DeriveError>
    decreases attrs.len() - i,
{
    if i < 0 || i >= attrs.len() {
        Ok(acc)
    } else {
        match attr_lists_from(attrs[i], i as usize, names, 0, acc) {
            Ok(a) => meta_lists_from(attrs, names, i + 1, a),
            Err(e) => Err(e),
        }
    }
}

/// The attributes whose list `get_meta_list` collects, in order.
pub open spec fn meta_lists(attrs: Seq<Attribute>, names: Seq<&'static str>) -> Result<
    Seq<usize>,
    DeriveError,
> {
    meta_lists_from(attrs, names, 0, Seq::empty())
}

/// Each position is that of a list attribute.
pub open spec fn lists_at(attrs: Seq<Attribute>, rows: Seq<usize>) -> bool {
    forall|k: int|
        0 <= k < rows.len() ==> #[trigger] rows[k] < attrs.len() && attrs[rows[k] as int].meta is List
}

/// The struct attributes whose path is one of `attr_names`, each by its
/// position; their lists are what the derive reads (`#[stem_type_derive(..)]`
/// and the like). An attribute of one of these names that is not a list is an
/// error.
pub fn get_meta_list(attrs: &Vec<Attribute>, attr_names: &[&'static str]) -> (r: Result<
    Vec<usize>,
    DeriveError,
>)
    ensures
        match (r, meta_lists(attrs@, attr_names@)) {
            (Ok(v), Ok(s)) => v@ == s,
            (Err(e), Err(f)) => e == f,
            _ => false,
        },
        r matches Ok(v) ==> lists_at(attrs@, v@),
        r is Ok <==> forall|t: int|
            0 <= t < attrs@.len() && attr_named(#[trigger] attrs@[t], attr_names@)
                ==> attrs@[t].meta is List,
        r matches Ok(v) ==> positions_of_named(attrs@, attr_names@, v@),
{
    proof {
        assert(attrs.len() == attrs@.len());
        lemma_meta_lists_collect_every_named_attribute(attrs@, attr_names@);
    }
    let mut result: Vec<usize> = Vec::new();
    let mut i: usize = 0;
    while i < attrs.len()
        invariant
            i <= attrs@.len(),
            meta_lists_from(attrs@, attr_names@, i as int, result@) == meta_lists(
                attrs@,
                attr_names@,
            ),
            lists_at(attrs@, result@),
        decreases attrs@.len() - i,
    {
        let attr = &attrs[i];
        let ghost acc0 = result@;
        let mut j: usize = 0;
        while j < attr_names.len()
            invariant
                i < attrs@.len(),
                *attr == attrs@[i as int],
                j <= attr_names@.len(),
                attr_lists_from(*attr, i, attr_names@, j as int, result@) == attr_lists_from(
                    *attr,
                    i,
                    attr_names@,
                    0,
                    acc0,
                ),
                meta_lists_from(attrs@, attr_names@, i as int, acc0) == meta_lists(
                    attrs@,
                    attr_names@,
                ),
                lists_at(attrs@, result@),
            decreases attr_names@.len() - j,
        {
            if name_matches(&attr.name, attr_names[j]) {
                match &attr.meta {
                    Meta::List { .. } => {
                        result.push(i);
                    },
                    _ => {
                        return Err(DeriveError::ExpectedList { attr: i, name: attr_names[j] });
                    },
                }
            }
            j = j + 1;
        }
        i = i + 1;
    }
    Ok(result)
}

// ---------------------------------------------------------------- field attributes

/// The value of a field attribute of one of `names`: the text of its list
/// or of its value, with surrounding `"` removed; `None` for an attribute of
/// another name; an error for a bare path.
pub open spec fn attr_value(attr: Attribute, names: Seq<&'static str>) -> Result<
    Option<Seq<char>>,
    DeriveError,
> {
    if !attr_named(attr, names) {
        Ok(None)
    } else {
        match attr.meta {
            Meta::List { tokens, text, .. } => Ok(Some(trim_quotes(text@))),
            Meta::NameValue { value } => Ok(Some(trim_quotes(value@))),
            Meta::Path => Err(DeriveError::UnknownAttrFormat),
        }
    }
}

/// The value of a field attribute (`#[stem_type(skip)]` and
/// `#[stem_type = "skip"]` both give `skip`).
pub fn get_attr_value(attr: &Attribute, attr_names: &[&'static str]) -> (r: Result<
    Option<String>,
    DeriveError,
>)
    ensures
        match (r, attr_value(*attr, attr_names@)) {
            (Ok(Some(v)), Ok(Some(w))) => v@ == w,
            (Ok(None), Ok(None)) => true,
            (Err(e), Err(f)) => e == f,
            _ => false,
        },
{
    if !named_any(attr, attr_names) {
        return Ok(None);
    }
    match &attr.meta {
        Meta::List { tokens, text, .. } => Ok(Some(trim_quote_marks(text.as_str()))),
        Meta::NameValue { value } => Ok(Some(trim_quote_marks(value.as_str()))),
        Meta::Path => Err(DeriveError::UnknownAttrFormat),
    }
}

/// The attribute is one of `names` and its value is `expected`.
pub open spec fn attr_has_value(attr: Attribute, names: Seq<&'static str>, expected: Seq<char>) -> bool {
    attr_value(attr, names) matches Ok(Some(v)) && v == expected
}

pub fn has_attr_with_value(attr: &Attribute, attr_names: &[&'static str], expected: &str) -> (r: bool)
    ensures
        r == attr_has_value(*attr, attr_names@, expected@),
{
    match get_attr_value(attr, attr_names) {
        Ok(Some(v)) => str_eq(v.as_str(), expected),
        _ => false,
    }
}

/// The field carries `skip` under one of `names`.
pub open spec fn marked_skip(f: Field, names: Seq<&'static str>) -> bool {
    exists|k: int| 0 <= k < f.attrs.len() && attr_has_value(#[trigger] f.attrs[k], names, "skip"@)
}

/// The field carries `nested` under one of `names`.
pub open spec fn marked_nested(f: Field, names: Seq<&'static str>) -> bool {
    exists|k: int|
        0 <= k < f.attrs.len() && attr_has_value(#[trigger] f.attrs[k], names, "nested"@)
}

/// The field is left out: marked `skip`, or without a name.
pub open spec fn left_out(f: Field, names: Seq<&'static str>) -> bool {
    marked_skip(f, names) || f.ident is None
}

fn any_attr_with_value(f: &Field, attr_names: &[&'static str], expected: &str) -> (r: bool)
    ensures
        r == exists|k: int|
            0 <= k < f.attrs.len() && attr_has_value(#[trigger] f.attrs[k], attr_names@, expected@),
{
    let mut k: usize = 0;
    while k < f.attrs.len()
        invariant
            k <= f.attrs@.len(),
            forall|m: int|
                0 <= m < k ==> !attr_has_value(#[trigger] f.attrs@[m], attr_names@, expected@),
        decreases f.attrs@.len() - k,
    {
        if has_attr_with_value(&f.attrs[k], attr_names, expected) {
            return true;
        }
        k = k + 1;
    }
    false
}

// ---------------------------------------------------------------- field selection

/// The positions of the fields, from position `i` on, that become variants:
/// fields left out are passed over; a `nested` field where nesting is not
/// enabled is an error.
pub open spec fn selection_from(
    fields: Seq<Field>,
    names: Seq<&'static str>,
    derive: DeriveVariant,
    features: Features,
    i: int,
    acc: Seq<usize>,
) -> Result<Seq<usize>, DeriveError>
    decreases fields.len() - i,
{
    if i < 0 || i >= fields.len() {
        Ok(acc)
    } else if left_out(fields[i], names) {
        selection_from(fields, names, derive, features, i + 1, acc)
    } else if marked_nested(fields[i], names) && !features.allows_nested(derive) {
        Err(DeriveError::NestedUnsupported { field: i as usize, derive })
    } else {
        selection_from(fields, names, derive, features, i + 1, acc.push(i as usize))
    }
}

pub open spec fn selection(
    fields: Seq<Field>,
    names: Seq<&'static str>,
    derive: DeriveVariant,
    features: Features,
) -> Result<Seq<usize>, DeriveError> {
    selection_from(fields, names, derive, features, 0, Seq::empty())
}

/// The positions of the fields that become variants, in declaration order.
pub fn selected_fields(
    fields: &Vec<Field>,
    attr_names: &[&'static str],
    derive_type: DeriveVariant,
    features: Features,
) -> (r: Result<Vec<usize>, DeriveError>)
    ensures
        match (r, selection(fields@, attr_names@, derive_type, features)) {
            (Ok(v), Ok(s)) => v@ == s,
            (Err(e), Err(f)) => e == f,
            _ => false,
        },
        r matches Ok(v) ==> forall|k: int|
            0 <= k < v.len() ==> #[trigger] v@[k] < fields.len() && !left_out(
                fields@[v@[k] as int],
                attr_names@,
            ),
{
    let mut result: Vec<usize> = Vec::new();
    let mut i: usize = 0;
    while i < fields.len()
        invariant
            i <= fields@.len(),
            selection_from(fields@, attr_names@, derive_type, features, i as int, result@)
                == selection(fields@, attr_names@, derive_type, features),
            forall|k: int|
                0 <= k < result.len() ==> #[trigger] result@[k] < fields.len() && !left_out(
                    fields@[result@[k] as int],
                    attr_names@,
                ),
        decreases fields@.len() - i,
    {
        let field = &fields[i];
        let is_skip = any_attr_with_value(field, attr_names, "skip");
        if is_skip || field.ident.is_none() {
            i = i + 1;
            continue;
        }
        let is_nested = any_attr_with_value(field, attr_names, "nested");
        if is_nested && !features.nested_allowed(derive_type) {
            return Err(DeriveError::NestedUnsupported { field: i, derive: derive_type });
        }
        result.push(i);
        i = i + 1;
    }
    Ok(result)
}

/// `info` describes the field at `idx`.
pub open spec fn describes(info: FieldInfo, fields: Seq<Field>, idx: usize, names: Seq<&'static str>) -> bool {
    &&& info.field_index == idx
    &&& idx < fields.len()
    &&& fields[idx as int].ident matches Some(id)
    &&& info.field_ident@ == id@
    &&& info.variant_ident@ == upper_camel_case(id@)
    &&& info.is_nested == marked_nested(fields[idx as int], names)
}

/// The fields that become variants, in declaration order, each with its
/// variant name (the field name in UpperCamelCase) and whether it is nested.
pub fn filter_fields(
    fields: &Vec<Field>,
    attr_names: &[&'static str],
    derive_type: DeriveVariant,
    features: Features,
) -> (r: Result<Vec<FieldInfo>, DeriveError>)
    ensures
        match (r, selection(fields@, attr_names@, derive_type, features)) {
            (Ok(v), Ok(s)) => v.len() == s.len() && forall|k: int|
                0 <= k < s.len() ==> describes(#[trigger] v@[k], fields@, s[k], attr_names@),
            (Err(e), Err(f)) => e == f,
            _ => false,
        },
{
    let selected = match selected_fields(fields, attr_names, derive_type, features) {
        Ok(v) => v,
        Err(e) => return Err(e),
    };
    let mut result: Vec<FieldInfo> = Vec::new();
    let mut k: usize = 0;
    while k < selected.len()
        invariant
            k <= selected@.len(),
            result@.len() == k,
            forall|m: int|
                0 <= m < selected@.len() ==> #[trigger] selected@[m] < fields.len() && !left_out(
                    fields@[selected@[m] as int],
                    attr_names@,
                ),
            forall|m: int|
                0 <= m < k ==> describes(#[trigger] result@[m], fields@, selected@[m], attr_names@),
        decreases selected@.len() - k,
    {
        let idx = selected[k];
        let field = &fields[idx];
        assert(!left_out(fields@[selected@[k as int] as int], attr_names@));
        match &field.ident {
            Some(id) => {
                let variant_ident = to_upper_camel_case(id.as_str());
                let is_nested = any_attr_with_value(field, attr_names, "nested");
                result.push(
                    FieldInfo {
                        field_index: idx,
                        field_ident: id.clone(),
                        variant_ident,
                        is_nested,
                    },
                );
            },
            None => {
                assert(false);
            },
        }
        k = k + 1;
    }
    Ok(result)
}

// ---------------------------------------------------------------- types and paths

/// The name of the type a `nested` field refers to: the last segment of its
/// type path.
pub fn extract_type_ident(ty: &TypeShape, field: usize) -> (r: Result<&String, DeriveError>)
    ensures
        match *ty {
            TypeShape::Path { segments } => if segments.len() > 0 {
                r matches Ok(s) && *s == segments@.last()
            } else {
                r == Err::<&String, DeriveError>(DeriveError::EmptyTypePath { field })
            },
            TypeShape::Other => r == Err::<&String, DeriveError>(
                DeriveError::NestedNotPath { field },
            ),
        },
{
    match ty {
        TypeShape::Path { segments } => {
            if segments.len() > 0 {
                Ok(&segments[segments.len() - 1])
            } else {
                Err(DeriveError::EmptyTypePath { field })
            }
        },
        TypeShape::Other => Err(DeriveError::NestedNotPath { field }),
    }
}

/// The path's segments joined by `::`.
pub fn path_to_string(path: &DerivePath) -> (r: String)
    ensures
        r@ == join_path(path@),
{
    let n = path.segments.len();
    let mut out = String::new();
    let mut i: usize = 0;
    while i < n
        invariant
            n == path.segments@.len(),
            i <= n,
            out@ == join_path(path@.take(i as int)),
        decreases n - i,
    {
        if i > 0 {
            out.append("::");
        }
        out.append(path.segments[i].as_str());
        proof {
            let p = path@.take(i + 1);
            assert(p.drop_last() =~= path@.take(i as int));
            if i == 0 {
                assert(path@.take(0) =~= Seq::<Seq<char>>::empty());
            }
        }
        i = i + 1;
    }
    assert(path@.take(n as int) =~= path@);
    out
}

} // verus!
