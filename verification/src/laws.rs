//! Properties of the derives as a whole.

use vstd::prelude::*;

use crate::case::{snake_case, upper_camel_case};
use crate::common::{
    attr_value, left_out, marked_nested, selection, selection_from, DeriveVariant, Features,
};
use crate::derive_list::{
    default_derive_names, enum_derives, is_punct, merge_from, names_path, scan_path_from,
    scan_row_from, scan_rows_from,
};
use crate::error::DeriveError;
use crate::field_name::{
    field_name_outcome, has_nested, name_entry, name_expansion_of, name_field_attrs,
    name_helper, name_item_for, name_yield, type_last_segment, DeriveFieldName, FieldNameBody,
    FieldNameExpansion, NameEntry, NamePair,
};
use crate::field_type::{
    field_type_outcome, through, type_entry, type_expansion_of, type_field_attrs, type_helper,
    type_item_for, type_yield, DeriveFieldType, FieldTypeBody, FieldTypeExpansion, NestedField,
    NormalField, TypeEntry,
};
use crate::model::{Attribute, Data, DeriveInput, Field};
use crate::reverse::{
    names_field, verify_name_outcome, verify_type_outcome, VerifyFieldNamePlan,
    VerifyFieldTypePlan,
};
use crate::slots::{
    flatten, helper_macro_name, item_yield, items_yield, lemma_chain_yield,
    lemma_flatten_has_nested, lemma_run_yield, regulars, step_macro_name, Slot, SlotItem,
};
use crate::common::{attr_lists_from, attr_named, meta_lists, meta_lists_from, name_is};
use crate::model::{Meta, Token};
use crate::text::{decimal, digit_char};

verus! {

// ---------------------------------------------------------------- field selection

/// `sel` lists, in increasing order, exactly the fields that are not left out.
pub open spec fn lists_kept_fields(fields: Seq<Field>, names: Seq<&'static str>, sel: Seq<usize>) -> bool {
    &&& forall|k: int, m: int| 0 <= k < m < sel.len() ==> sel[k] < sel[m]
    &&& forall|k: int| 0 <= k < sel.len() ==> #[trigger] sel[k] < fields.len()
    &&& forall|j: int|
        0 <= j < fields.len() ==> (!left_out(#[trigger] fields[j], names) <==> exists|k: int|
            0 <= k < sel.len() && sel[k] == j)
}

proof fn lemma_selection_from(
    fields: Seq<Field>,
    names: Seq<&'static str>,
    derive: DeriveVariant,
    features: Features,
    i: int,
    acc: Seq<usize>,
)
    requires
        0 <= i <= fields.len(),
        fields.len() <= usize::MAX,
        forall|k: int| 0 <= k < acc.len() ==> #[trigger] acc[k] < i,
        forall|k: int, m: int| 0 <= k < m < acc.len() ==> acc[k] < acc[m],
        forall|j: int|
            0 <= j < i ==> (!left_out(#[trigger] fields[j], names) <==> exists|k: int|
                0 <= k < acc.len() && acc[k] == j),
    ensures
        selection_from(fields, names, derive, features, i, acc) matches Ok(sel) ==> lists_kept_fields(
            fields,
            names,
            sel,
        ),
    decreases fields.len() - i,
{
    if i < fields.len() {
        if left_out(fields[i], names) {
            assert forall|j: int| 0 <= j < i + 1 implies (!left_out(#[trigger] fields[j], names)
                <==> exists|k: int| 0 <= k < acc.len() && acc[k] == j) by {
                if j == i {
                    if exists|k: int| 0 <= k < acc.len() && acc[k] == j {
                        let k = choose|k: int| 0 <= k < acc.len() && acc[k] == j;
                        assert(acc[k] < i);
                    }
                }
            }
            lemma_selection_from(fields, names, derive, features, i + 1, acc);
            assert(selection_from(fields, names, derive, features, i, acc) == selection_from(
                fields,
                names,
                derive,
                features,
                i + 1,
                acc,
            ));
        } else if !(marked_nested(fields[i], names) && !features.allows_nested(derive)) {
            let acc2 = acc.push(i as usize);
            assert((i as usize) as int == i);
            assert forall|j: int| 0 <= j < i + 1 implies (!left_out(#[trigger] fields[j], names)
                <==> exists|k: int| 0 <= k < acc2.len() && acc2[k] == j) by {
                if j == i {
                    assert(acc2[acc.len() as int] == j);
                } else {
                    if exists|k: int| 0 <= k < acc.len() && acc[k] == j {
                        let k = choose|k: int| 0 <= k < acc.len() && acc[k] == j;
                        assert(acc2[k] == j);
                    }
                    if exists|k: int| 0 <= k < acc2.len() && acc2[k] == j {
                        let k = choose|k: int| 0 <= k < acc2.len() && acc2[k] == j;
                        assert(k < acc.len());
                        assert(acc[k] == j);
                    }
                }
            }
            assert forall|k: int| 0 <= k < acc2.len() implies #[trigger] acc2[k] < i + 1 by {
                if k < acc.len() {
                    assert(acc2[k] == acc[k]);
                }
            }
            assert forall|k: int, m: int| 0 <= k < m < acc2.len() implies acc2[k] < acc2[m] by {
                assert(acc2[k] == acc[k]);
                if m < acc.len() {
                    assert(acc2[m] == acc[m]);
                }
            }
            lemma_selection_from(fields, names, derive, features, i + 1, acc2);
            assert(selection_from(fields, names, derive, features, i, acc) == selection_from(
                fields,
                names,
                derive,
                features,
                i + 1,
                acc2,
            ));
        }
    } else {
        assert(selection_from(fields, names, derive, features, i, acc) == Ok::<
            Seq<usize>,
            DeriveError,
        >(acc));
        assert(lists_kept_fields(fields, names, acc));
    }
}

/// The fields that become variants are exactly the fields that are neither
/// skipped nor unnamed, each once, in declaration order.
pub proof fn lemma_variants_follow_declaration_order(
    fields: Seq<Field>,
    names: Seq<&'static str>,
    derive: DeriveVariant,
    features: Features,
)
    requires
        fields.len() <= usize::MAX,
    ensures
        selection(fields, names, derive, features) matches Ok(sel) ==> lists_kept_fields(
            fields,
            names,
            sel,
        ),
{
    lemma_selection_from(fields, names, derive, features, 0, Seq::empty());
}

/// The two names of each attribute are interchangeable: an attribute has the
/// same value under either of them.
pub proof fn lemma_alias_names_interchangeable(
    a: Attribute,
    b: Attribute,
    names: Seq<&'static str>,
    i: int,
    j: int,
)
    requires
        0 <= i < names.len(),
        0 <= j < names.len(),
        a.name matches Some(x) && x@ == names[i]@,
        b.name matches Some(y) && y@ == names[j]@,
        a.meta == b.meta,
    ensures
        attr_value(a, names) == attr_value(b, names),
{
    assert(crate::common::name_is(a.name, names[i]));
    assert(crate::common::name_is(b.name, names[j]));
}

// ---------------------------------------------------------------- derives

proof fn lemma_merge_from(paths: Seq<Seq<Seq<char>>>, defaults: Seq<Seq<char>>, i: int)
    requires
        0 <= i <= defaults.len(),
    ensures
        merge_from(paths, defaults, i).len() >= paths.len(),
        merge_from(paths, defaults, i).take(paths.len() as int) == paths,
        forall|k: int| i <= k < defaults.len() ==> names_path(
            merge_from(paths, defaults, i),
            #[trigger] defaults[k],
        ),
        forall|d: Seq<char>| names_path(paths, d) ==> names_path(merge_from(paths, defaults, i), d),
    decreases defaults.len() - i,
{
    if i < defaults.len() {
        if names_path(paths, defaults[i]) {
            lemma_merge_from(paths, defaults, i + 1);
        } else {
            let p2 = paths.push(seq![defaults[i]]);
            lemma_merge_from(p2, defaults, i + 1);
            let m = merge_from(p2, defaults, i + 1);
            assert(m.take(paths.len() as int) =~= m.take(p2.len() as int).take(paths.len() as int));
            assert(p2.take(paths.len() as int) =~= paths);
            assert(p2[paths.len() as int] == seq![defaults[i]]);
            assert(crate::text::join_path(seq![defaults[i]]) == defaults[i]);
            assert(names_path(p2, defaults[i]));
            assert forall|d: Seq<char>| names_path(paths, d) implies names_path(p2, d) by {
                let k = choose|k: int| 0 <= k < paths.len() && crate::text::join_path(
                    #[trigger] paths[k],
                ) == d;
                assert(p2[k] == paths[k]);
            }
        }
    } else {
        assert(paths.take(paths.len() as int) =~= paths);
    }
}

/// Merging the default derives keeps the listed derives, in order, as they
/// are, and leaves every default derive among the result.
pub proof fn lemma_default_derives_merged(listed: Seq<Seq<Seq<char>>>)
    ensures
        merge_from(listed, default_derive_names(), 0).take(listed.len() as int) == listed,
        forall|k: int| 0 <= k < default_derive_names().len() ==> names_path(
            merge_from(listed, default_derive_names(), 0),
            #[trigger] default_derive_names()[k],
        ),
        forall|d: Seq<char>| names_path(listed, d) ==> names_path(
            merge_from(listed, default_derive_names(), 0),
            d,
        ),
{
    lemma_merge_from(listed, default_derive_names(), 0);
}

proof fn lemma_merge_from_listed(paths: Seq<Seq<Seq<char>>>, defaults: Seq<Seq<char>>, i: int)
    requires
        0 <= i <= defaults.len(),
        forall|k: int| i <= k < defaults.len() ==> names_path(paths, #[trigger] defaults[k]),
    ensures
        merge_from(paths, defaults, i) == paths,
    decreases defaults.len() - i,
{
    if i < defaults.len() {
        lemma_merge_from_listed(paths, defaults, i + 1);
    }
}

/// Listing every default derive yourself adds nothing more: no derive is
/// written twice by the merge.
pub proof fn lemma_listed_defaults_not_repeated(listed: Seq<Seq<Seq<char>>>)
    requires
        forall|k: int| 0 <= k < default_derive_names().len() ==> names_path(
            listed,
            #[trigger] default_derive_names()[k],
        ),
    ensures
        merge_from(listed, default_derive_names(), 0) == listed,
{
    lemma_merge_from_listed(listed, default_derive_names(), 0);
}

// ---------------------------------------------------------------- nesting

/// A nested `FieldName` field hands over to the helper macro that the
/// nested struct's own expansion exports: the parent's slot for the field
/// names exactly the macro the child defines.
pub proof fn lemma_nested_name_link(
    item: SlotItem<NamePair, String>,
    field: Field,
    names: Seq<&'static str>,
    child: DeriveFieldName,
    child_items: FieldNameExpansion,
)
    requires
        marked_nested(field, names),
        name_item_for(item, field, names),
        type_last_segment(field.ty) == Some(child.struct_ident()),
        child.snake() == snake_case(child.struct_ident()),
        name_expansion_of(child, child_items),
    ensures
        item matches SlotItem::Nested(h) && h@ == child_items.helper_macro@,
{
}

/// A nested `FieldType` field hands over to the helper macro that the nested
/// struct's own expansion exports.
pub proof fn lemma_nested_type_link(
    item: SlotItem<NormalField, NestedField>,
    field: Field,
    idx: usize,
    names: Seq<&'static str>,
    child: DeriveFieldType,
    child_items: FieldTypeExpansion,
)
    requires
        marked_nested(field, names),
        type_item_for(item, field, idx, names),
        type_last_segment(field.ty) == Some(child.struct_ident()),
        child.snake() == snake_case(child.struct_ident()),
        type_expansion_of(child, child_items),
    ensures
        item matches SlotItem::Nested(n) && n.helper_macro@ == child_items.helper_macro@,
{
}

proof fn lemma_decimal_len(n: nat)
    ensures
        decimal(n).len() >= 1,
        n < 10 <==> decimal(n).len() == 1,
    decreases n,
{
    if n >= 10 {
        lemma_decimal_len(n / 10);
    }
}

proof fn lemma_digit_injective(a: nat, b: nat)
    requires
        a < 10,
        b < 10,
        digit_char(a) == digit_char(b),
    ensures
        a == b,
{
}

/// Different numbers have different decimal digits.
proof fn lemma_decimal_injective(a: nat, b: nat)
    requires
        decimal(a) == decimal(b),
    ensures
        a == b,
    decreases a,
{
    lemma_decimal_len(a);
    lemma_decimal_len(b);
    if a < 10 {
        assert(decimal(a)[0] == digit_char(a));
        assert(decimal(b)[0] == digit_char(b));
        lemma_digit_injective(a, b);
    } else {
        let da = decimal(a);
        let db = decimal(b);
        assert(da.drop_last() =~= decimal(a / 10));
        assert(db.drop_last() =~= decimal(b / 10));
        assert(da.last() == digit_char(a % 10));
        assert(db.last() == digit_char(b % 10));
        lemma_digit_injective(a % 10, b % 10);
        lemma_decimal_injective(a / 10, b / 10);
    }
}

/// Each slot of the chain gets a macro of its own: step macros at different
/// positions have different names.
pub proof fn lemma_step_names_distinct(snake: Seq<char>, d: DeriveVariant, i: nat, j: nat)
    requires
        i != j,
    ensures
        step_macro_name(snake, d, i) != step_macro_name(snake, d, j),
{
    let prefix = "__"@ + snake + crate::slots::derive_tag(d) + "_step_"@;
    if step_macro_name(snake, d, i) == step_macro_name(snake, d, j) {
        assert(step_macro_name(snake, d, i) == prefix + decimal(i));
        assert(step_macro_name(snake, d, j) == prefix + decimal(j));
        assert((prefix + decimal(i)).skip(prefix.len() as int) =~= decimal(i));
        assert((prefix + decimal(j)).skip(prefix.len() as int) =~= decimal(j));
        lemma_decimal_injective(i, j);
    }
}

// ---------------------------------------------------------------- field checks

/// Some field that is kept is marked `nested`.
pub open spec fn kept_nested(fields: Seq<Field>, names: Seq<&'static str>) -> bool {
    exists|j: int|
        0 <= j < fields.len() && !left_out(#[trigger] fields[j], names) && marked_nested(
            fields[j],
            names,
        )
}

/// Where no kept field is nested, every slot of `slots` is a run of regular
/// fields.
proof fn lemma_no_nested_slot<R, N>(slots: Seq<Slot<R, N>>)
    requires
        forall|k: int| 0 <= k < flatten(slots).len() ==> #[trigger] flatten(slots)[k] is Regular,
    ensures
        !has_nested(slots),
{
    if has_nested(slots) {
        let i = choose|i: int| 0 <= i < slots.len() && #[trigger] slots[i] is Nested;
        lemma_flatten_has_nested(slots, i);
    }
}

/// Each position of the selection is a kept field.
proof fn lemma_selected_kept(
    fields: Seq<Field>,
    names: Seq<&'static str>,
    derive: DeriveVariant,
    features: Features,
    k: int,
)
    requires
        fields.len() <= usize::MAX,
        selection(fields, names, derive, features) matches Ok(sel) && 0 <= k < sel.len(),
    ensures
        selection(fields, names, derive, features) matches Ok(sel) && sel[k] < fields.len()
            && !left_out(fields[sel[k] as int], names),
{
    lemma_variants_follow_declaration_order(fields, names, derive, features);
    let sel = selection(fields, names, derive, features)->Ok_0;
    assert(sel[k] < fields.len());
    assert(exists|m: int| 0 <= m < sel.len() && sel[m] == sel[k] as int);
    assert(!left_out(fields[sel[k] as int], names));
}

/// `VerifyFieldName` checks a hand-written enum against exactly what
/// `FieldName` generates for the same struct: the same variants, in the same
/// order, each standing for the same field. (A kept nested field is the
/// exception: `FieldName` splices in the nested struct's variants, the check
/// expects one variant named after the field.)
pub proof fn lemma_verify_matches_field_name(
    input: DeriveInput,
    features: Features,
    d: DeriveFieldName,
    x: FieldNameExpansion,
    plan: VerifyFieldNamePlan,
)
    requires
        field_name_outcome(input, features, Ok(d)),
        name_expansion_of(d, x),
        verify_name_outcome(input, features, Ok(plan)),
        input.data matches Data::Struct(fields) && !kept_nested(fields@, name_field_attrs()),
    ensures
        x.body matches FieldNameBody::Simple { entries } && entries@.len() == plan.entries@.len()
            && forall|k: int|
            0 <= k < entries@.len() ==> (#[trigger] entries@[k]).variant_ident@
                == plan.entries@[k].variant_ident@ && entries@[k].field_name@
                == plan.entries@[k].field_name@,
{
    let fields = input.data->Struct_0;
    assert(fields.len() == fields@.len());
    let names = name_field_attrs();
    let sel = selection(fields@, names, DeriveVariant::Name, features)->Ok_0;
    let fl = flatten(d.slots());
    assert forall|k: int| 0 <= k < fl.len() implies #[trigger] fl[k] is Regular by {
        lemma_selected_kept(fields@, names, DeriveVariant::Name, features, k);
        let j = sel[k] as int;
        assert(!marked_nested(fields@[j], names));
        assert(name_item_for(fl[k], fields@[j], names));
    }
    lemma_no_nested_slot(d.slots());
    let entries = x.body->Simple_entries;
    assert forall|k: int| 0 <= k < entries@.len() implies (#[trigger] entries@[k]).variant_ident@
        == plan.entries@[k].variant_ident@ && entries@[k].field_name@
        == plan.entries@[k].field_name@ by {
        lemma_selected_kept(fields@, names, DeriveVariant::Name, features, k);
        let j = sel[k] as int;
        assert(regulars::<NamePair, String>(entries@)[k] == fl[k]);
        assert(name_item_for(fl[k], fields@[j], names));
        assert(names_field(
            fields@,
            sel[k],
            plan.entries@[k].field_name@,
            plan.entries@[k].variant_ident@,
        ));
    }
}

/// `VerifyFieldType` checks a hand-written enum against exactly what
/// `FieldType` generates for the same struct: the same variants, in the same
/// order, each holding the same field. (A kept nested field is the
/// exception, as for `FieldName`.)
pub proof fn lemma_verify_matches_field_type(
    input: DeriveInput,
    features: Features,
    d: DeriveFieldType,
    x: FieldTypeExpansion,
    plan: VerifyFieldTypePlan,
)
    requires
        field_type_outcome(input, features, Ok(d)),
        type_expansion_of(d, x),
        verify_type_outcome(input, features, Ok(plan)),
        input.data matches Data::Struct(fields) && !kept_nested(fields@, type_field_attrs()),
    ensures
        x.body matches FieldTypeBody::Simple { fields } && fields@.len() == plan.checks@.len()
            && forall|k: int|
            0 <= k < fields@.len() ==> {
                &&& (#[trigger] fields@[k]).variant_ident@ == plan.checks@[k].variant_ident@
                &&& fields@[k].field_ident@ == plan.checks@[k].field_ident@
                &&& fields@[k].field_index == plan.checks@[k].field_index
            },
{
    let fields = input.data->Struct_0;
    assert(fields.len() == fields@.len());
    let names = type_field_attrs();
    let sel = selection(fields@, names, DeriveVariant::Type, features)->Ok_0;
    let fl = flatten(d.slots());
    assert forall|k: int| 0 <= k < fl.len() implies #[trigger] fl[k] is Regular by {
        lemma_selected_kept(fields@, names, DeriveVariant::Type, features, k);
        let j = sel[k] as int;
        assert(!marked_nested(fields@[j], names));
        assert(type_item_for(fl[k], fields@[j], sel[k], names));
    }
    lemma_no_nested_slot(d.slots());
    let out = x.body->Simple_fields;
    assert forall|k: int| 0 <= k < out@.len() implies {
        &&& (#[trigger] out@[k]).variant_ident@ == plan.checks@[k].variant_ident@
        &&& out@[k].field_ident@ == plan.checks@[k].field_ident@
        &&& out@[k].field_index == plan.checks@[k].field_index
    } by {
        lemma_selected_kept(fields@, names, DeriveVariant::Type, features, k);
        let j = sel[k] as int;
        assert(regulars::<NormalField, NestedField>(out@)[k] == fl[k]);
        assert(type_item_for(fl[k], fields@[j], sel[k], names));
        assert(names_field(
            fields@,
            sel[k],
            plan.checks@[k].field_ident@,
            plan.checks@[k].variant_ident@,
        ));
    }
}

// ---------------------------------------------------------------- nested flattening

/// The entries a kept field stands for: a plain field its variant, a nested
/// field what the helper macro of the struct it names hands over.
pub open spec fn field_name_entries(
    f: Field,
    names: Seq<&'static str>,
    helpers: spec_fn(Seq<char>) -> Seq<NameEntry>,
) -> Seq<NameEntry> {
    if marked_nested(f, names) {
        match type_last_segment(f.ty) {
            Some(seg) => helpers(helper_macro_name(snake_case(seg), DeriveVariant::Name)),
            None => Seq::empty(),
        }
    } else {
        match f.ident {
            Some(id) => seq![(upper_camel_case(id@), id@)],
            None => Seq::empty(),
        }
    }
}

/// The entries of the fields at `sel`, in order.
pub open spec fn kept_name_entries(
    fields: Seq<Field>,
    names: Seq<&'static str>,
    sel: Seq<usize>,
    helpers: spec_fn(Seq<char>) -> Seq<NameEntry>,
) -> Seq<NameEntry>
    decreases sel.len(),
{
    if sel.len() == 0 {
        Seq::empty()
    } else {
        kept_name_entries(fields, names, sel.drop_last(), helpers) + field_name_entries(
            fields[sel.last() as int],
            names,
            helpers,
        )
    }
}

proof fn lemma_name_items_yield(
    items: Seq<SlotItem<NamePair, String>>,
    fields: Seq<Field>,
    names: Seq<&'static str>,
    sel: Seq<usize>,
    helpers: spec_fn(Seq<char>) -> Seq<NameEntry>,
)
    requires
        items.len() == sel.len(),
        forall|k: int|
            0 <= k < sel.len() ==> name_item_for(#[trigger] items[k], fields[sel[k] as int], names),
    ensures
        items_yield(items, name_entry(), name_helper(helpers)) == kept_name_entries(
            fields,
            names,
            sel,
            helpers,
        ),
    decreases sel.len(),
{
    if sel.len() > 0 {
        let n = sel.len() - 1;
        assert forall|k: int| 0 <= k < n implies name_item_for(
            #[trigger] items.drop_last()[k],
            fields[sel.drop_last()[k] as int],
            names,
        ) by {
            assert(items.drop_last()[k] == items[k]);
            assert(sel.drop_last()[k] == sel[k]);
        }
        lemma_name_items_yield(items.drop_last(), fields, names, sel.drop_last(), helpers);
        assert(name_item_for(items[n], fields[sel[n] as int], names));
        assert(item_yield(items.last(), name_entry(), name_helper(helpers)) == field_name_entries(
            fields[sel.last() as int],
            names,
            helpers,
        ));
    }
}

/// What `FieldName` generates for a struct hands over the struct's kept
/// fields in declaration order: each plain field its variant, and each
/// nested field, in its place, the variants the nested struct's helper macro
/// hands over (`helpers` says what each helper macro hands over).
pub proof fn lemma_field_name_flattens_in_place(
    input: DeriveInput,
    features: Features,
    d: DeriveFieldName,
    x: FieldNameExpansion,
    helpers: spec_fn(Seq<char>) -> Seq<NameEntry>,
)
    requires
        field_name_outcome(input, features, Ok(d)),
        name_expansion_of(d, x),
    ensures
        input.data matches Data::Struct(fields) && selection(
            fields@,
            name_field_attrs(),
            DeriveVariant::Name,
            features,
        ) matches Ok(sel) && name_yield(x, helpers) == kept_name_entries(
            fields@,
            name_field_attrs(),
            sel,
            helpers,
        ),
{
    let fields = input.data->Struct_0;
    let names = name_field_attrs();
    let sel = selection(fields@, names, DeriveVariant::Name, features)->Ok_0;
    let fl = flatten(d.slots());
    lemma_name_items_yield(fl, fields@, names, sel, helpers);
    match x.body {
        FieldNameBody::Simple { entries } => {
            lemma_run_yield::<NamePair, String, NameEntry>(entries@, name_entry(), name_helper(helpers));
        },
        FieldNameBody::Nested { builder_macro, steps } => {
            lemma_chain_yield(steps@, d.slots(), name_entry(), name_helper(helpers));
        },
    }
}

/// The entries a kept field stands for in `FieldType`'s enum.
pub open spec fn field_type_entries(
    f: Field,
    names: Seq<&'static str>,
    helpers: spec_fn(Seq<char>) -> Seq<TypeEntry>,
) -> Seq<TypeEntry> {
    match f.ident {
        Some(id) => if marked_nested(f, names) {
            match type_last_segment(f.ty) {
                Some(seg) => through(
                    id@,
                    helpers(helper_macro_name(snake_case(seg), DeriveVariant::Type)),
                ),
                None => Seq::empty(),
            }
        } else {
            seq![(upper_camel_case(id@), seq![id@])]
        },
        None => Seq::empty(),
    }
}

/// The entries of the fields at `sel`, in order.
pub open spec fn kept_type_entries(
    fields: Seq<Field>,
    names: Seq<&'static str>,
    sel: Seq<usize>,
    helpers: spec_fn(Seq<char>) -> Seq<TypeEntry>,
) -> Seq<TypeEntry>
    decreases sel.len(),
{
    if sel.len() == 0 {
        Seq::empty()
    } else {
        kept_type_entries(fields, names, sel.drop_last(), helpers) + field_type_entries(
            fields[sel.last() as int],
            names,
            helpers,
        )
    }
}

proof fn lemma_type_items_yield(
    items: Seq<SlotItem<NormalField, NestedField>>,
    fields: Seq<Field>,
    names: Seq<&'static str>,
    sel: Seq<usize>,
    helpers: spec_fn(Seq<char>) -> Seq<TypeEntry>,
)
    requires
        items.len() == sel.len(),
        forall|k: int|
            0 <= k < sel.len() ==> type_item_for(
                #[trigger] items[k],
                fields[sel[k] as int],
                sel[k],
                names,
            ),
    ensures
        items_yield(items, type_entry(), type_helper(helpers)) == kept_type_entries(
            fields,
            names,
            sel,
            helpers,
        ),
    decreases sel.len(),
{
    if sel.len() > 0 {
        let n = sel.len() - 1;
        assert forall|k: int| 0 <= k < n implies type_item_for(
            #[trigger] items.drop_last()[k],
            fields[sel.drop_last()[k] as int],
            sel.drop_last()[k],
            names,
        ) by {
            assert(items.drop_last()[k] == items[k]);
            assert(sel.drop_last()[k] == sel[k]);
        }
        lemma_type_items_yield(items.drop_last(), fields, names, sel.drop_last(), helpers);
        assert(type_item_for(items[n], fields[sel[n] as int], sel[n], names));
        assert(item_yield(items.last(), type_entry(), type_helper(helpers)) == field_type_entries(
            fields[sel.last() as int],
            names,
            helpers,
        ));
    }
}

/// What `FieldType` generates for a struct hands over the struct's kept
/// fields in declaration order: each plain field its variant, read from the
/// field, and each nested field, in its place, the variants the nested
/// struct's helper macro hands over, each read through the field.
pub proof fn lemma_field_type_flattens_in_place(
    input: DeriveInput,
    features: Features,
    d: DeriveFieldType,
    x: FieldTypeExpansion,
    helpers: spec_fn(Seq<char>) -> Seq<TypeEntry>,
)
    requires
        field_type_outcome(input, features, Ok(d)),
        type_expansion_of(d, x),
    ensures
        input.data matches Data::Struct(fields) && selection(
            fields@,
            type_field_attrs(),
            DeriveVariant::Type,
            features,
        ) matches Ok(sel) && type_yield(x, helpers) == kept_type_entries(
            fields@,
            type_field_attrs(),
            sel,
            helpers,
        ),
{
    let fields = input.data->Struct_0;
    let names = type_field_attrs();
    let sel = selection(fields@, names, DeriveVariant::Type, features)->Ok_0;
    let fl = flatten(d.slots());
    lemma_type_items_yield(fl, fields@, names, sel, helpers);
    match x.body {
        FieldTypeBody::Simple { fields: out } => {
            lemma_run_yield::<NormalField, NestedField, TypeEntry>(
                out@,
                type_entry(),
                type_helper(helpers),
            );
        },
        FieldTypeBody::Nested { builder_macro, steps } => {
            lemma_chain_yield(steps@, d.slots(), type_entry(), type_helper(helpers));
        },
    }
}

// ---------------------------------------------------------------- kept fields only

/// The entry's value is read from a field of `fields` that is kept: its path
/// starts at that field.
pub open spec fn reads_kept_field(fields: Seq<Field>, names: Seq<&'static str>, e: TypeEntry) -> bool {
    exists|j: int|
        {
            &&& 0 <= j < fields.len()
            &&& !left_out(#[trigger] fields[j], names)
            &&& fields[j].ident matches Some(id)
            &&& e.1.len() > 0
            &&& e.1[0] == id@
        }
}

proof fn lemma_kept_entries_read_kept_fields(
    fields: Seq<Field>,
    names: Seq<&'static str>,
    sel: Seq<usize>,
    helpers: spec_fn(Seq<char>) -> Seq<TypeEntry>,
)
    requires
        forall|k: int|
            0 <= k < sel.len() ==> #[trigger] sel[k] < fields.len() && !left_out(
                fields[sel[k] as int],
                names,
            ),
    ensures
        forall|m: int|
            0 <= m < kept_type_entries(fields, names, sel, helpers).len() ==> reads_kept_field(
                fields,
                names,
                #[trigger] kept_type_entries(fields, names, sel, helpers)[m],
            ),
    decreases sel.len(),
{
    if sel.len() > 0 {
        let init = sel.drop_last();
        assert forall|k: int| 0 <= k < init.len() implies #[trigger] init[k] < fields.len()
            && !left_out(fields[init[k] as int], names) by {
            assert(init[k] == sel[k]);
        }
        lemma_kept_entries_read_kept_fields(fields, names, init, helpers);
        let prev = kept_type_entries(fields, names, init, helpers);
        let j = sel.last() as int;
        assert(sel.last() == sel[sel.len() - 1]);
        let f = fields[j];
        let last = field_type_entries(f, names, helpers);
        let all = kept_type_entries(fields, names, sel, helpers);
        assert(all == prev + last);
        let id = f.ident->Some_0;
        assert forall|m: int| 0 <= m < last.len() implies reads_kept_field(
            fields,
            names,
            #[trigger] last[m],
        ) by {
            if marked_nested(f, names) {
                let seg = type_last_segment(f.ty)->Some_0;
                let hs = helpers(helper_macro_name(snake_case(seg), DeriveVariant::Type));
                assert(last == through(id@, hs));
                assert(last[m].1 == seq![id@] + hs[m].1);
                assert(last[m].1[0] == id@);
            } else {
                assert(last == seq![(upper_camel_case(id@), seq![id@])]);
            }
        }
        assert forall|m: int| 0 <= m < all.len() implies reads_kept_field(
            fields,
            names,
            #[trigger] all[m],
        ) by {
            if m < prev.len() {
                assert(all[m] == prev[m]);
            } else {
                assert(all[m] == last[m - prev.len()]);
            }
        }
    }
}

/// The conversion into the array of variants reads kept fields only: the
/// value of every variant, nested structs' variants included, is read from
/// a field that is neither skipped nor unnamed, so skipped fields never
/// reach the result.
pub proof fn lemma_conversion_reads_kept_fields(
    input: DeriveInput,
    features: Features,
    d: DeriveFieldType,
    x: FieldTypeExpansion,
    helpers: spec_fn(Seq<char>) -> Seq<TypeEntry>,
)
    requires
        field_type_outcome(input, features, Ok(d)),
        type_expansion_of(d, x),
    ensures
        input.data matches Data::Struct(fields) && forall|m: int|
            0 <= m < type_yield(x, helpers).len() ==> reads_kept_field(
                fields@,
                type_field_attrs(),
                #[trigger] type_yield(x, helpers)[m],
            ),
{
    let fields = input.data->Struct_0;
    assert(fields.len() == fields@.len());
    let names = type_field_attrs();
    let sel = selection(fields@, names, DeriveVariant::Type, features)->Ok_0;
    lemma_field_type_flattens_in_place(input, features, d, x, helpers);
    assert forall|k: int| 0 <= k < sel.len() implies #[trigger] sel[k] < fields@.len() && !left_out(
        fields@[sel[k] as int],
        names,
    ) by {
        lemma_selected_kept(fields@, names, DeriveVariant::Type, features, k);
    }
    lemma_kept_entries_read_kept_fields(fields@, names, sel, helpers);
}

// ---------------------------------------------------------------- struct attribute lists

/// No name occurs twice among `names`, from the `j`-th on.
pub open spec fn names_distinct_from(names: Seq<&'static str>, j: int) -> bool {
    forall|a: int, b: int| j <= a < b < names.len() ==> names[a]@ != names[b]@
}

/// `v` holds, in increasing order (strictly so where the names are
/// distinct), exactly the positions of the attributes whose path is one of
/// `names`.
pub open spec fn positions_of_named(attrs: Seq<Attribute>, names: Seq<&'static str>, v: Seq<usize>) -> bool {
    &&& forall|k: int, m: int| 0 <= k < m < v.len() ==> v[k] <= v[m]
    &&& names_distinct_from(names, 0) ==> forall|k: int, m: int| 0 <= k < m < v.len() ==> v[k] < v[m]
    &&& forall|k: int| 0 <= k < v.len() ==> #[trigger] v[k] < attrs.len()
    &&& forall|t: int|
        0 <= t < attrs.len() ==> (attr_named(#[trigger] attrs[t], names) <==> exists|k: int|
            0 <= k < v.len() && v[k] == t)
}

proof fn lemma_attr_lists_from(
    attr: Attribute,
    idx: usize,
    names: Seq<&'static str>,
    j: int,
    acc: Seq<usize>,
)
    requires
        0 <= j <= names.len(),
    ensures
        (attr_lists_from(attr, idx, names, j, acc) is Err) <==> (!(attr.meta is List) && exists|t: int|
            j <= t < names.len() && name_is(attr.name, #[trigger] names[t])),
        attr_lists_from(attr, idx, names, j, acc) matches Ok(a) ==> {
            &&& a.len() >= acc.len()
            &&& a.take(acc.len() as int) == acc
            &&& forall|m: int| acc.len() <= m < a.len() ==> #[trigger] a[m] == idx
            &&& (a.len() > acc.len() <==> exists|t: int|
                j <= t < names.len() && name_is(attr.name, #[trigger] names[t]))
            &&& names_distinct_from(names, j) ==> a.len() <= acc.len() + 1
        },
    decreases names.len() - j,
{
    if j < names.len() {
        if name_is(attr.name, names[j]) {
            if attr.meta is List {
                let acc2 = acc.push(idx);
                lemma_attr_lists_from(attr, idx, names, j + 1, acc2);
                let a = attr_lists_from(attr, idx, names, j + 1, acc2)->Ok_0;
                assert(a.take(acc2.len() as int) == acc2);
                assert(a.take(acc.len() as int) =~= acc2.take(acc.len() as int));
                assert(acc2.take(acc.len() as int) =~= acc);
                assert forall|m: int| acc.len() <= m < a.len() implies #[trigger] a[m] == idx by {
                    if m == acc.len() {
                        assert(a[m] == a.take(acc2.len() as int)[m]);
                    }
                }
                if names_distinct_from(names, j) {
                    assert(names_distinct_from(names, j + 1));
                    if exists|t: int| j + 1 <= t < names.len() && name_is(attr.name, #[trigger] names[t]) {
                        let t = choose|t: int|
                            j + 1 <= t < names.len() && name_is(attr.name, #[trigger] names[t]);
                        assert(names[j]@ != names[t]@);
                    }
                }
            }
        } else {
            lemma_attr_lists_from(attr, idx, names, j + 1, acc);
            if exists|t: int| j <= t < names.len() && name_is(attr.name, #[trigger] names[t]) {
                let t = choose|t: int| j <= t < names.len() && name_is(attr.name, #[trigger] names[t]);
                assert(t != j);
            }
        }
    } else {
        assert(acc.take(acc.len() as int) =~= acc);
    }
}

proof fn lemma_meta_lists_from(
    attrs: Seq<Attribute>,
    names: Seq<&'static str>,
    i: int,
    acc: Seq<usize>,
)
    requires
        0 <= i <= attrs.len(),
        attrs.len() <= usize::MAX,
        forall|k: int, m: int| 0 <= k < m < acc.len() ==> acc[k] <= acc[m],
        names_distinct_from(names, 0) ==> forall|k: int, m: int|
            0 <= k < m < acc.len() ==> acc[k] < acc[m],
        forall|k: int| 0 <= k < acc.len() ==> #[trigger] acc[k] < i,
        forall|t: int|
            0 <= t < i ==> (attr_named(#[trigger] attrs[t], names) <==> exists|k: int|
                0 <= k < acc.len() && acc[k] == t),
        forall|t: int| 0 <= t < i && attr_named(#[trigger] attrs[t], names) ==> attrs[t].meta is List,
    ensures
        (meta_lists_from(attrs, names, i, acc) is Ok) <==> forall|t: int|
            i <= t < attrs.len() && attr_named(#[trigger] attrs[t], names) ==> attrs[t].meta is List,
        meta_lists_from(attrs, names, i, acc) matches Ok(v) ==> positions_of_named(attrs, names, v),
    decreases attrs.len() - i,
{
    if i < attrs.len() {
        let attr = attrs[i];
        lemma_attr_lists_from(attr, i as usize, names, 0, acc);
        match attr_lists_from(attr, i as usize, names, 0, acc) {
            Err(e) => {
                let t0 = choose|t: int| 0 <= t < names.len() && name_is(attr.name, #[trigger] names[t]);
                assert(attr_named(attrs[i], names));
                assert(meta_lists_from(attrs, names, i, acc) is Err);
            },
            Ok(a) => {
                let n = acc.len() as int;
                assert forall|k: int| 0 <= k < n implies a[k] == #[trigger] acc[k] by {
                    assert(a.take(n)[k] == a[k]);
                }
                assert forall|k: int, m: int| 0 <= k < m < a.len() implies a[k] <= a[m] by {
                    if m < n {
                        assert(a[k] == acc[k] && a[m] == acc[m]);
                    } else if k < n {
                        assert(a[k] == acc[k]);
                        assert(a[m] == i as usize);
                    } else {
                        assert(a[k] == i as usize && a[m] == i as usize);
                    }
                }
                if names_distinct_from(names, 0) {
                    assert forall|k: int, m: int| 0 <= k < m < a.len() implies a[k] < a[m] by {
                        if m < n {
                            assert(a[k] == acc[k] && a[m] == acc[m]);
                        } else {
                            assert(a[m] == i as usize);
                            assert(a.len() <= n + 1);
                            assert(k < n);
                            assert(a[k] == acc[k]);
                        }
                    }
                }
                assert forall|k: int| 0 <= k < a.len() implies #[trigger] a[k] < i + 1 by {
                    if k < n {
                        assert(a[k] == acc[k]);
                    } else {
                        assert(a[k] == i as usize);
                    }
                }
                assert forall|t: int| 0 <= t < i + 1 implies (attr_named(#[trigger] attrs[t], names)
                    <==> exists|k: int| 0 <= k < a.len() && a[k] == t) by {
                    if t < i {
                        if exists|k: int| 0 <= k < acc.len() && acc[k] == t {
                            let k = choose|k: int| 0 <= k < acc.len() && acc[k] == t;
                            assert(a[k] == acc[k]);
                        }
                        if exists|k: int| 0 <= k < a.len() && a[k] == t {
                            let k = choose|k: int| 0 <= k < a.len() && a[k] == t;
                            if k >= n {
                                assert(a[k] == i as usize);
                            }
                            assert(a[k] == acc[k]);
                        }
                    } else {
                        if attr_named(attrs[t], names) {
                            assert(a[n] == i as usize);
                        }
                        if exists|k: int| 0 <= k < a.len() && a[k] == t {
                            let k = choose|k: int| 0 <= k < a.len() && a[k] == t;
                            if k < n {
                                assert(a[k] == acc[k]);
                            }
                        }
                    }
                }
                assert forall|t: int| 0 <= t < i + 1 && attr_named(#[trigger] attrs[t], names)
                    implies attrs[t].meta is List by {
                    if t == i {
                        let t0 = choose|u: int|
                            0 <= u < names.len() && name_is(attr.name, #[trigger] names[u]);
                    }
                }
                lemma_meta_lists_from(attrs, names, i + 1, a);
                assert(meta_lists_from(attrs, names, i, acc) == meta_lists_from(
                    attrs,
                    names,
                    i + 1,
                    a,
                ));
            },
        }
    } else {
        assert(meta_lists_from(attrs, names, i, acc) == Ok::<Seq<usize>, DeriveError>(acc));
        assert(forall|k: int, m: int| 0 <= k < m < acc.len() ==> acc[k] <= acc[m]);
        assert(forall|k: int| 0 <= k < acc.len() ==> #[trigger] acc[k] < attrs.len());
        assert(forall|t: int|
            0 <= t < attrs.len() ==> (attr_named(#[trigger] attrs[t], names) <==> exists|k: int|
                0 <= k < acc.len() && acc[k] == t));
        assert(positions_of_named(attrs, names, acc));
    }
}

/// `get_meta_list` collects every attribute whose path is one of the given
/// names, each once, in order: the result is an error exactly where such an
/// attribute is not a list; otherwise it lists, in increasing order (strictly
/// so where the names are distinct), exactly the positions of the
/// attributes whose path is one of the names.
pub proof fn lemma_meta_lists_collect_every_named_attribute(
    attrs: Seq<Attribute>,
    names: Seq<&'static str>,
)
    requires
        attrs.len() <= usize::MAX,
    ensures
        (meta_lists(attrs, names) is Ok) <==> forall|t: int|
            0 <= t < attrs.len() && attr_named(#[trigger] attrs[t], names) ==> attrs[t].meta is List,
        meta_lists(attrs, names) matches Ok(v) ==> positions_of_named(attrs, names, v),
{
    lemma_meta_lists_from(attrs, names, 0, Seq::empty());
}

// ---------------------------------------------------------------- derive paths

/// The token for the `k`-th segment of a path written from position `p`.
pub open spec fn segment_token(toks: Seq<Token>, p: int, k: int) -> Token {
    toks[p + 3 * k]
}

/// The two tokens of the `::` after the `k`-th segment.
pub open spec fn colons_after(toks: Seq<Token>, p: int, k: int) -> (Token, Token) {
    (toks[p + 3 * k + 1], toks[p + 3 * k + 2])
}

/// The position just after a path of `n` segments written from `p`.
pub open spec fn path_end(p: int, n: int) -> int {
    p + 3 * (n - 1) + 1
}

/// From position `p`, `toks` write the path `segs` in full: its identifiers
/// joined by `::`, and no further `::` after the last one.
pub open spec fn path_written_at(toks: Seq<Token>, p: int, segs: Seq<Seq<char>>) -> bool {
    &&& segs.len() >= 1
    &&& 0 <= p
    &&& p + 3 * (segs.len() - 1) < toks.len()
    &&& forall|k: int|
        0 <= k < segs.len() ==> (#[trigger] segment_token(toks, p, k) matches Token::Ident(s) && s@
            == segs[k])
    &&& forall|k: int|
        0 <= k < segs.len() - 1 ==> is_punct((#[trigger] colons_after(toks, p, k)).0, ':')
            && is_punct(colons_after(toks, p, k).1, ':')
    &&& path_end(p, segs.len() as int) >= toks.len() || !is_punct(
        toks[path_end(p, segs.len() as int)],
        ':',
    )
}

proof fn lemma_scan_path_written(
    toks: Seq<Token>,
    attr: usize,
    p: int,
    segs: Seq<Seq<char>>,
    m: int,
)
    requires
        path_written_at(toks, p, segs),
        0 <= m < segs.len(),
    ensures
        scan_path_from(toks, attr, p + 3 * m + 1, segs.take(m + 1)) == Ok::<
            (int, Seq<Seq<char>>),
            DeriveError,
        >((path_end(p, segs.len() as int), segs)),
    decreases segs.len() - m,
{
    let q = p + 3 * m + 1;
    if m == segs.len() - 1 {
        assert(segs.take(m + 1) =~= segs);
        assert(q == path_end(p, segs.len() as int));
    } else {
        let c = colons_after(toks, p, m);
        assert(c.0 == toks[q]);
        assert(is_punct(toks[q], ':'));
        let t = segment_token(toks, p, m + 1);
        assert(t == toks[q + 2]);
        assert(q + 2 < toks.len());
        let n = t->Ident_0;
        assert(segs.take(m + 1).push(n@) =~= segs.take(m + 2));
        lemma_scan_path_written(toks, attr, p, segs, m + 1);
        assert(p + 3 * (m + 1) + 1 == q + 3);
    }
}

/// A derive path written in full is read as one path: from where it starts,
/// the derive list reads all of its segments, `::` by `::`, as a single
/// derive, and goes on after its last segment.
pub proof fn lemma_derive_path_read_whole(
    toks: Seq<Token>,
    attr: usize,
    p: int,
    merge: bool,
    paths: Seq<Seq<Seq<char>>>,
    segs: Seq<Seq<char>>,
)
    requires
        path_written_at(toks, p, segs),
        segs[0] != "no_defaults"@,
    ensures
        scan_row_from(toks, attr, p, merge, paths) == scan_row_from(
            toks,
            attr,
            path_end(p, segs.len() as int),
            merge,
            paths.push(segs),
        ),
{
    let t = segment_token(toks, p, 0);
    assert(t == toks[p]);
    let id = t->Ident_0;
    assert(seq![id@] =~= segs.take(1));
    lemma_scan_path_written(toks, attr, p, segs, 0);
}

/// A derive list that is one path written in full gives exactly that path:
/// its derives are the path, then the default derives it does not name.
pub proof fn lemma_single_derive_path(attrs: Seq<Attribute>, r: usize, segs: Seq<Seq<char>>)
    requires
        r < attrs.len(),
        attrs[r as int].meta matches Meta::List { tokens, .. } && path_written_at(tokens@, 0, segs)
            && path_end(0, segs.len() as int) == tokens@.len(),
        segs[0] != "no_defaults"@,
    ensures
        enum_derives(attrs, seq![r]) == Ok::<Seq<Seq<Seq<char>>>, DeriveError>(
            merge_from(seq![segs], default_derive_names(), 0),
        ),
        enum_derives(attrs, seq![r]) matches Ok(ds) && ds.len() >= 1 && ds[0] == segs,
{
    let toks = attrs[r as int].meta->List_tokens@;
    lemma_derive_path_read_whole(toks, r, 0, true, Seq::empty(), segs);
    assert(Seq::<Seq<Seq<char>>>::empty().push(segs) =~= seq![segs]);
    assert(scan_row_from(toks, r, 0, true, Seq::empty()) == Ok::<
        (bool, Seq<Seq<Seq<char>>>),
        DeriveError,
    >((true, seq![segs])));
    let rows = seq![r];
    assert(scan_rows_from(attrs, rows, 1, true, seq![segs]) == Ok::<
        (bool, Seq<Seq<Seq<char>>>),
        DeriveError,
    >((true, seq![segs])));
    lemma_default_derives_merged(seq![segs]);
    let ds = merge_from(seq![segs], default_derive_names(), 0);
    assert(ds.take(1)[0] == ds[0]);
}

} // verus!
