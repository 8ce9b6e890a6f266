//! The `FieldName` derive: a unit enum with one variant per field, and the
//! `FieldNames` array of those variants in declaration order. Nested fields
//! are flattened into the enum through a chain of helper macros.

use vstd::prelude::*;

use crate::case::{snake_case, to_snake_case, upper_camel_case};
use crate::common::{
    extract_type_ident, filter_fields, get_meta_list, marked_nested, meta_lists, selection,
    DerivePath, DeriveVariant, Features, FieldInfo,
};
use crate::derive_list::{copy_paths, enum_derives, extract_enum_derives, paths_view};
use crate::error::DeriveError;
use crate::model::{Data, DeriveInput, Field, TypeShape};
use crate::text::{concat, two_names};
use crate::slots::{
    builder_macro_name, chain_yield, duplicate_slots, duplicate_vec, flatten,
    get_builder_macro_name, get_helper_macro_name, group_slots, helper_macro_name, items_yield,
    lemma_chain_yield, lemma_run_yield, plan_steps, regulars, slots_wf, steps_chain, Duplicate,
    Slot, SlotItem, StepMacro,
};

verus! {

/// A variant of the `FieldName` enum and the name of the field it stands for.
pub struct NamePair {
    pub variant_ident: String,
    pub field_name: String,
}

impl Duplicate for NamePair {
    fn duplicate(&self) -> (r: NamePair) {
        NamePair { variant_ident: self.variant_ident.clone(), field_name: self.field_name.clone() }
    }
}

/// The name of the type a field's type path ends in.
pub open spec fn type_last_segment(ty: TypeShape) -> Option<Seq<char>> {
    match ty {
        TypeShape::Path { segments } => if segments.len() > 0 {
            Some(segments@.last()@)
        } else {
            None
        },
        TypeShape::Other => None,
    }
}

/// The error a `nested` field at position `field` with type `ty` gives, if any.
pub open spec fn nested_type_error(ty: TypeShape, field: usize) -> Option<DeriveError> {
    match ty {
        TypeShape::Path { segments } => if segments.len() > 0 {
            None
        } else {
            Some(DeriveError::EmptyTypePath { field })
        },
        TypeShape::Other => Some(DeriveError::NestedNotPath { field }),
    }
}

/// The first error among the selected `nested` fields, from the `k`-th on.
pub open spec fn first_nested_error(
    fields: Seq<Field>,
    names: Seq<&'static str>,
    sel: Seq<usize>,
    k: int,
) -> Option<DeriveError>
    decreases sel.len() - k,
{
    if k < 0 || k >= sel.len() {
        None
    } else if marked_nested(fields[sel[k] as int], names) && nested_type_error(
        fields[sel[k] as int].ty,
        sel[k],
    ) is Some {
        nested_type_error(fields[sel[k] as int].ty, sel[k])
    } else {
        first_nested_error(fields, names, sel, k + 1)
    }
}

/// `item` stands for the field `f` in the `derive`'s slots: a nested field by
/// the helper macro of the type it names, any other field by its variant
/// (for `FieldName`: the variant's name and the field's name).
pub open spec fn name_item_for(item: SlotItem<NamePair, String>, f: Field, names: Seq<&'static str>) -> bool {
    if marked_nested(f, names) {
        &&& item matches SlotItem::Nested(h)
        &&& type_last_segment(f.ty) matches Some(seg)
        &&& h@ == helper_macro_name(snake_case(seg), DeriveVariant::Name)
    } else {
        &&& item matches SlotItem::Regular(p)
        &&& f.ident matches Some(id)
        &&& p.variant_ident@ == upper_camel_case(id@)
        &&& p.field_name@ == id@
    }
}

/// Some slot is a nested field.
pub open spec fn has_nested<R, N>(slots: Seq<Slot<R, N>>) -> bool {
    exists|i: int| 0 <= i < slots.len() && #[trigger] slots[i] is Nested
}

pub open spec fn name_derive_attrs() -> Seq<&'static str> {
    seq!["stem_name_derive", "ste_name_derive"]
}

pub open spec fn name_extra_attrs() -> Seq<&'static str> {
    seq!["stem_name_attr", "ste_name_attr"]
}

pub open spec fn name_field_attrs() -> Seq<&'static str> {
    seq!["stem_name", "ste_name"]
}

/// What `FieldName` reads from a struct: the names, the derives, the extra
/// attributes, and the fields in declaration order, grouped into slots.
pub struct DeriveFieldName {
    ident: String,
    enum_ident: String,
    enum_derives: Vec<DerivePath>,
    extra_attrs: Vec<usize>,
    slots: Vec<Slot<NamePair, String>>,
    type_snake: String,
}

/// The items `FieldName` generates for a struct.
pub struct FieldNameExpansion {
    /// The struct's name.
    pub struct_ident: String,
    /// The enum's name.
    pub enum_ident: String,
    /// The enum's derives.
    pub derives: Vec<DerivePath>,
    /// The struct attributes whose lists go onto the enum as attributes.
    pub extra_attrs: Vec<usize>,
    /// The helper macro the struct exports for structs that nest it.
    pub helper_macro: String,
    pub body: FieldNameBody,
}

/// How the enum comes about.
pub enum FieldNameBody {
    /// No nested field: the enum, the `FieldNames` array of
    /// `entries.len()` variants and the helper macro are written out directly.
    Simple { entries: Vec<NamePair> },
    /// Nested fields: the steps collect the variants, the struct's own and
    /// those of nested structs, and hand them to the builder macro, which
    /// writes the enum and the `FieldNames` array.
    Nested { builder_macro: String, steps: Vec<StepMacro<NamePair, String>> },
}

/// What `DeriveFieldName::new` gives for `input`: the refusals in the order
/// they are checked, and otherwise what the derive has read.
pub open spec fn field_name_outcome(
    input: DeriveInput,
    features: Features,
    r: Result<DeriveFieldName, DeriveError>,
) -> bool {
    match input.data {
        Data::Struct(fields) => match meta_lists(input.attrs@, name_derive_attrs()) {
            Err(e) => r == Err::<DeriveFieldName, DeriveError>(e),
            Ok(rows) => match enum_derives(input.attrs@, rows) {
                Err(e) => r == Err::<DeriveFieldName, DeriveError>(e),
                Ok(derives) => match meta_lists(input.attrs@, name_extra_attrs()) {
                    Err(e) => r == Err::<DeriveFieldName, DeriveError>(e),
                    Ok(extra) => match selection(
                        fields@,
                        name_field_attrs(),
                        DeriveVariant::Name,
                        features,
                    ) {
                        Err(e) => r == Err::<DeriveFieldName, DeriveError>(e),
                        Ok(sel) => if sel.len() == 0 {
                            r == Err::<DeriveFieldName, DeriveError>(
                                DeriveError::NoFields(DeriveVariant::Name),
                            )
                        } else {
                            match first_nested_error(fields@, name_field_attrs(), sel, 0) {
                                Some(e) => r == Err::<DeriveFieldName, DeriveError>(e),
                                None => {
                                    &&& r matches Ok(d)
                                    &&& d.struct_ident() == input.ident@
                                    &&& d.enum_name() == input.ident@ + "FieldName"@
                                    &&& d.derives() == derives
                                    &&& d.extra_attr_lists() == extra
                                    &&& d.snake() == snake_case(input.ident@)
                                    &&& slots_wf(d.slots())
                                    &&& flatten(d.slots()).len() == sel.len()
                                    &&& forall|k: int|
                                        0 <= k < sel.len() ==> name_item_for(
                                            #[trigger] flatten(d.slots())[k],
                                            fields@[sel[k] as int],
                                            name_field_attrs(),
                                        )
                                },
                            }
                        },
                    },
                },
            },
        },
        _ => r == Err::<DeriveFieldName, DeriveError>(
            DeriveError::NotAStruct(DeriveVariant::Name),
        ),
    }
}

impl DeriveFieldName {
    #[verifier::type_invariant]
    closed spec fn inv(self) -> bool {
        &&& slots_wf(self.slots@)
        &&& self.slots@.len() > 0
    }

    /// The struct's name.
    pub closed spec fn struct_ident(self) -> Seq<char> {
        self.ident@
    }

    /// The enum's name.
    pub closed spec fn enum_name(self) -> Seq<char> {
        self.enum_ident@
    }

    /// The enum's derives.
    pub closed spec fn derives(self) -> Seq<Seq<Seq<char>>> {
        paths_view(self.enum_derives@)
    }

    /// The struct attributes whose lists go onto the enum.
    pub closed spec fn extra_attr_lists(self) -> Seq<usize> {
        self.extra_attrs@
    }

    /// The struct's name in snake_case.
    pub closed spec fn snake(self) -> Seq<char> {
        self.type_snake@
    }

    /// The fields in declaration order, grouped into slots.
    pub closed spec fn slots(self) -> Seq<Slot<NamePair, String>> {
        self.slots@
    }

    /// Reads a struct for `FieldName`. Refused: anything but a struct; a
    /// `stem_name_derive` or `stem_name_attr` attribute (or its `ste_` alias)
    /// without a list; a malformed derive list; a nested field where nesting
    /// is not enabled; a struct with no field left; a nested field whose type
    /// is not a type path.
    pub fn new(input: DeriveInput, features: Features) -> (r: Result<DeriveFieldName, DeriveError>)
        ensures
            field_name_outcome(input, features, r),
    {
        let DeriveInput { ident, has_generics, attrs, data } = input;
        let fields = match data {
            Data::Struct(f) => f,
            _ => {
                return Err(DeriveError::NotAStruct(DeriveVariant::Name));
            },
        };
        let enum_ident = concat(ident.as_str(), "FieldName");
        let derive_names = two_names("stem_name_derive", "ste_name_derive");
        let rows = match get_meta_list(&attrs, derive_names.as_slice()) {
            Ok(v) => v,
            Err(e) => {
                return Err(e);
            },
        };
        let enum_derives = match extract_enum_derives(&attrs, &rows) {
            Ok(v) => v,
            Err(e) => {
                return Err(e);
            },
        };
        let attr_names = two_names("stem_name_attr", "ste_name_attr");
        let extra_attrs = match get_meta_list(&attrs, attr_names.as_slice()) {
            Ok(v) => v,
            Err(e) => {
                return Err(e);
            },
        };
        let field_names = two_names("stem_name", "ste_name");
        let infos = match filter_fields(&fields, field_names.as_slice(), DeriveVariant::Name, features) {
            Ok(v) => v,
            Err(e) => {
                return Err(e);
            },
        };
        if infos.len() == 0 {
            return Err(DeriveError::NoFields(DeriveVariant::Name));
        }
        let type_snake = to_snake_case(ident.as_str());
        proof {
            assert(infos_indices(infos@) =~= selection(
                fields@,
                name_field_attrs(),
                DeriveVariant::Name,
                features,
            )->Ok_0);
        }
        let items = match name_items(&fields, &infos) {
            Ok(v) => v,
            Err(e) => {
                return Err(e);
            },
        };
        let slots = group_slots(items);
        proof {
            crate::slots::lemma_flatten_len_zero(slots@);
        }
        Ok(DeriveFieldName { ident, enum_ident, enum_derives, extra_attrs, slots, type_snake })
    }
}

/// `x` is what `FieldName` generates for `d`.
pub open spec fn name_expansion_of(d: DeriveFieldName, x: FieldNameExpansion) -> bool {
    &&& x.struct_ident@ == d.struct_ident()
    &&& x.enum_ident@ == d.enum_name()
    &&& paths_view(x.derives@) == d.derives()
    &&& x.extra_attrs@ == d.extra_attr_lists()
    &&& x.helper_macro@ == helper_macro_name(d.snake(), DeriveVariant::Name)
    &&& if has_nested(d.slots()) {
        &&& x.body matches FieldNameBody::Nested { builder_macro, steps }
        &&& builder_macro@ == builder_macro_name(d.snake(), DeriveVariant::Name)
        &&& steps_chain(steps@, d.slots(), d.snake(), DeriveVariant::Name)
    } else {
        &&& x.body matches FieldNameBody::Simple { entries }
        &&& regulars::<NamePair, String>(entries@) == flatten(d.slots())
    }
}

impl DeriveFieldName {
    fn any_nested(&self) -> (r: bool)
        ensures
            r == has_nested(self.slots@),
    {
        let mut i: usize = 0;
        while i < self.slots.len()
            invariant
                i <= self.slots@.len(),
                forall|j: int| 0 <= j < i ==> !(#[trigger] self.slots@[j] is Nested),
            decreases self.slots@.len() - i,
        {
            if let Slot::Nested(_) = &self.slots[i] {
                return true;
            }
            i = i + 1;
        }
        false
    }

    /// The one run of fields of a struct without nested fields.
    fn get_fields_for_simple(&self) -> (r: &Vec<NamePair>)
        requires
            !has_nested(self.slots@),
        ensures
            self.slots@.len() == 1,
            self.slots@[0] == Slot::<NamePair, String>::Regular(*r),
    {
        proof {
            use_type_invariant(self);
            if self.slots@.len() > 1 {
                assert(!(self.slots@[0] is Nested));
                assert(!(self.slots@[1] is Nested));
            }
        }
        match &self.slots[0] {
            Slot::Regular(p) => p,
            Slot::Nested(_) => {
                assert(self.slots@[0] is Nested);
                vstd::pervasive::unreached()
            },
        }
    }

    fn header(&self, body: FieldNameBody) -> (r: FieldNameExpansion)
        ensures
            r.struct_ident@ == self.ident@,
            r.enum_ident@ == self.enum_ident@,
            paths_view(r.derives@) == paths_view(self.enum_derives@),
            r.extra_attrs@ == self.extra_attrs@,
            r.helper_macro@ == helper_macro_name(self.type_snake@, DeriveVariant::Name),
            r.body == body,
    {
        FieldNameExpansion {
            struct_ident: self.ident.clone(),
            enum_ident: self.enum_ident.clone(),
            derives: copy_paths(&self.enum_derives),
            extra_attrs: self.extra_attrs.clone(),
            helper_macro: get_helper_macro_name(self.type_snake.as_str(), DeriveVariant::Name),
            body,
        }
    }

    /// The items for a struct without nested fields.
    fn expand_simple(&self) -> (r: FieldNameExpansion)
        requires
            !has_nested(self.slots@),
        ensures
            name_expansion_of(*self, r),
            forall|helpers: spec_fn(Seq<char>) -> Seq<NameEntry>|
                #[trigger] name_yield(r, helpers) == items_yield(
                    flatten(self.slots@),
                    name_entry(),
                    name_helper(helpers),
                ),
    {
        let pairs = self.get_fields_for_simple();
        let entries = duplicate_vec(pairs);
        proof {
            crate::slots::lemma_flatten_one(self.slots@[0]);
            assert(self.slots@ =~= seq![self.slots@[0]]);
        }
        let r = self.header(FieldNameBody::Simple { entries });
        assert forall|helpers: spec_fn(Seq<char>) -> Seq<NameEntry>|
            #[trigger] name_yield(r, helpers) == items_yield(
                flatten(self.slots@),
                name_entry(),
                name_helper(helpers),
            ) by {
            lemma_run_yield::<NamePair, String, NameEntry>(entries@, name_entry(), name_helper(helpers));
        }
        r
    }

    /// The items for a struct with nested fields: the builder macro and the
    /// chain of step macros.
    fn expand_nested(&self) -> (r: FieldNameExpansion)
        requires
            has_nested(self.slots@),
        ensures
            name_expansion_of(*self, r),
            forall|helpers: spec_fn(Seq<char>) -> Seq<NameEntry>|
                #[trigger] name_yield(r, helpers) == items_yield(
                    flatten(self.slots@),
                    name_entry(),
                    name_helper(helpers),
                ),
    {
        let builder_macro = get_builder_macro_name(self.type_snake.as_str(), DeriveVariant::Name);
        let copies = duplicate_slots(&self.slots);
        let steps = plan_steps(copies, self.type_snake.as_str(), DeriveVariant::Name);
        let ghost chain = steps@;
        let r = self.header(FieldNameBody::Nested { builder_macro, steps });
        assert forall|helpers: spec_fn(Seq<char>) -> Seq<NameEntry>|
            #[trigger] name_yield(r, helpers) == items_yield(
                flatten(self.slots@),
                name_entry(),
                name_helper(helpers),
            ) by {
            lemma_chain_yield(chain, self.slots@, name_entry(), name_helper(helpers));
        }
        r
    }

    /// The items `FieldName` generates: written out directly when no field
    /// is nested, through the chain of step macros otherwise.
    pub fn expand(&self) -> (r: Result<FieldNameExpansion, DeriveError>)
        ensures
            r matches Ok(x) && name_expansion_of(*self, x),
            forall|helpers: spec_fn(Seq<char>) -> Seq<NameEntry>|
                #[trigger] name_yield(r->Ok_0, helpers) == items_yield(
                    flatten(self.slots()),
                    name_entry(),
                    name_helper(helpers),
                ),
    {
        if self.any_nested() {
            Ok(self.expand_nested())
        } else {
            Ok(self.expand_simple())
        }
    }
}

/// The fields of `infos`, in order, as slot items: a nested field by the
/// helper macro of the type it names, any other by its variant.
fn name_items(fields: &Vec<Field>, infos: &Vec<FieldInfo>) -> (r: Result<
    Vec<SlotItem<NamePair, String>>,
    DeriveError,
>)
    requires
        forall|k: int|
            0 <= k < infos@.len() ==> crate::common::describes(
                #[trigger] infos@[k],
                fields@,
                infos@[k].field_index,
                name_field_attrs(),
            ),
    ensures
        match first_nested_error(fields@, name_field_attrs(), infos_indices(infos@), 0) {
            Some(e) => r == Err::<Vec<SlotItem<NamePair, String>>, DeriveError>(e),
            None => r matches Ok(v) && v@.len() == infos@.len() && forall|k: int|
                0 <= k < infos@.len() ==> name_item_for(
                    #[trigger] v@[k],
                    fields@[infos@[k].field_index as int],
                    name_field_attrs(),
                ),
        },
{
    let mut items: Vec<SlotItem<NamePair, String>> = Vec::new();
    let mut k: usize = 0;
    while k < infos.len()
        invariant
            k <= infos@.len(),
            items@.len() == k,
            forall|m: int|
                0 <= m < infos@.len() ==> crate::common::describes(
                    #[trigger] infos@[m],
                    fields@,
                    infos@[m].field_index,
                    name_field_attrs(),
                ),
            forall|m: int|
                0 <= m < k ==> name_item_for(
                    #[trigger] items@[m],
                    fields@[infos@[m].field_index as int],
                    name_field_attrs(),
                ),
            first_nested_error(fields@, name_field_attrs(), infos_indices(infos@), k as int)
                == first_nested_error(fields@, name_field_attrs(), infos_indices(infos@), 0),
        decreases infos@.len() - k,
    {
        let info = &infos[k];
        assert(infos_indices(infos@)[k as int] == info.field_index);
        if info.is_nested {
            let idx = info.field_index;
            let inner = match extract_type_ident(&fields[idx].ty, idx) {
                Ok(s) => s,
                Err(e) => {
                    return Err(e);
                },
            };
            let inner_snake = to_snake_case(inner.as_str());
            items.push(SlotItem::Nested(get_helper_macro_name(inner_snake.as_str(), DeriveVariant::Name)));
        } else {
            items.push(
                SlotItem::Regular(
                    NamePair {
                        variant_ident: info.variant_ident.clone(),
                        field_name: info.field_ident.clone(),
                    },
                ),
            );
        }
        k = k + 1;
    }
    Ok(items)
}

/// The field positions of `infos`.
pub open spec fn infos_indices(infos: Seq<FieldInfo>) -> Seq<usize> {
    infos.map_values(|f: FieldInfo| f.field_index)
}

// ---------------------------------------------------------------- what the enum receives

/// A `FieldName` entry: the variant and the name of the field it stands for.
pub type NameEntry = (Seq<char>, Seq<char>);

pub open spec fn name_entry() -> spec_fn(NamePair) -> NameEntry {
    |p: NamePair| (p.variant_ident@, p.field_name@)
}

/// A nested struct's helper macro, called by its name, hands over what
/// `helpers` gives for that name.
pub open spec fn name_helper(helpers: spec_fn(Seq<char>) -> Seq<NameEntry>) -> spec_fn(String) -> Seq<
    NameEntry,
> {
    |h: String| helpers(h@)
}

/// The entries the items of a `FieldName` expansion hand over to the
/// builder macro (and to the struct's own helper macro's caller), given what
/// the helper macro of each nested struct hands over.
pub open spec fn name_yield(x: FieldNameExpansion, helpers: spec_fn(Seq<char>) -> Seq<NameEntry>) -> Seq<
    NameEntry,
> {
    match x.body {
        FieldNameBody::Simple { entries } => entries@.map_values(name_entry()),
        FieldNameBody::Nested { builder_macro, steps } => chain_yield(
            steps@,
            name_entry(),
            name_helper(helpers),
        ),
    }
}

} // verus!
