//! The `FieldType` derive: an enum with one tuple variant per field, holding
//! the field's value, and the conversion of the struct into the array of
//! those variants in declaration order. Nested fields are flattened into the
//! enum through a chain of helper macros, each nested value reached through
//! the path of fields that leads to it.

use vstd::prelude::*;

use crate::case::{snake_case, to_snake_case, upper_camel_case};
use crate::common::{
    describes, extract_type_ident, filter_fields, get_meta_list, marked_nested, meta_lists,
    selection, DeriveVariant, Features, FieldInfo,
};
use crate::error::DeriveError;
use crate::field_name::{
    first_nested_error, has_nested, infos_indices, type_last_segment,
};
use crate::model::{Data, DeriveInput, Field};
use crate::text::{concat, two_names};
use crate::slots::{
    builder_macro_name, chain_yield, flatten, get_builder_macro_name, get_helper_macro_name,
    group_slots, helper_macro_name, items_yield, lemma_chain_yield, lemma_run_yield, plan_steps,
    regulars, slots_wf, steps_chain, Slot, SlotItem, StepMacro,
};

verus! {

/// A regular field of a `FieldType` struct: its variant, its name, and its
/// position (the variant holds a value of that field's type).
pub struct NormalField {
    pub variant_ident: String,
    pub field_ident: String,
    pub field_index: usize,
}

/// A nested field of a `FieldType` struct: the helper macro of the type it
/// names, and the field's name (the step into the nested value).
pub struct NestedField {
    pub helper_macro: String,
    pub field_ident: String,
}

/// How the struct turns into the array of variants.
#[derive(Debug, Clone, Copy, PartialEq, Eq)]
pub enum Converter {
    /// `impl From<Struct> for [Enum; N]`, for a struct without generics.
    From,
    /// `impl<..> Into<[Enum<..>; N]> for Struct<..>`, for a generic struct.
    Into,
}

/// `item` stands for the field `f` at position `idx` in `FieldType`'s slots.
pub open spec fn type_item_for(
    item: SlotItem<NormalField, NestedField>,
    f: Field,
    idx: usize,
    names: Seq<&'static str>,
) -> bool {
    &&& f.ident matches Some(id)
    &&& if marked_nested(f, names) {
        &&& item matches SlotItem::Nested(n)
        &&& type_last_segment(f.ty) matches Some(seg)
        &&& n.helper_macro@ == helper_macro_name(snake_case(seg), DeriveVariant::Type)
        &&& n.field_ident@ == id@
    } else {
        &&& item matches SlotItem::Regular(n)
        &&& n.variant_ident@ == upper_camel_case(id@)
        &&& n.field_ident@ == id@
        &&& n.field_index == idx
    }
}

pub open spec fn type_derive_attrs() -> Seq<&'static str> {
    seq!["stem_type_derive", "ste_type_derive"]
}

pub open spec fn type_extra_attrs() -> Seq<&'static str> {
    seq!["stem_type_attr", "ste_type_attr"]
}

pub open spec fn type_field_attrs() -> Seq<&'static str> {
    seq!["stem_type", "ste_type"]
}

/// What `FieldType` reads from a struct.
pub struct DeriveFieldType {
    ident: String,
    enum_ident: String,
    derive_attr: Vec<usize>,
    extra_attrs: Vec<usize>,
    has_generics: bool,
    slots: Vec<Slot<NormalField, NestedField>>,
    type_snake: String,
}

/// The items `FieldType` generates for a struct.
pub struct FieldTypeExpansion {
    /// The struct's name.
    pub struct_ident: String,
    /// The enum's name; the enum has the struct's generic parameters.
    pub enum_ident: String,
    /// The struct attributes whose lists go, as they are, into the enum's
    /// `#[derive(..)]`.
    pub derive_lists: Vec<usize>,
    /// The struct attributes whose lists go onto the enum as attributes.
    pub extra_attrs: Vec<usize>,
    pub converter: Converter,
    /// The helper macro the struct exports for structs that nest it.
    pub helper_macro: String,
    pub body: FieldTypeBody,
}

/// How the enum comes about.
pub enum FieldTypeBody {
    /// No nested field: the enum and the conversion are written out directly,
    /// each variant built from the field of the same name.
    Simple { fields: Vec<NormalField> },
    /// Nested fields: the steps collect the variants, with the path of fields
    /// to each value, and hand them to the builder macro.
    Nested { builder_macro: String, steps: Vec<StepMacro<NormalField, NestedField>> },
}

/// What `DeriveFieldType::new` gives for `input`: the refusals in the order
/// they are checked, and otherwise what the derive has read.
pub open spec fn field_type_outcome(
    input: DeriveInput,
    features: Features,
    r: Result<DeriveFieldType, DeriveError>,
) -> bool {
    match meta_lists(input.attrs@, type_derive_attrs()) {
        Err(e) => r == Err::<DeriveFieldType, DeriveError>(e),
        Ok(derive_rows) => match meta_lists(input.attrs@, type_extra_attrs()) {
            Err(e) => r == Err::<DeriveFieldType, DeriveError>(e),
            Ok(extra) => match input.data {
                Data::Struct(fields) => match selection(
                    fields@,
                    type_field_attrs(),
                    DeriveVariant::Type,
                    features,
                ) {
                    Err(e) => r == Err::<DeriveFieldType, DeriveError>(e),
                    Ok(sel) => if sel.len() == 0 {
                        r == Err::<DeriveFieldType, DeriveError>(
                            DeriveError::NoFields(DeriveVariant::Type),
                        )
                    } else {
                        match first_nested_error(fields@, type_field_attrs(), sel, 0) {
                            Some(e) => r == Err::<DeriveFieldType, DeriveError>(e),
                            None => {
                                &&& r matches Ok(d)
                                &&& d.struct_ident() == input.ident@
                                &&& d.enum_name() == input.ident@ + "FieldType"@
                                &&& d.derive_lists() == derive_rows
                                &&& d.extra_attr_lists() == extra
                                &&& d.generic() == input.has_generics
                                &&& d.snake() == snake_case(input.ident@)
                                &&& slots_wf(d.slots())
                                &&& flatten(d.slots()).len() == sel.len()
                                &&& forall|k: int|
                                    0 <= k < sel.len() ==> type_item_for(
                                        #[trigger] flatten(d.slots())[k],
                                        fields@[sel[k] as int],
                                        sel[k],
                                        type_field_attrs(),
                                    )
                            },
                        }
                    },
                },
                _ => r == Err::<DeriveFieldType, DeriveError>(
                    DeriveError::NotAStruct(DeriveVariant::Type),
                ),
            },
        },
    }
}

impl DeriveFieldType {
    #[verifier::type_invariant]
    closed spec fn inv(self) -> bool {
        &&& slots_wf(self.slots@)
        &&& self.slots@.len() > 0
    }

    /// The struct's name.
    pub closed spec fn struct_ident(self) -> Seq<char> {
        self.ident@
    }

    /// The enum's name.
    pub closed spec fn enum_name(self) -> Seq<char> {
        self.enum_ident@
    }

    /// The struct attributes whose lists are the enum's derives.
    pub closed spec fn derive_lists(self) -> Seq<usize> {
        self.derive_attr@
    }

    /// The struct attributes whose lists go onto the enum.
    pub closed spec fn extra_attr_lists(self) -> Seq<usize> {
        self.extra_attrs@
    }

    /// Whether the struct is generic.
    pub closed spec fn generic(self) -> bool {
        self.has_generics
    }

    /// The struct's name in snake_case.
    pub closed spec fn snake(self) -> Seq<char> {
        self.type_snake@
    }

    /// The fields in declaration order, grouped into slots.
    pub closed spec fn slots(self) -> Seq<Slot<NormalField, NestedField>> {
        self.slots@
    }

    /// Reads a struct for `FieldType`. Refused: a `stem_type_derive` or
    /// `stem_type_attr` attribute (or its `ste_` alias) without a list;
    /// anything but a struct; a nested field where nesting is not enabled; a
    /// struct with no field left; a nested field whose type is not a type path.
    pub fn new(input: DeriveInput, features: Features) -> (r: Result<DeriveFieldType, DeriveError>)
        ensures
            field_type_outcome(input, features, r),
    {
        let DeriveInput { ident, has_generics, attrs, data } = input;
        let enum_ident = concat(ident.as_str(), "FieldType");
        let derive_names = two_names("stem_type_derive", "ste_type_derive");
        let derive_attr = match get_meta_list(&attrs, derive_names.as_slice()) {
            Ok(v) => v,
            Err(e) => {
                return Err(e);
            },
        };
        let attr_names = two_names("stem_type_attr", "ste_type_attr");
        let extra_attrs = match get_meta_list(&attrs, attr_names.as_slice()) {
            Ok(v) => v,
            Err(e) => {
                return Err(e);
            },
        };
        let fields = match data {
            Data::Struct(f) => f,
            _ => {
                return Err(DeriveError::NotAStruct(DeriveVariant::Type));
            },
        };
        let field_names = two_names("stem_type", "ste_type");
        let infos = match filter_fields(&fields, field_names.as_slice(), DeriveVariant::Type, features) {
            Ok(v) => v,
            Err(e) => {
                return Err(e);
            },
        };
        if infos.len() == 0 {
            return Err(DeriveError::NoFields(DeriveVariant::Type));
        }
        let type_snake = to_snake_case(ident.as_str());
        proof {
            assert(infos_indices(infos@) =~= selection(
                fields@,
                type_field_attrs(),
                DeriveVariant::Type,
                features,
            )->Ok_0);
        }
        let items = match type_items(&fields, &infos) {
            Ok(v) => v,
            Err(e) => {
                return Err(e);
            },
        };
        let slots = group_slots(items);
        proof {
            crate::slots::lemma_flatten_len_zero(slots@);
        }
        Ok(DeriveFieldType {
            ident,
            enum_ident,
            derive_attr,
            extra_attrs,
            has_generics,
            slots,
            type_snake,
        })
    }
}

/// The fields of `infos`, in order, as slot items.
fn type_items(fields: &Vec<Field>, infos: &Vec<FieldInfo>) -> (r: Result<
    Vec<SlotItem<NormalField, NestedField>>,
    DeriveError,
>)
    requires
        forall|k: int|
            0 <= k < infos@.len() ==> describes(
                #[trigger] infos@[k],
                fields@,
                infos@[k].field_index,
                type_field_attrs(),
            ),
    ensures
        match first_nested_error(fields@, type_field_attrs(), infos_indices(infos@), 0) {
            Some(e) => r == Err::<Vec<SlotItem<NormalField, NestedField>>, DeriveError>(e),
            None => r matches Ok(v) && v@.len() == infos@.len() && forall|k: int|
                0 <= k < infos@.len() ==> type_item_for(
                    #[trigger] v@[k],
                    fields@[infos@[k].field_index as int],
                    infos@[k].field_index,
                    type_field_attrs(),
                ),
        },
{
    let mut items: Vec<SlotItem<NormalField, NestedField>> = Vec::new();
    let mut k: usize = 0;
    while k < infos.len()
        invariant
            k <= infos@.len(),
            items@.len() == k,
            forall|m: int|
                0 <= m < infos@.len() ==> describes(
                    #[trigger] infos@[m],
                    fields@,
                    infos@[m].field_index,
                    type_field_attrs(),
                ),
            forall|m: int|
                0 <= m < k ==> type_item_for(
                    #[trigger] items@[m],
                    fields@[infos@[m].field_index as int],
                    infos@[m].field_index,
                    type_field_attrs(),
                ),
            first_nested_error(fields@, type_field_attrs(), infos_indices(infos@), k as int)
                == first_nested_error(fields@, type_field_attrs(), infos_indices(infos@), 0),
        decreases infos@.len() - k,
    {
        let info = &infos[k];
        assert(infos_indices(infos@)[k as int] == info.field_index);
        if info.is_nested {
            let idx = info.field_index;
            let inner = match extract_type_ident(&fields[idx].ty, idx) {
                Ok(s) => s,
                Err(e) => {
                    return Err(e);
                },
            };
            let inner_snake = to_snake_case(inner.as_str());
            items.push(
                SlotItem::Nested(
                    NestedField {
                        helper_macro: get_helper_macro_name(
                            inner_snake.as_str(),
                            DeriveVariant::Type,
                        ),
                        field_ident: info.field_ident.clone(),
                    },
                ),
            );
        } else {
            items.push(
                SlotItem::Regular(
                    NormalField {
                        variant_ident: info.variant_ident.clone(),
                        field_ident: info.field_ident.clone(),
                        field_index: info.field_index,
                    },
                ),
            );
        }
        k = k + 1;
    }
    Ok(items)
}

/// `x` is what `FieldType` generates for `d`.
pub open spec fn type_expansion_of(d: DeriveFieldType, x: FieldTypeExpansion) -> bool {
    &&& x.struct_ident@ == d.struct_ident()
    &&& x.enum_ident@ == d.enum_name()
    &&& x.derive_lists@ == d.derive_lists()
    &&& x.extra_attrs@ == d.extra_attr_lists()
    &&& x.converter == (if d.generic() {
        Converter::Into
    } else {
        Converter::From
    })
    &&& x.helper_macro@ == helper_macro_name(d.snake(), DeriveVariant::Type)
    &&& if has_nested(d.slots()) {
        &&& x.body matches FieldTypeBody::Nested { builder_macro, steps }
        &&& builder_macro@ == builder_macro_name(d.snake(), DeriveVariant::Type)
        &&& steps_chain(steps@, d.slots(), d.snake(), DeriveVariant::Type)
    } else {
        &&& x.body matches FieldTypeBody::Simple { fields }
        &&& regulars::<NormalField, NestedField>(fields@) == flatten(d.slots())
    }
}

impl DeriveFieldType {
    fn any_nested(&self) -> (r: bool)
        ensures
            r == has_nested(self.slots@),
    {
        let mut i: usize = 0;
        while i < self.slots.len()
            invariant
                i <= self.slots@.len(),
                forall|j: int| 0 <= j < i ==> !(#[trigger] self.slots@[j] is Nested),
            decreases self.slots@.len() - i,
        {
            if let Slot::Nested(_) = &self.slots[i] {
                return true;
            }
            i = i + 1;
        }
        false
    }

    /// The items `FieldType` generates: written out directly when no field
    /// is nested, through the chain of step macros otherwise.
    pub fn expand(self) -> (r: Result<FieldTypeExpansion, DeriveError>)
        ensures
            r matches Ok(x) && type_expansion_of(self, x),
            forall|helpers: spec_fn(Seq<char>) -> Seq<TypeEntry>|
                #[trigger] type_yield(r->Ok_0, helpers) == items_yield(
                    flatten(self.slots()),
                    type_entry(),
                    type_helper(helpers),
                ),
    {
        if self.any_nested() {
            Ok(self.expand_nested())
        } else {
            Ok(self.expand_simple())
        }
    }

    fn converter(&self) -> (r: Converter)
        ensures
            r == (if self.has_generics {
                Converter::Into
            } else {
                Converter::From
            }),
    {
        if self.has_generics {
            Converter::Into
        } else {
            Converter::From
        }
    }

    /// The items for a struct without nested fields.
    fn expand_simple(self) -> (r: FieldTypeExpansion)
        requires
            !has_nested(self.slots@),
        ensures
            type_expansion_of(self, r),
            forall|helpers: spec_fn(Seq<char>) -> Seq<TypeEntry>|
                #[trigger] type_yield(r, helpers) == items_yield(
                    flatten(self.slots@),
                    type_entry(),
                    type_helper(helpers),
                ),
    {
        proof {
            use_type_invariant(&self);
            if self.slots@.len() > 1 {
                assert(!(self.slots@[0] is Nested));
                assert(!(self.slots@[1] is Nested));
            }
            crate::slots::lemma_flatten_one(self.slots@[0]);
            assert(self.slots@ =~= seq![self.slots@[0]]);
        }
        let ghost whole = self;
        let converter = self.converter();
        let helper_macro = get_helper_macro_name(self.type_snake.as_str(), DeriveVariant::Type);
        let DeriveFieldType {
            ident,
            enum_ident,
            derive_attr,
            extra_attrs,
            has_generics,
            slots,
            type_snake,
        } = self;
        let mut slots = slots;
        let fields = match slots.remove(0) {
            Slot::Regular(v) => v,
            Slot::Nested(_) => {
                assert(whole.slots@[0] is Nested);
                vstd::pervasive::unreached()
            },
        };
        let r = FieldTypeExpansion {
            struct_ident: ident,
            enum_ident,
            derive_lists: derive_attr,
            extra_attrs,
            converter,
            helper_macro,
            body: FieldTypeBody::Simple { fields },
        };
        assert forall|helpers: spec_fn(Seq<char>) -> Seq<TypeEntry>|
            #[trigger] type_yield(r, helpers) == items_yield(
                flatten(whole.slots@),
                type_entry(),
                type_helper(helpers),
            ) by {
            lemma_run_yield::<NormalField, NestedField, TypeEntry>(
                r.body->Simple_fields@,
                type_entry(),
                type_helper(helpers),
            );
        }
        r
    }

    /// The items for a struct with nested fields.
    fn expand_nested(self) -> (r: FieldTypeExpansion)
        requires
            has_nested(self.slots@),
        ensures
            type_expansion_of(self, r),
            forall|helpers: spec_fn(Seq<char>) -> Seq<TypeEntry>|
                #[trigger] type_yield(r, helpers) == items_yield(
                    flatten(self.slots@),
                    type_entry(),
                    type_helper(helpers),
                ),
    {
        let converter = self.converter();
        let helper_macro = get_helper_macro_name(self.type_snake.as_str(), DeriveVariant::Type);
        let builder_macro = get_builder_macro_name(self.type_snake.as_str(), DeriveVariant::Type);
        let DeriveFieldType {
            ident,
            enum_ident,
            derive_attr,
            extra_attrs,
            has_generics,
            slots,
            type_snake,
        } = self;
        let ghost all = slots@;
        let steps = plan_steps(slots, type_snake.as_str(), DeriveVariant::Type);
        let ghost chain = steps@;
        let r = FieldTypeExpansion {
            struct_ident: ident,
            enum_ident,
            derive_lists: derive_attr,
            extra_attrs,
            converter,
            helper_macro,
            body: FieldTypeBody::Nested { builder_macro, steps },
        };
        assert forall|helpers: spec_fn(Seq<char>) -> Seq<TypeEntry>|
            #[trigger] type_yield(r, helpers) == items_yield(
                flatten(all),
                type_entry(),
                type_helper(helpers),
            ) by {
            lemma_chain_yield(chain, all, type_entry(), type_helper(helpers));
        }
        r
    }
}

// ---------------------------------------------------------------- what the enum receives

/// A `FieldType` entry: the variant and the path of fields its value is read
/// from.
pub type TypeEntry = (Seq<char>, Seq<Seq<char>>);

pub open spec fn type_entry() -> spec_fn(NormalField) -> TypeEntry {
    |f: NormalField| (f.variant_ident@, seq![f.field_ident@])
}

/// Entries of a nested struct, read through the field `field`.
pub open spec fn through(field: Seq<char>, es: Seq<TypeEntry>) -> Seq<TypeEntry> {
    es.map_values(|e: TypeEntry| (e.0, seq![field] + e.1))
}

/// A nested field's slot hands over what the nested struct's helper macro
/// hands over, each value read through the field.
pub open spec fn type_helper(helpers: spec_fn(Seq<char>) -> Seq<TypeEntry>) -> spec_fn(NestedField) -> Seq<
    TypeEntry,
> {
    |n: NestedField| through(n.field_ident@, helpers(n.helper_macro@))
}

/// The entries the items of a `FieldType` expansion hand over, given what
/// the helper macro of each nested struct hands over.
pub open spec fn type_yield(x: FieldTypeExpansion, helpers: spec_fn(Seq<char>) -> Seq<TypeEntry>) -> Seq<
    TypeEntry,
> {
    match x.body {
        FieldTypeBody::Simple { fields } => fields@.map_values(type_entry()),
        FieldTypeBody::Nested { builder_macro, steps } => chain_yield(
            steps@,
            type_entry(),
            type_helper(helpers),
        ),
    }
}

} // verus!
