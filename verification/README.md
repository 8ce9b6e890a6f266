# struct_to_enum

The logic of four derives that generate enums from the fields of a struct,
verified with Verus:

- `FieldName`: a unit enum `{Struct}FieldName` with one variant per field, in
  declaration order, and the `FieldNames` array of those variants. The enum
  derives `Debug, PartialEq, Eq, Clone, Copy` unless `no_defaults` is given;
  `#[stem_name_derive(..)]` adds derives, `#[stem_name_attr(..)]` attributes.
- `FieldType`: an enum `{Struct}FieldType` with one tuple variant per field,
  holding its value, and the conversion of the struct into the array of those
  variants (`From`, or `Into` for a generic struct).
- `VerifyFieldName` / `VerifyFieldType`: a test that a hand-written enum has
  exactly the variants the two derives would generate.

Fields marked `skip` are left out; fields marked `nested` are replaced, in
place, by the variants of the struct they hold, through a chain of helper
macros. Every `stem_` attribute has a `ste_` alias.

## Layout

- `src/`: the verified library. `model` is the derive input as plain values;
  `common`, `derive_list`, `slots`, `field_name`, `field_type` and `reverse`
  read it and plan the items to generate; `error` holds the refusals and their
  texts; `laws` states what holds of the derives as a whole. `case` calls
  `heck` behind trusted wrappers.
- `app/`: the token layer: `syn::DeriveInput` into the model (an attribute's
  list read as a path by `syn` on the compiler's tokens), and the plans out as
  tokens with `quote`.
- `tests/`: the derives on the crate's example structs, and the library's
  contracts on concrete values.
