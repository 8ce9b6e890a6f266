//! The library's own contracts on concrete values: each error and where it
//! points, the `no_defaults` flag, the field-checking derives, the names of
//! the helper macros, and the properties the proofs state.

use struct_to_enum::common::{
    extract_type_ident, filter_fields, get_attr_value, get_meta_list, has_attr_with_value,
    path_to_string, selected_fields, DerivePath, DeriveVariant, Features,
};
use struct_to_enum::derive_list::extract_enum_derives;
use struct_to_enum::error::{DeriveError, ErrorSpan};
use struct_to_enum::field_name::{DeriveFieldName, FieldNameBody, FieldNameExpansion};
use struct_to_enum::field_type::{DeriveFieldType, FieldTypeBody, FieldTypeExpansion};
use struct_to_enum::model::{Attribute, Data, DeriveInput, Field, Meta, Token, TypeShape};
use struct_to_enum::reverse::{
    expand_verify_field_name, expand_verify_field_type, get_enum_path, verify_field_name_plan,
    verify_field_type_plan, EnumPath,
};
use struct_to_enum::slots::{
    get_builder_macro_name, get_helper_macro_name, get_step_macro_name, group_slots, plan_steps,
    Slot, SlotItem,
};
use struct_to_enum::text::{push_decimal, str_eq, trim_quote_marks};

// ---------------------------------------------------------------- building inputs

fn ident(s: &str) -> Token {
    Token::Ident(s.to_string())
}

fn punct(c: char) -> Token {
    Token::Punct(c)
}

/// The list read as a path, as the token layer reads it.
fn path_of(text: &str) -> Result<Vec<String>, String> {
    match syn::parse_str::<syn::Path>(text) {
        Ok(p) => Ok(p.segments.iter().map(|s| s.ident.to_string()).collect()),
        Err(e) => Err(e.to_string()),
    }
}

fn list_tokens(name: &str, tokens: Vec<Token>, text: &str) -> Attribute {
    Attribute {
        name: Some(name.to_string()),
        meta: Meta::List { tokens, text: text.to_string(), path: path_of(text) },
    }
}

/// `#[name(a, b, ..)]` with identifiers only.
fn list(name: &str, idents: &[&str]) -> Attribute {
    let mut tokens = Vec::new();
    for (i, id) in idents.iter().enumerate() {
        if i > 0 {
            tokens.push(punct(','));
        }
        tokens.push(ident(id));
    }
    list_tokens(name, tokens, &idents.join(", "))
}

fn path_attr(name: &str) -> Attribute {
    Attribute { name: Some(name.to_string()), meta: Meta::Path }
}

fn name_value(name: &str, value: &str) -> Attribute {
    Attribute { name: Some(name.to_string()), meta: Meta::NameValue { value: value.to_string() } }
}

fn path_ty(segments: &[&str]) -> TypeShape {
    TypeShape::Path { segments: segments.iter().map(|s| s.to_string()).collect() }
}

fn fa(name: &str, ty: &str, attrs: Vec<Attribute>) -> Field {
    Field { ident: Some(name.to_string()), ty: path_ty(&[ty]), attrs }
}

fn f(name: &str) -> Field {
    fa(name, "i32", Vec::new())
}

fn item(name: &str, attrs: Vec<Attribute>, fields: Vec<Field>) -> DeriveInput {
    DeriveInput { ident: name.to_string(), has_generics: false, attrs, data: Data::Struct(fields) }
}

fn all_features() -> Features {
    Features { nested_type: true, nested_name: true }
}

fn no_features() -> Features {
    Features { nested_type: false, nested_name: false }
}

fn name_expansion(input: DeriveInput) -> FieldNameExpansion {
    match DeriveFieldName::new(input, all_features()) {
        Ok(d) => match d.expand() {
            Ok(x) => x,
            Err(e) => panic!("{:?}", e),
        },
        Err(e) => panic!("{:?}", e),
    }
}

fn type_expansion(input: DeriveInput) -> FieldTypeExpansion {
    match DeriveFieldType::new(input, all_features()) {
        Ok(d) => match d.expand() {
            Ok(x) => x,
            Err(e) => panic!("{:?}", e),
        },
        Err(e) => panic!("{:?}", e),
    }
}

fn name_error(input: DeriveInput, features: Features) -> DeriveError {
    match DeriveFieldName::new(input, features) {
        Ok(_) => panic!("FieldName accepted the input"),
        Err(e) => e,
    }
}

fn type_error(input: DeriveInput, features: Features) -> DeriveError {
    match DeriveFieldType::new(input, features) {
        Ok(_) => panic!("FieldType accepted the input"),
        Err(e) => e,
    }
}

fn derives_of(x: &FieldNameExpansion) -> Vec<String> {
    x.derives.iter().map(path_to_string).collect()
}

fn entries_of(x: &FieldNameExpansion) -> Vec<String> {
    match &x.body {
        FieldNameBody::Simple { entries } => entries.iter().map(|p| p.variant_ident.clone()).collect(),
        FieldNameBody::Nested { .. } => panic!("expected no nested field"),
    }
}

fn strs(v: &[&str]) -> Vec<String> {
    v.iter().map(|s| s.to_string()).collect()
}

// ---------------------------------------------------------------- refused inputs

#[test]
fn field_name_on_an_enum_is_refused() {
    let input = DeriveInput { ident: "E".to_string(), has_generics: false, attrs: vec![], data: Data::Enum };
    let e = name_error(input, all_features());
    assert!(matches!(e, DeriveError::NotAStruct(DeriveVariant::Name)));
    assert_eq!(e.message(), "FieldName can only be derived for structs");
    assert_eq!(e.span(), ErrorSpan::Ident);
}

#[test]
fn field_type_on_a_union_is_refused() {
    let input = DeriveInput { ident: "U".to_string(), has_generics: false, attrs: vec![], data: Data::Union };
    let e = type_error(input, all_features());
    assert!(matches!(e, DeriveError::NotAStruct(DeriveVariant::Type)));
    assert_eq!(e.message(), "FieldType can only be derived for structs");
}

#[test]
fn a_struct_without_fields_left_is_refused() {
    let all_skipped = || item("S", vec![], vec![fa("a", "i32", vec![list("stem_name", &["skip"]), list("stem_type", &["skip"])])]);
    let e = name_error(all_skipped(), all_features());
    assert!(matches!(e, DeriveError::NoFields(DeriveVariant::Name)));
    assert_eq!(e.message(), "FieldName can only be derived for non-empty structures");
    assert_eq!(e.span(), ErrorSpan::Ident);
    let e = type_error(all_skipped(), all_features());
    assert!(matches!(e, DeriveError::NoFields(DeriveVariant::Type)));
    assert_eq!(e.message(), "FieldType can only be derived for non-empty structs");
}

#[test]
fn a_tuple_struct_has_no_fields_to_name() {
    let tuple = item("T", vec![], vec![Field { ident: None, ty: path_ty(&["u8"]), attrs: vec![] }]);
    assert!(matches!(name_error(tuple, all_features()), DeriveError::NoFields(DeriveVariant::Name)));
}

#[test]
fn a_derive_attribute_without_list_is_refused() {
    let input = item("S", vec![list("stem_name_attr", &["x"]), path_attr("stem_name_derive")], vec![f("a")]);
    let e = name_error(input, all_features());
    assert!(matches!(e, DeriveError::ExpectedList { attr: 1, name: "stem_name_derive" }));
    assert_eq!(e.message(), "expected at least 1 argument in parentheses: #[stem_name_derive(...)]");
    assert_eq!(e.span(), ErrorSpan::Attr(1));

    let input = item("S", vec![name_value("ste_type_attr", "\"x\"")], vec![f("a")]);
    let e = type_error(input, all_features());
    assert!(matches!(e, DeriveError::ExpectedList { attr: 0, name: "ste_type_attr" }));
    assert_eq!(e.message(), "expected at least 1 argument in parentheses: #[ste_type_attr(...)]");
}

#[test]
fn a_bare_field_attribute_has_no_value() {
    let r = get_attr_value(&path_attr("stem_name"), &["stem_name", "ste_name"]);
    let e = match r {
        Err(e) => e,
        Ok(_) => panic!("a bare attribute has no value"),
    };
    assert!(matches!(e, DeriveError::UnknownAttrFormat));
    assert_eq!(e.message(), "Unknown attribute format");
    assert_eq!(e.span(), ErrorSpan::ReadAttr);
    // The derives pass over it: the field stays.
    let x = name_expansion(item("S", vec![], vec![fa("a", "i32", vec![path_attr("stem_name")])]));
    assert_eq!(entries_of(&x), strs(&["A"]));
}

#[test]
fn nesting_needs_the_feature() {
    let input = || item("S", vec![], vec![f("a"), fa("inner", "Inner", vec![list("stem_name", &["nested"]), list("stem_type", &["nested"])])]);
    let e = name_error(input(), no_features());
    assert!(matches!(e, DeriveError::NestedUnsupported { field: 1, derive: DeriveVariant::Name }));
    assert_eq!(e.message(), "nested fields are not supported without the 'nested-name' feature");
    assert_eq!(e.span(), ErrorSpan::Field(1));
    let e = type_error(input(), Features { nested_type: false, nested_name: true });
    assert!(matches!(e, DeriveError::NestedUnsupported { field: 1, derive: DeriveVariant::Type }));
    assert_eq!(e.message(), "nested fields are not supported without the 'nested-type' feature");
}

#[test]
fn a_nested_field_needs_a_type_path() {
    let input = item(
        "S",
        vec![],
        vec![f("a"), Field { ident: Some("t".to_string()), ty: TypeShape::Other, attrs: vec![list("stem_name", &["nested"])] }],
    );
    let e = name_error(input, all_features());
    assert!(matches!(e, DeriveError::NestedNotPath { field: 1 }));
    assert_eq!(e.message(), "nested attribute can only be used with named struct types");
    assert_eq!(e.span(), ErrorSpan::FieldType(1));

    let input = item(
        "S",
        vec![],
        vec![Field { ident: Some("t".to_string()), ty: path_ty(&[]), attrs: vec![list("stem_type", &["nested"])] }],
    );
    let e = type_error(input, all_features());
    assert!(matches!(e, DeriveError::EmptyTypePath { field: 0 }));
    assert_eq!(e.message(), "Type path must have at least one segment");
    assert_eq!(e.span(), ErrorSpan::FieldType(0));
}

#[test]
fn a_malformed_no_defaults_flag_is_refused() {
    let attr = list_tokens("stem_name_derive", vec![ident("Debug"), punct(','), ident("no_defaults"), punct('='), ident("maybe")], "Debug, no_defaults = maybe");
    let e = name_error(item("S", vec![attr], vec![f("a")]), all_features());
    assert!(matches!(e, DeriveError::NoDefaultsValue { attr: 0, pos: 4 }));
    assert_eq!(e.message(), "expected `true` or `false` for `no_defaults` flag");
    assert_eq!(e.span(), ErrorSpan::Token { attr: 0, pos: 4 });

    let attr = list_tokens("stem_name_derive", vec![ident("no_defaults"), punct('=')], "no_defaults =");
    let e = name_error(item("S", vec![attr], vec![f("a")]), all_features());
    assert!(matches!(e, DeriveError::NoDefaultsEnd));
    assert_eq!(e.message(), "unexpected end of input: expected `true` or `false` after `no_defaults =`");
    assert_eq!(e.span(), ErrorSpan::CallSite);
}

#[test]
fn a_malformed_derive_path_is_refused() {
    let attr = list_tokens("stem_name_derive", vec![ident("serde"), punct(':'), punct(':')], "serde::");
    let e = name_error(item("S", vec![attr], vec![f("a")]), all_features());
    assert!(matches!(e, DeriveError::SegmentEnd));
    assert_eq!(e.message(), "unexpected end of input: expected identifier after `::`");

    let attr = list_tokens(
        "stem_name_derive",
        vec![ident("serde"), punct(':'), punct(':'), Token::Other("\"x\"".to_string())],
        "serde::\"x\"",
    );
    let e = name_error(item("S", vec![attr], vec![f("a")]), all_features());
    assert!(matches!(e, DeriveError::SegmentExpected { attr: 0, pos: 3 }));
    assert_eq!(e.message(), "expected identifier after `::`");
    assert_eq!(e.span(), ErrorSpan::Token { attr: 0, pos: 3 });

    let attr = list_tokens("stem_name_derive", vec![Token::Other("\"Debug\"".to_string())], "\"Debug\"");
    let e = name_error(item("S", vec![attr], vec![f("a")]), all_features());
    assert!(matches!(e, DeriveError::UnexpectedToken { attr: 0, pos: 0 }));
    assert_eq!(e.message(), "unexpected token in derive attribute");
}

// ---------------------------------------------------------------- no_defaults

fn derives_with(attrs: Vec<Attribute>) -> Vec<String> {
    derives_of(&name_expansion(item("S", attrs, vec![f("a")])))
}

#[test]
fn no_defaults_alone_removes_the_defaults() {
    assert_eq!(derives_with(vec![list("stem_name_derive", &["Hash", "no_defaults"])]), strs(&["Hash"]));
    assert_eq!(derives_with(vec![list("stem_name_derive", &["no_defaults"])]), Vec::<String>::new());
}

#[test]
fn no_defaults_true_and_false() {
    let flag = |v: &str| {
        list_tokens(
            "ste_name_derive",
            vec![ident("Debug"), punct(','), ident("no_defaults"), punct('='), ident(v)],
            "",
        )
    };
    assert_eq!(derives_with(vec![flag("true")]), strs(&["Debug"]));
    assert_eq!(derives_with(vec![flag("false")]), strs(&["Debug", "PartialEq", "Eq", "Clone", "Copy"]));
}

#[test]
fn derive_lists_of_several_attributes_are_read_in_order() {
    let derives = derives_with(vec![
        list("stem_name_derive", &["Hash"]),
        list("stem_name_attr", &["non_exhaustive"]),
        list("ste_name_derive", &["Copy"]),
    ]);
    assert_eq!(derives, strs(&["Hash", "Copy", "Debug", "PartialEq", "Eq", "Clone"]));
}

// ---------------------------------------------------------------- field-checking derives

fn reverse_input(attr: Attribute, fields: Vec<Field>) -> DeriveInput {
    item("User", vec![attr], fields)
}

#[test]
fn verify_field_name_checks_the_named_enum() {
    let input = reverse_input(
        list("stem_reverse_name", &["UserFieldName"]),
        vec![f("id"), f("user_name"), fa("internal_token", "String", vec![list("stem_name", &["skip"])])],
    );
    let plan = match expand_verify_field_name(input, all_features()) {
        Ok(p) => p,
        Err(e) => panic!("{:?}", e),
    };
    assert_eq!(plan.test_mod, "__verify_user_field_name");
    assert_eq!(plan.test_fn, "verify_user_matches_field_name");
    assert_eq!(plan.enum_path.attr, 0);
    assert_eq!(plan.enum_path.path.segments, strs(&["UserFieldName"]));
    let entries: Vec<(String, String)> =
        plan.entries.iter().map(|p| (p.variant_ident.clone(), p.field_name.clone())).collect();
    assert_eq!(entries, vec![
        ("Id".to_string(), "id".to_string()),
        ("UserName".to_string(), "user_name".to_string()),
    ]);
}

#[test]
fn verify_field_type_checks_the_named_enum() {
    let input = item(
        "Config",
        vec![list_tokens("ste_reverse_type", vec![ident("crate"), punct(':'), punct(':'), ident("ConfigFieldType")], "crate::ConfigFieldType")],
        vec![f("width"), f("height"), fa("name", "String", vec![list("stem_type", &["skip"])])],
    );
    let plan = match expand_verify_field_type(input, all_features()) {
        Ok(p) => p,
        Err(e) => panic!("{:?}", e),
    };
    assert_eq!(plan.test_mod, "__verify_config_field_type");
    assert_eq!(plan.test_fn, "verify_config_matches_field_type");
    assert_eq!(plan.enum_path.attr, 0);
    assert_eq!(plan.enum_path.path.segments, strs(&["crate", "ConfigFieldType"]));
    let checks: Vec<(String, String, usize, String)> = plan
        .checks
        .iter()
        .map(|c| (c.variant_ident.clone(), c.field_ident.clone(), c.field_index, c.check_fn.clone()))
        .collect();
    assert_eq!(checks, vec![
        ("Width".to_string(), "width".to_string(), 0, "__check_type_0".to_string()),
        ("Height".to_string(), "height".to_string(), 1, "__check_type_1".to_string()),
    ]);
}

#[test]
fn verify_derives_report_their_errors() {
    let e = match expand_verify_field_name(item("User", vec![], vec![f("id")]), all_features()) {
        Err(e) => e,
        Ok(_) => panic!("the enum attribute is missing"),
    };
    assert!(matches!(e, DeriveError::MissingEnumAttr { name: "stem_reverse_name" }));
    assert_eq!(e.message(), "missing required attribute: #[stem_reverse_name(EnumName)]");
    assert_eq!(e.span(), ErrorSpan::CallSite);

    let e = match expand_verify_field_type(item("User", vec![path_attr("stem_reverse_type")], vec![f("id")]), all_features()) {
        Err(e) => e,
        Ok(_) => panic!("the enum attribute is no list"),
    };
    assert!(matches!(e, DeriveError::EnumAttrNotList { attr: 0, name: "stem_reverse_type" }));
    assert_eq!(e.message(), "expected #[stem_reverse_type(EnumName)]");
    assert_eq!(e.span(), ErrorSpan::Attr(0));

    let enum_input = DeriveInput {
        ident: "E".to_string(),
        has_generics: false,
        attrs: vec![list("stem_reverse_name", &["EFieldName"])],
        data: Data::Enum,
    };
    let e = match expand_verify_field_name(enum_input, all_features()) {
        Err(e) => e,
        Ok(_) => panic!("an enum is no struct"),
    };
    assert!(matches!(e, DeriveError::VerifyNotAStruct(DeriveVariant::Name)));
    assert_eq!(e.message(), "VerifyFieldName can only be derived for structs");
}

#[test]
fn an_enum_attribute_that_is_no_path_gives_the_parser_message() {
    let attrs = vec![list_tokens("stem_reverse_name", vec![Token::Other("1".to_string())], "1 + 2")];
    let e = match get_enum_path(&attrs, &["stem_reverse_name", "ste_reverse_name"]) {
        Err(e) => e,
        Ok(_) => panic!("`1 + 2` is no path"),
    };
    let expected = match syn::parse_str::<syn::Path>("1 + 2") {
        Err(err) => err.to_string(),
        Ok(_) => panic!("`1 + 2` is no path"),
    };
    assert!(!expected.is_empty());
    assert!(matches!(&e, DeriveError::EnumPath { attr: 0, .. }));
    assert_eq!(e.message(), expected);
    assert_eq!(e.span(), ErrorSpan::Attr(0));
}

// ---------------------------------------------------------------- names

#[test]
fn variant_names_are_upper_camel_case() {
    let fields = vec![f("x_min"), f("second_field"), f("a")];
    let infos = match filter_fields(&fields, &["stem_name"], DeriveVariant::Name, all_features()) {
        Ok(v) => v,
        Err(e) => panic!("{:?}", e),
    };
    let v: Vec<String> = infos.iter().map(|i| i.variant_ident.clone()).collect();
    assert_eq!(v, strs(&["XMin", "SecondField", "A"]));
    assert_eq!(infos[1].field_ident, "second_field");
    assert_eq!(infos[1].field_index, 1);
}

#[test]
fn helper_macros_are_named_after_the_struct_in_snake_case() {
    let x = name_expansion(item("BigStruct", vec![], vec![f("a")]));
    assert_eq!(x.helper_macro, "__big_struct_field_name_variants");
    let t = type_expansion(item("XRange", vec![], vec![f("x_min")]));
    assert_eq!(t.helper_macro, "__x_range_field_type_variants");
    assert_eq!(get_helper_macro_name("pixel", DeriveVariant::Type), "__pixel_field_type_variants");
    assert_eq!(get_builder_macro_name("pixel", DeriveVariant::Name), "__pixel_field_name_build");
    assert_eq!(get_step_macro_name("pixel", DeriveVariant::Type, 12), "__pixel_field_type_step_12");
}

#[test]
fn a_nested_struct_builds_its_enum_through_steps() {
    let input = item(
        "Pixel",
        vec![],
        vec![f("x"), f("y"), fa("color", "ColorInner", vec![list("stem_type", &["nested"])]), f("alpha")],
    );
    let t = type_expansion(input);
    match &t.body {
        FieldTypeBody::Nested { builder_macro, steps } => {
            assert_eq!(builder_macro, "__pixel_field_type_build");
            let names: Vec<&str> = steps.iter().map(|s| s.name.as_str()).collect();
            assert_eq!(names, vec!["__pixel_field_type_step_0", "__pixel_field_type_step_1", "__pixel_field_type_step_2"]);
            assert_eq!(steps[0].next.as_deref(), Some("__pixel_field_type_step_1"));
            assert!(steps[2].next.is_none());
            match &steps[1].slot {
                Slot::Nested(n) => {
                    assert_eq!(n.helper_macro, "__color_inner_field_type_variants");
                    assert_eq!(n.field_ident, "color");
                }
                Slot::Regular(_) => panic!("the second slot is the nested field"),
            }
        }
        FieldTypeBody::Simple { .. } => panic!("one field is nested"),
    }
}

#[test]
fn generic_structs_convert_through_into() {
    let mut input = item("Pair", vec![], vec![f("first"), f("second")]);
    input.has_generics = true;
    let t = type_expansion(input);
    assert_eq!(t.converter, struct_to_enum::field_type::Converter::Into);
    assert_eq!(t.enum_ident, "PairFieldType");
}

// ---------------------------------------------------------------- attribute reading

#[test]
fn both_skip_syntaxes_have_the_same_value() {
    let names = ["stem_type", "ste_type"];
    let paren = list("stem_type", &["skip"]);
    let quoted = list_tokens("ste_type", vec![Token::Other("\"skip\"".to_string())], "\"skip\"");
    let eq = name_value("stem_type", "\"skip\"");
    for a in [&paren, &quoted, &eq] {
        match get_attr_value(a, &names) {
            Ok(Some(v)) => assert_eq!(v, "skip"),
            _ => panic!("the attribute has the value skip"),
        }
        assert!(has_attr_with_value(a, &names, "skip"));
        assert!(!has_attr_with_value(a, &names, "nested"));
    }
    match get_attr_value(&list("serde", &["skip"]), &names) {
        Ok(None) => {}
        _ => panic!("another attribute has no value here"),
    }
}

#[test]
fn meta_lists_are_collected_by_position() {
    let attrs = vec![
        list("stem_type_derive", &["Debug"]),
        list("doc", &["hidden"]),
        list("ste_type_derive", &["Clone"]),
    ];
    match get_meta_list(&attrs, &["stem_type_derive", "ste_type_derive"]) {
        Ok(v) => assert_eq!(v, vec![0, 2]),
        Err(e) => panic!("{:?}", e),
    }
}

#[test]
fn derive_paths_are_read_segment_by_segment() {
    let attrs = vec![list_tokens(
        "stem_name_derive",
        vec![ident("serde"), punct(':'), punct(':'), ident("Serialize"), punct(','), ident("Hash")],
        "serde::Serialize, Hash",
    )];
    let rows = match get_meta_list(&attrs, &["stem_name_derive"]) {
        Ok(v) => v,
        Err(e) => panic!("{:?}", e),
    };
    let derives = match extract_enum_derives(&attrs, &rows) {
        Ok(v) => v,
        Err(e) => panic!("{:?}", e),
    };
    assert_eq!(derives[0].segments, strs(&["serde", "Serialize"]));
    let written: Vec<String> = derives.iter().map(path_to_string).collect();
    assert_eq!(written, strs(&["serde::Serialize", "Hash", "Debug", "PartialEq", "Eq", "Clone", "Copy"]));
}

#[test]
fn the_type_a_nested_field_names() {
    let ty = path_ty(&["crate", "geo", "Point"]);
    match extract_type_ident(&ty, 3) {
        Ok(s) => assert_eq!(s, "Point"),
        Err(e) => panic!("{:?}", e),
    }
    assert!(matches!(extract_type_ident(&TypeShape::Other, 3), Err(DeriveError::NestedNotPath { field: 3 })));
}

#[test]
fn text_helpers() {
    assert_eq!(trim_quote_marks("\"\"skip\""), "skip");
    assert_eq!(trim_quote_marks("\"\""), "");
    assert_eq!(trim_quote_marks("a\"b"), "a\"b");
    assert!(str_eq("abc", "abc"));
    assert!(!str_eq("abc", "abd"));
    let mut s = "n".to_string();
    push_decimal(&mut s, 1907);
    assert_eq!(s, "n1907");
    let p = DerivePath { segments: strs(&["a", "b", "c"]) };
    assert_eq!(path_to_string(&p), "a::b::c");
}

// ---------------------------------------------------------------- properties

#[test]
fn kept_fields_are_exactly_the_named_unskipped_ones_in_order() {
    let fields = vec![
        f("a"),
        fa("b", "i32", vec![list("stem_name", &["skip"])]),
        Field { ident: None, ty: path_ty(&["u8"]), attrs: vec![] },
        fa("c", "i32", vec![name_value("ste_name", "\"skip\"")]),
        f("d"),
        fa("e", "i32", vec![list("stem_type", &["skip"])]),
    ];
    match selected_fields(&fields, &["stem_name", "ste_name"], DeriveVariant::Name, all_features()) {
        Ok(v) => assert_eq!(v, vec![0, 4, 5]),
        Err(e) => panic!("{:?}", e),
    }
}

#[test]
fn alias_names_are_interchangeable() {
    let long = name_expansion(item("S", vec![], vec![f("a"), fa("b", "i32", vec![list("stem_name", &["skip"])])]));
    let short = name_expansion(item("S", vec![], vec![f("a"), fa("b", "i32", vec![list("ste_name", &["skip"])])]));
    assert_eq!(entries_of(&long), entries_of(&short));
    assert_eq!(entries_of(&long), strs(&["A"]));
}

#[test]
fn default_derives_are_merged_after_the_listed_ones() {
    let listed = derives_with(vec![list("stem_name_derive", &["Hash", "Clone", "Ord"])]);
    assert_eq!(listed, strs(&["Hash", "Clone", "Ord", "Debug", "PartialEq", "Eq", "Copy"]));
}

#[test]
fn listing_every_default_adds_nothing() {
    let all = derives_with(vec![list("stem_name_derive", &["Copy", "Clone", "Eq", "PartialEq", "Debug"])]);
    assert_eq!(all, strs(&["Copy", "Clone", "Eq", "PartialEq", "Debug"]));
}

#[test]
fn a_nested_slot_calls_the_helper_the_child_exports() {
    let child = name_expansion(item("Address", vec![], vec![f("street")]));
    let parent = name_expansion(item(
        "Person",
        vec![],
        vec![f("name"), fa("address", "Address", vec![list("stem_name", &["nested"])])],
    ));
    match &parent.body {
        FieldNameBody::Nested { steps, .. } => match &steps[1].slot {
            Slot::Nested(h) => assert_eq!(h, &child.helper_macro),
            Slot::Regular(_) => panic!("the second slot is nested"),
        },
        FieldNameBody::Simple { .. } => panic!("one field is nested"),
    }
}

#[test]
fn step_macros_have_distinct_names() {
    let slots: Vec<Slot<String, String>> = (0..12)
        .map(|i| if i % 2 == 0 { Slot::Nested(format!("h{}", i)) } else { Slot::Regular(vec![format!("r{}", i)]) })
        .collect();
    let steps = plan_steps(slots, "s", DeriveVariant::Name);
    let mut names: Vec<String> = steps.iter().map(|s| s.name.clone()).collect();
    assert_eq!(names[10], "__s_field_name_step_10");
    names.sort();
    names.dedup();
    assert_eq!(names.len(), 12);
}

#[test]
fn consecutive_regular_fields_share_a_slot() {
    let items: Vec<SlotItem<u8, &str>> = vec![
        SlotItem::Regular(1),
        SlotItem::Regular(2),
        SlotItem::Nested("n"),
        SlotItem::Nested("m"),
        SlotItem::Regular(3),
    ];
    let slots = group_slots(items);
    assert_eq!(slots.len(), 4);
    assert!(matches!(&slots[0], Slot::Regular(v) if v == &vec![1, 2]));
    assert!(matches!(&slots[1], Slot::Nested("n")));
    assert!(matches!(&slots[2], Slot::Nested("m")));
    assert!(matches!(&slots[3], Slot::Regular(v) if v == &vec![3]));
}

#[test]
fn verify_checks_what_the_derives_generate() {
    let fields = || {
        vec![
            f("id"),
            fa("skipped", "u8", vec![list("stem_name", &["skip"]), list("stem_type", &["skip"])]),
            f("user_name"),
            f("is_active"),
        ]
    };
    let attrs = || vec![list("stem_reverse_name", &["UserFieldName"]), list("stem_reverse_type", &["UserFieldType"])];
    let x = name_expansion(item("User", attrs(), fields()));
    let plan = match expand_verify_field_name(item("User", attrs(), fields()), all_features()) {
        Ok(p) => p,
        Err(e) => panic!("{:?}", e),
    };
    let checked: Vec<(String, String)> =
        plan.entries.iter().map(|p| (p.variant_ident.clone(), p.field_name.clone())).collect();
    let generated: Vec<(String, String)> = match &x.body {
        FieldNameBody::Simple { entries } => {
            entries.iter().map(|p| (p.variant_ident.clone(), p.field_name.clone())).collect()
        }
        FieldNameBody::Nested { .. } => panic!("no field is nested"),
    };
    assert_eq!(checked, generated);

    let t = type_expansion(item("User", attrs(), fields()));
    let plan = match expand_verify_field_type(item("User", attrs(), fields()), all_features()) {
        Ok(p) => p,
        Err(e) => panic!("{:?}", e),
    };
    let checked: Vec<(String, usize)> = plan.checks.iter().map(|c| (c.variant_ident.clone(), c.field_index)).collect();
    let generated: Vec<(String, usize)> = match &t.body {
        FieldTypeBody::Simple { fields } => fields.iter().map(|f| (f.variant_ident.clone(), f.field_index)).collect(),
        FieldTypeBody::Nested { .. } => panic!("no field is nested"),
    };
    assert_eq!(checked, generated);
    assert_eq!(generated, vec![("Id".to_string(), 0), ("UserName".to_string(), 2), ("IsActive".to_string(), 3)]);
}

#[test]
fn the_first_attribute_naming_the_enum_decides() {
    let attrs = vec![
        list("derive", &["Debug"]),
        list("ste_reverse_name", &["AliasFieldName"]),
        list("stem_reverse_name", &["Other"]),
    ];
    match get_enum_path(&attrs, &["stem_reverse_name", "ste_reverse_name"]) {
        Ok(p) => {
            assert_eq!(p.attr, 1);
            assert_eq!(p.path.segments, strs(&["AliasFieldName"]));
        }
        Err(e) => panic!("{:?}", e),
    }
}

#[test]
fn a_field_check_keeps_the_enum_it_is_given() {
    let input = item("AliasStruct", vec![], vec![f("foo"), fa("bar", "String", vec![])]);
    let enum_path = EnumPath { attr: 7, path: DerivePath { segments: strs(&["m", "AliasFieldName"]) } };
    let plan = match verify_field_name_plan(&input, all_features(), enum_path) {
        Ok(p) => p,
        Err(e) => panic!("{:?}", e),
    };
    assert_eq!(plan.enum_path.attr, 7);
    assert_eq!(plan.enum_path.path.segments, strs(&["m", "AliasFieldName"]));
    let v: Vec<String> = plan.entries.iter().map(|p| p.variant_ident.clone()).collect();
    assert_eq!(v, strs(&["Foo", "Bar"]));

    let enum_path = EnumPath { attr: 3, path: DerivePath { segments: strs(&["E"]) } };
    let plan = match verify_field_type_plan(&input, all_features(), enum_path) {
        Ok(p) => p,
        Err(e) => panic!("{:?}", e),
    };
    assert_eq!(plan.enum_path.attr, 3);
    assert_eq!(plan.checks.len(), 2);
    let enum_input = DeriveInput { ident: "X".to_string(), has_generics: false, attrs: vec![], data: Data::Enum };
    let enum_path = EnumPath { attr: 0, path: DerivePath { segments: strs(&["E"]) } };
    assert!(matches!(
        verify_field_type_plan(&enum_input, all_features(), enum_path),
        Err(DeriveError::VerifyNotAStruct(DeriveVariant::Type))
    ));
}

#[test]
fn skipped_fields_are_never_read() {
    let input = item(
        "RgbWithSkip",
        vec![],
        vec![f("r"), fa("internal", "u8", vec![list("stem_type", &["skip"])]), f("b")],
    );
    let t = type_expansion(input);
    match &t.body {
        FieldTypeBody::Simple { fields } => {
            let read: Vec<(String, usize)> = fields.iter().map(|f| (f.field_ident.clone(), f.field_index)).collect();
            assert_eq!(read, vec![("r".to_string(), 0), ("b".to_string(), 2)]);
        }
        FieldTypeBody::Nested { .. } => panic!("no field is nested"),
    }
}
