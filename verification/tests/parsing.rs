use command_schema::attributes::{find_attr, parse_description, parse_doc, parse_name,
    FieldAttribute, NamedAttrs, TypeAttribute};
use command_schema::decl::{Fields, NamedField, Ty, TypePath, UnnamedField, Variant};
use command_schema::error::ErrorKind;
use command_schema::fields::ParsedField;
use command_schema::subcommand::{ParsedVariant, VariantAttribute};
use command_schema::syntax::{AttrValue, Attribute, Lit, Meta, MetaEntry, Span};
use command_schema::text::{str_eq, trim_text};

fn sp(n: usize) -> Span {
    Span { lo: n, hi: n + 1 }
}

fn str_val(n: usize, s: &str) -> AttrValue {
    AttrValue { lit: Lit::Str(s.to_string()), span: sp(n) }
}

fn bool_val(n: usize, b: bool) -> AttrValue {
    AttrValue { lit: Lit::Bool(b), span: sp(n) }
}

fn pair(n: usize, key: &str, value: AttrValue) -> MetaEntry {
    MetaEntry::NameValue { key: vec![key.to_string()], key_span: sp(n), value }
}

fn command_attr(n: usize, entries: Vec<MetaEntry>) -> Attribute {
    Attribute { span: sp(n), path: vec!["command".to_string()], meta: Meta::List(entries) }
}

fn doc_attr(n: usize, text: &str) -> Attribute {
    Attribute {
        span: sp(n),
        path: vec!["doc".to_string()],
        meta: Meta::NameValue(str_val(n, text)),
    }
}

fn ty_path(n: usize, segment: &str) -> Ty {
    Ty::Path(TypePath { span: sp(n), segments: vec![segment.to_string()] })
}

fn named_field(n: usize, ident: &str, attrs: Vec<Attribute>, ty_segment: &str) -> NamedField {
    NamedField { span: sp(n), ident: ident.to_string(), attrs, ty: ty_path(n, ty_segment) }
}

fn subcommand_variant(n: usize, ident: &str, name: &str, ty_segment: &str) -> Variant {
    Variant {
        span: sp(n),
        ident: ident.to_string(),
        attrs: vec![command_attr(n, vec![pair(n, "name", str_val(n, name))])],
        fields: Fields::Unnamed(vec![UnnamedField { span: sp(n), ty: ty_path(n, ty_segment) }]),
    }
}

#[test]
fn name_within_bounds_is_unchanged() {
    assert_eq!(parse_name(&str_val(1, "x")).unwrap(), "x");
    let longest = "a".repeat(32);
    assert_eq!(parse_name(&str_val(2, &longest)).unwrap(), longest);
    let unicode = "héllo wörld";
    assert_eq!(parse_name(&str_val(3, unicode)).unwrap(), unicode);
}

#[test]
fn name_outside_bounds_is_rejected() {
    let e = parse_name(&str_val(4, "")).unwrap_err();
    assert_eq!(e.kind, ErrorKind::NameLengthOutOfRange);
    assert_eq!(e.span, sp(4));
    let e = parse_name(&str_val(5, &"a".repeat(33))).unwrap_err();
    assert_eq!(e.kind, ErrorKind::NameLengthOutOfRange);
    assert_eq!(e.span, sp(5));
}

#[test]
fn name_of_wrong_literal_kind_is_rejected() {
    let e = parse_name(&bool_val(6, true)).unwrap_err();
    assert_eq!(e.kind, ErrorKind::InvalidAttributeType);
    assert_eq!(e.span, sp(6));
    assert_eq!(e.expected, vec!["string".to_string()]);
}

#[test]
fn description_within_bounds_is_unchanged() {
    assert_eq!(parse_description(&str_val(1, "d")).unwrap(), "d");
    let longest = "b".repeat(100);
    assert_eq!(parse_description(&str_val(2, &longest)).unwrap(), longest);
}

#[test]
fn description_outside_bounds_is_rejected() {
    let e = parse_description(&str_val(3, "")).unwrap_err();
    assert_eq!(e.kind, ErrorKind::DescriptionLengthOutOfRange);
    let e = parse_description(&str_val(4, &"b".repeat(101))).unwrap_err();
    assert_eq!(e.kind, ErrorKind::DescriptionLengthOutOfRange);
    assert_eq!(e.span, sp(4));
}

#[test]
fn attr_value_bool_accessor_checks_kind() {
    let e = AttrValue::parse_bool(&str_val(7, "true")).unwrap_err();
    assert_eq!(e.kind, ErrorKind::InvalidAttributeType);
    assert_eq!(e.expected, vec!["boolean".to_string()]);
    assert!(bool_val(8, false).parse_bool().unwrap() == false);
}

fn lookup_str(attrs: &NamedAttrs, key: &str) -> String {
    attrs.get(key).unwrap().parse_string().unwrap()
}

#[test]
fn named_attrs_lookup_is_order_independent() {
    let keys = vec!["a".to_string(), "b".to_string()];
    let first = Meta::List(vec![pair(1, "a", str_val(2, "1")), pair(3, "b", str_val(4, "2"))]);
    let second = Meta::List(vec![pair(5, "b", str_val(4, "2")), pair(6, "a", str_val(2, "1"))]);
    let parsed_first = NamedAttrs::parse(&first, sp(0), &keys).unwrap();
    let parsed_second = NamedAttrs::parse(&second, sp(0), &keys).unwrap();
    assert_eq!(lookup_str(&parsed_first, "a"), lookup_str(&parsed_second, "a"));
    assert_eq!(lookup_str(&parsed_first, "b"), lookup_str(&parsed_second, "b"));
    assert!(parsed_first.get("c").is_none());
    assert!(parsed_second.get("c").is_none());
}

#[test]
fn named_attrs_duplicate_key_keeps_last() {
    let keys = vec!["a".to_string()];
    let meta = Meta::List(vec![pair(1, "a", str_val(2, "old")), pair(3, "a", str_val(4, "new"))]);
    let parsed = NamedAttrs::parse(&meta, sp(0), &keys).unwrap();
    assert_eq!(lookup_str(&parsed, "a"), "new");
}

#[test]
fn named_attrs_rejects_non_list_body() {
    let keys = vec!["a".to_string()];
    let e = NamedAttrs::parse(&Meta::Word, sp(9), &keys).unwrap_err();
    assert_eq!(e.kind, ErrorKind::ExpectedNamedList);
    assert_eq!(e.span, sp(9));
}

#[test]
fn named_attrs_rejects_malformed_entry() {
    let keys = vec!["a".to_string()];
    let meta = Meta::List(vec![MetaEntry::Other { span: sp(10) }]);
    let e = NamedAttrs::parse(&meta, sp(0), &keys).unwrap_err();
    assert_eq!(e.kind, ErrorKind::ExpectedNamedParameter);
    assert_eq!(e.span, sp(10));
}

#[test]
fn named_attrs_rejects_multi_segment_key() {
    let keys = vec!["a".to_string()];
    let meta = Meta::List(vec![MetaEntry::NameValue {
        key: vec!["x".to_string(), "y".to_string()],
        key_span: sp(11),
        value: str_val(12, "v"),
    }]);
    let e = NamedAttrs::parse(&meta, sp(0), &keys).unwrap_err();
    assert_eq!(e.kind, ErrorKind::ExpectedNamedParameter);
    assert_eq!(e.span, sp(11));
}

#[test]
fn unrecognized_key_fails_whatever_stands_beside_it() {
    let attr = command_attr(1, vec![
        pair(2, "name", str_val(3, "ok")),
        pair(4, "bogus", str_val(5, "x")),
    ]);
    let e = TypeAttribute::parse(&attr).unwrap_err();
    assert_eq!(e.kind, ErrorKind::UnrecognizedParameter);
    assert_eq!(e.span, sp(4));
    assert_eq!(
        e.expected,
        vec!["name".to_string(), "desc".to_string(), "default_permission".to_string()],
    );

    let attr = command_attr(1, vec![pair(6, "bogus", str_val(7, "x"))]);
    let e = TypeAttribute::parse(&attr).unwrap_err();
    assert_eq!(e.kind, ErrorKind::UnrecognizedParameter);
    assert_eq!(e.span, sp(6));
}

#[test]
fn type_attribute_parses_all_keys() {
    let attr = command_attr(1, vec![
        pair(2, "name", str_val(3, "ping")),
        pair(4, "desc", str_val(5, "a test command")),
        pair(6, "default_permission", bool_val(7, false)),
    ]);
    let t = TypeAttribute::parse(&attr).unwrap();
    assert_eq!(t.name, "ping");
    assert_eq!(t.desc.as_deref(), Some("a test command"));
    assert!(!t.default_permission);
}

#[test]
fn default_permission_absent_resolves_to_true() {
    let attr = command_attr(1, vec![pair(2, "name", str_val(3, "ping"))]);
    let t = TypeAttribute::parse(&attr).unwrap();
    assert!(t.default_permission);
    assert!(t.desc.is_none());
}

#[test]
fn default_permission_explicit_false_resolves_to_false() {
    let attr = command_attr(1, vec![
        pair(2, "name", str_val(3, "ping")),
        pair(4, "default_permission", bool_val(5, false)),
    ]);
    assert!(!TypeAttribute::parse(&attr).unwrap().default_permission);
}

#[test]
fn type_attribute_requires_name() {
    let attr = command_attr(8, vec![pair(2, "desc", str_val(3, "d"))]);
    let e = TypeAttribute::parse(&attr).unwrap_err();
    assert_eq!(e.kind, ErrorKind::MissingRequiredAttribute);
    assert_eq!(e.span, sp(8));
}

#[test]
fn field_attribute_parses_rename_and_desc() {
    let attr = command_attr(1, vec![
        pair(2, "rename", str_val(3, "member")),
        pair(4, "desc", str_val(5, "the member")),
    ]);
    let f = FieldAttribute::parse(&attr).unwrap();
    assert_eq!(f.rename.as_deref(), Some("member"));
    assert_eq!(f.desc.as_deref(), Some("the member"));
    assert_eq!(f.name_default("user".to_string()), "member");
}

#[test]
fn find_attr_returns_first_match() {
    let attrs = vec![doc_attr(1, "one"), command_attr(2, vec![]), command_attr(3, vec![])];
    let found = find_attr(&attrs, "command").unwrap();
    assert_eq!(found.span, sp(2));
    assert!(find_attr(&attrs, "missing").is_none());
}

#[test]
fn doc_lines_join_with_newlines_and_trim() {
    let attrs = vec![
        doc_attr(1, " First line"),
        doc_attr(2, " second line"),
        doc_attr(3, " third line "),
    ];
    let doc = parse_doc(&attrs, sp(0)).unwrap();
    assert_eq!(doc, "First line\n second line\n third line");
}

#[test]
fn doc_absent_means_description_required() {
    let e = parse_doc(&Vec::new(), sp(4)).unwrap_err();
    assert_eq!(e.kind, ErrorKind::DescriptionRequired);
    assert_eq!(e.span, sp(4));
    let attrs = vec![doc_attr(1, "   ")];
    let e = parse_doc(&attrs, sp(5)).unwrap_err();
    assert_eq!(e.kind, ErrorKind::DescriptionRequired);
}

#[test]
fn doc_over_limit_is_rejected() {
    let attrs = vec![doc_attr(1, &"c".repeat(101))];
    let e = parse_doc(&attrs, sp(6)).unwrap_err();
    assert_eq!(e.kind, ErrorKind::DescriptionLengthOutOfRange);
    assert_eq!(e.span, sp(6));
}

#[test]
fn doc_skips_non_doc_attributes() {
    let attrs = vec![command_attr(1, vec![]), doc_attr(2, "kept")];
    assert_eq!(parse_doc(&attrs, sp(0)).unwrap(), "kept");
}

#[test]
fn unit_struct_has_no_options() {
    let parsed = ParsedField::from_fields(&Fields::Unit, sp(1)).unwrap();
    assert_eq!(parsed.len(), 0);
}

#[test]
fn tuple_struct_is_unsupported() {
    let fields = Fields::Unnamed(vec![UnnamedField { span: sp(2), ty: ty_path(2, "String") }]);
    let e = ParsedField::from_fields(&fields, sp(3)).unwrap_err();
    assert_eq!(e.kind, ErrorKind::UnsupportedShape);
    assert_eq!(e.span, sp(3));
}

#[test]
fn unattributed_field_keeps_its_identifier() {
    let fields = Fields::Named(vec![named_field(1, "text", Vec::new(), "String")]);
    let parsed = ParsedField::from_fields(&fields, sp(0)).unwrap();
    assert_eq!(parsed.len(), 1);
    assert!(parsed[0].attribute.rename.is_none());
    assert_eq!(parsed[0].attribute.name_default(parsed[0].ident.clone()), "text");
}

#[test]
fn named_struct_keeps_fields_in_declaration_order() {
    let user_attr = command_attr(1, vec![
        pair(2, "rename", str_val(3, "member")),
        pair(4, "desc", str_val(5, "test")),
    ]);
    let fields = Fields::Named(vec![
        named_field(6, "user", vec![user_attr], "ResolvedUser"),
        named_field(7, "text", Vec::new(), "String"),
        named_field(8, "number", Vec::new(), "Option"),
    ]);
    let parsed = ParsedField::from_fields(&fields, sp(0)).unwrap();
    assert_eq!(parsed.len(), 3);
    assert_eq!(parsed[0].ident, "user");
    assert_eq!(parsed[0].attribute.name_default(parsed[0].ident.clone()), "member");
    assert_eq!(parsed[0].attribute.desc.as_deref(), Some("test"));
    assert_eq!(parsed[1].ident, "text");
    assert_eq!(parsed[2].ident, "number");
}

#[test]
fn field_attribute_rejects_type_level_keys() {
    let attr = command_attr(1, vec![pair(2, "name", str_val(3, "x"))]);
    let e = FieldAttribute::parse(&attr).unwrap_err();
    assert_eq!(e.kind, ErrorKind::UnrecognizedParameter);
    assert_eq!(e.expected, vec!["rename".to_string(), "desc".to_string()]);
}

#[test]
fn empty_enum_is_rejected() {
    let e = ParsedVariant::from_variants(&Vec::new(), sp(9)).unwrap_err();
    assert_eq!(e.kind, ErrorKind::EmptyEnum);
    assert_eq!(e.span, sp(9));
}

#[test]
fn variant_with_two_fields_is_rejected() {
    let variant = Variant {
        span: sp(1),
        ident: "Two".to_string(),
        attrs: vec![command_attr(2, vec![pair(3, "name", str_val(4, "two"))])],
        fields: Fields::Unnamed(vec![
            UnnamedField { span: sp(5), ty: ty_path(5, "A") },
            UnnamedField { span: sp(6), ty: ty_path(6, "B") },
        ]),
    };
    let e = ParsedVariant::from_variants(&vec![variant], sp(0)).unwrap_err();
    assert_eq!(e.kind, ErrorKind::InvalidVariantShape);
    assert_eq!(e.span, sp(1));
}

#[test]
fn named_variant_is_rejected() {
    let variant = Variant {
        span: sp(1),
        ident: "Named".to_string(),
        attrs: Vec::new(),
        fields: Fields::Named(vec![named_field(2, "inner", Vec::new(), "A")]),
    };
    let e = ParsedVariant::from_variants(&vec![variant], sp(0)).unwrap_err();
    assert_eq!(e.kind, ErrorKind::InvalidVariantShape);
}

#[test]
fn variant_field_must_be_a_type_path() {
    let variant = Variant {
        span: sp(1),
        ident: "Odd".to_string(),
        attrs: vec![command_attr(2, vec![pair(3, "name", str_val(4, "odd"))])],
        fields: Fields::Unnamed(vec![UnnamedField { span: sp(5), ty: Ty::Other { span: sp(5) } }]),
    };
    let e = ParsedVariant::from_variants(&vec![variant], sp(0)).unwrap_err();
    assert_eq!(e.kind, ErrorKind::UnsupportedFieldType);
    assert_eq!(e.span, sp(5));
}

#[test]
fn variant_requires_command_attribute() {
    let variant = Variant {
        span: sp(1),
        ident: "Bare".to_string(),
        attrs: vec![doc_attr(2, "docs only")],
        fields: Fields::Unnamed(vec![UnnamedField { span: sp(3), ty: ty_path(3, "A") }]),
    };
    let e = ParsedVariant::from_variants(&vec![variant], sp(0)).unwrap_err();
    assert_eq!(e.kind, ErrorKind::MissingRequiredAttribute);
    assert_eq!(e.span, sp(1));
}

#[test]
fn variant_attribute_requires_name() {
    let attr = command_attr(1, vec![]);
    let e = VariantAttribute::parse(&attr).unwrap_err();
    assert_eq!(e.kind, ErrorKind::MissingRequiredAttribute);
    let attr = command_attr(2, vec![pair(3, "name", str_val(4, "sub"))]);
    assert_eq!(VariantAttribute::parse(&attr).unwrap().name, "sub");
}

#[test]
fn enum_of_well_formed_variants_keeps_order() {
    let variants = vec![
        subcommand_variant(1, "Hello", "hello", "HelloCommand"),
        subcommand_variant(2, "Goodbye", "goodbye", "GoodbyeCommand"),
        subcommand_variant(3, "Wave", "wave", "WaveCommand"),
    ];
    let parsed = ParsedVariant::from_variants(&variants, sp(0)).unwrap();
    assert_eq!(parsed.len(), 3);
    assert_eq!(parsed[0].ident, "Hello");
    assert_eq!(parsed[0].attribute.name, "hello");
    assert_eq!(parsed[0].inner.segments, vec!["HelloCommand".to_string()]);
    assert_eq!(parsed[1].ident, "Goodbye");
    assert_eq!(parsed[2].ident, "Wave");
    assert_eq!(parsed[2].attribute.name, "wave");
}

#[test]
fn variant_name_over_limit_is_rejected() {
    let variants = vec![subcommand_variant(1, "Long", &"n".repeat(33), "LongCommand")];
    let e = ParsedVariant::from_variants(&variants, sp(0)).unwrap_err();
    assert_eq!(e.kind, ErrorKind::NameLengthOutOfRange);
}

#[test]
fn trim_removes_unicode_whitespace() {
    assert_eq!(trim_text("\u{00A0}\t hello there \u{3000}\n"), "hello there");
    assert_eq!(trim_text("no trim needed"), "no trim needed");
}

#[test]
fn trim_of_all_whitespace_is_empty() {
    assert_eq!(trim_text(" \t\r\n"), "");
    assert_eq!(trim_text(""), "");
}

#[test]
fn str_eq_compares_by_characters() {
    assert!(str_eq("abc", "abc"));
    assert!(!str_eq("abc", "abd"));
    assert!(!str_eq("ab", "abc"));
    assert!(str_eq("", ""));
}

#[test]
fn doc_with_explicit_desc_is_not_consulted() {
    let attr = command_attr(1, vec![
        pair(2, "name", str_val(3, "cmd")),
        pair(4, "desc", str_val(5, "explicit")),
    ]);
    let t = TypeAttribute::parse(&attr).unwrap();
    assert_eq!(t.desc.as_deref(), Some("explicit"));
}
