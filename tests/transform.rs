use err_marks_the_spot::attr::{AttrErrorKind, AttrToken, Delimiter, InlineValue, TypeAttrArgs};
use err_marks_the_spot::shape::{
    append_key, create_fields_map, Data, DeclAttr, FieldIdToken, NamedField, PositionalField, Shape,
    TransformError, TypeDeclaration, Unsupported, Variant,
};
use err_marks_the_spot::{
    err_marks_the_spot, fill_template, find_docstring_fields, get_docstrs_from_attrs,
    modify_docstr, trim_doc_literal,
};

fn b(s: &str) -> Vec<u8> {
    s.as_bytes().to_vec()
}

fn text(v: &[u8]) -> String {
    String::from_utf8(v.to_vec()).unwrap()
}

fn ident(s: &str) -> AttrToken {
    AttrToken::Ident(b(s))
}

fn punct(c: char) -> AttrToken {
    AttrToken::Punct(c as u8)
}

fn lit(s: &str) -> AttrToken {
    AttrToken::Literal(b(s))
}

fn doc(line: &str) -> DeclAttr {
    let literal = format!("\" {}\"", line);
    DeclAttr {
        text: b(&format!("#[doc = {}]", literal)),
        path: b("doc"),
        value: Some(b(&literal)),
    }
}

fn named(name: &str, ty: &str) -> NamedField {
    NamedField { attrs: vec![], vis: vec![], name: b(name), ty: b(ty) }
}

fn positional(ty: &str) -> PositionalField {
    PositionalField { attrs: vec![], vis: vec![], ty: b(ty) }
}

fn decl(name: &str, docs: &[&str], data: Data) -> TypeDeclaration {
    TypeDeclaration {
        attrs: docs.iter().map(|d| doc(d)).collect(),
        vis: b("pub"),
        name: b(name),
        generics: vec![],
        where_clause: vec![],
        data,
    }
}

fn point() -> TypeDeclaration {
    decl(
        "Point",
        &["Point at {x},{y}"],
        Data::Struct(Shape::Named(vec![named("x", "usize"), named("y", "String")])),
    )
}

fn tuple_enum() -> TypeDeclaration {
    decl(
        "E",
        &[],
        Data::Enum(vec![Variant {
            attrs: vec![doc("{0}, {2} and {1}")],
            name: b("Tuple"),
            shape: Shape::Positional(vec![positional("usize"), positional("String"), positional("bool")]),
            discriminant: None,
        }]),
    )
}

fn expand(attr: Vec<AttrToken>, d: &TypeDeclaration) -> String {
    match err_marks_the_spot(&attr, d) {
        Ok(t) => text(&t),
        Err(e) => panic!("transform failed: {:?}", e),
    }
}

#[test]
fn struct_scenario_generates_declaration_ctor_and_display() {
    let out = expand(vec![], &point());
    assert!(out.contains("pub struct Point"));
    assert!(out.contains("  x: usize,   y: String,  pub ctx: err_marks_the_spot::ErrorCtx, }"));
    assert!(out.contains(
        "impl Point { #[track_caller] pub fn new(x: impl Into<usize>, y: impl Into<String>, ) -> Self { Self { x: x.into(), y: y.into(), ctx: err_marks_the_spot::ErrorCtx::new(), } } } "
    ));
    assert!(out.contains(
        "writeln!(f, \"Point at {},{}\", &self.x, &self.y)?; writeln!(f, \"\")?; writeln!(f, \"{}\", &self.ctx)?; Ok(()) } } "
    ));
}

#[test]
fn struct_scenario_prints_values_in_place() {
    let vals = vec![b("17"), b("blah")];
    assert_eq!(text(&fill_template(&b("Point at {},{}"), &vals)), "Point at 17,blah");
}

#[test]
fn enum_tuple_scenario_refers_to_bindings_in_text_order() {
    let out = expand(vec![], &tuple_enum());
    assert!(out.contains("Self::Tuple (f0, f1, f2, ctx, ) => { writeln!(f, \"{}, {} and {}\", &f0, &f2, &f1)?; "));
    assert!(out.contains("pub fn new_Tuple(field0: impl Into<usize>, field1: impl Into<String>, field2: impl Into<bool>, ) -> Self { Self::Tuple(field0.into(), field1.into(), field2.into(), err_marks_the_spot::ErrorCtx::new(), ) } "));
    let vals = vec![b("300"), b("false"), b("x")];
    assert_eq!(text(&fill_template(&b("{}, {} and {}"), &vals)), "300, false and x");
}

#[test]
fn feature_gate_covers_field_initializer_and_context_lines() {
    let attr = vec![ident("feature"), punct('='), lit("\"diag\"")];
    let out = expand(attr, &point());
    assert!(out.contains("#[cfg(feature = \"diag\")]  pub ctx: err_marks_the_spot::ErrorCtx, }"));
    assert!(out.contains("#[cfg(feature = \"diag\")] ctx: err_marks_the_spot::ErrorCtx::new(), "));
    assert!(out.contains("#[cfg(feature = \"diag\")] writeln!(f, \"\")?; #[cfg(feature = \"diag\")] writeln!(f, \"{}\", &self.ctx)?; "));
}

#[test]
fn feature_gate_doubles_enum_arms() {
    let attr = vec![ident("feature"), punct('='), lit("\"diag\"")];
    let out = expand(attr, &tuple_enum());
    assert!(out.contains("#[cfg(feature = \"diag\")] Self::Tuple (f0, f1, f2, ctx, ) => { "));
    assert!(out.contains("#[cfg(not(feature = \"diag\"))] Self::Tuple (f0, f1, f2, ) => { "));
}

#[test]
fn unknown_attribute_key_is_named() {
    let attr = vec![ident("bogus")];
    match err_marks_the_spot(&attr, &point()) {
        Err(TransformError::MalformedAttribute(e)) => {
            assert_eq!(e.kind, AttrErrorKind::UnknownKey);
            assert_eq!(e.pos, 0);
            assert_eq!(text(&e.token), "bogus");
        }
        other => panic!("unexpected {:?}", other),
    }
}

#[test]
fn unknown_key_after_a_valid_one_is_named() {
    let attr = vec![ident("inline_ctors"), punct(','), ident("bogus")];
    match TypeAttrArgs::parse(&attr) {
        Err(e) => {
            assert_eq!(e.kind, AttrErrorKind::UnknownKey);
            assert_eq!(e.pos, 2);
            assert_eq!(text(&e.token), "bogus");
        }
        Ok(a) => panic!("accepted {:?}", a),
    }
}

#[test]
fn attribute_errors_of_each_kind() {
    let cases: Vec<(Vec<AttrToken>, AttrErrorKind, usize)> = vec![
        (vec![ident("feature"), punct('='), lit("\"a\""), ident("inline_ctors")], AttrErrorKind::MissingComma, 3),
        (vec![ident("feature"), lit("\"a\"")], AttrErrorKind::MissingEq, 1),
        (vec![ident("feature")], AttrErrorKind::MissingEq, 1),
        (vec![ident("feature"), punct('='), lit("5")], AttrErrorKind::BadFeatureValue, 2),
        (vec![ident("feature"), punct('=')], AttrErrorKind::BadFeatureValue, 2),
        (
            vec![ident("inline_ctors"), AttrToken::Group(Delimiter::Parenthesis, vec![ident("sometimes")])],
            AttrErrorKind::BadInlineValue,
            1,
        ),
        (vec![punct(',')], AttrErrorKind::UnknownKey, 0),
    ];
    for (toks, kind, pos) in cases {
        match TypeAttrArgs::parse(&toks) {
            Err(e) => {
                assert_eq!(e.kind, kind);
                assert_eq!(e.pos, pos);
            }
            Ok(a) => panic!("accepted {:?}", a),
        }
    }
}

#[test]
fn attribute_values_are_parsed() {
    let toks = vec![
        ident("feature"),
        punct('='),
        lit("\"example-build-flag\""),
        punct(','),
        ident("inline_ctors"),
        AttrToken::Group(Delimiter::Parenthesis, vec![ident("never")]),
        punct(','),
    ];
    let a = TypeAttrArgs::parse(&toks).unwrap();
    assert_eq!(text(&a.build_feature.as_ref().unwrap().value), "\"example-build-flag\"");
    assert_eq!(a.inline_ctors.unwrap().value, InlineValue::Never);
    assert_eq!(text(&a.field_attr_vec()), "#[cfg(feature = \"example-build-flag\")] ");
    assert_eq!(text(&a.ctor_attr_vec()), "#[inline(never)] ");
    let plain = TypeAttrArgs::parse(&vec![ident("inline_ctors")]).unwrap();
    assert_eq!(plain.inline_ctors.unwrap().value, InlineValue::Unspecified);
    assert_eq!(text(&plain.ctor_attr_vec()), "#[inline] ");
    assert!(plain.build_feature.is_none());
    let empty = TypeAttrArgs::parse(&vec![]).unwrap();
    assert!(empty.build_feature.is_none() && empty.inline_ctors.is_none());
    assert!(empty.ctor_attr_vec().is_empty());
}

#[test]
fn inline_hint_goes_on_every_constructor() {
    let attr = vec![ident("inline_ctors"), AttrToken::Group(Delimiter::Parenthesis, vec![ident("always")])];
    let out = expand(attr, &point());
    assert!(out.contains("#[inline(always)] #[track_caller] pub fn new("));
}

#[test]
fn unresolved_placeholder_names_key_and_owner() {
    let d = decl("Point", &["at {z}"], Data::Struct(Shape::Named(vec![named("x", "usize")])));
    match err_marks_the_spot(&vec![], &d) {
        Err(TransformError::UnresolvedFieldReference { owner, key }) => {
            assert_eq!(text(&owner), "Point");
            assert_eq!(text(&key), "z");
        }
        other => panic!("unexpected {:?}", other),
    }
    let e = decl(
        "E",
        &[],
        Data::Enum(vec![Variant {
            attrs: vec![doc("{3}")],
            name: b("V"),
            shape: Shape::Positional(vec![positional("u8")]),
            discriminant: None,
        }]),
    );
    match err_marks_the_spot(&vec![], &e) {
        Err(TransformError::UnresolvedFieldReference { owner, key }) => {
            assert_eq!(text(&owner), "E::V");
            assert_eq!(text(&key), "3");
        }
        other => panic!("unexpected {:?}", other),
    }
}

#[test]
fn unions_and_discriminants_are_refused() {
    let u = decl("U", &[], Data::Union);
    assert!(matches!(
        err_marks_the_spot(&vec![], &u),
        Err(TransformError::UnsupportedConstruct(Unsupported::Union))
    ));
    let e = decl(
        "E",
        &[],
        Data::Enum(vec![
            Variant { attrs: vec![], name: b("A"), shape: Shape::Unit, discriminant: None },
            Variant { attrs: vec![], name: b("B"), shape: Shape::Unit, discriminant: Some(b("2")) },
        ]),
    );
    assert!(matches!(
        err_marks_the_spot(&vec![], &e),
        Err(TransformError::UnsupportedConstruct(Unsupported::Discriminant(1)))
    ));
}

#[test]
fn attribute_errors_come_before_unsupported_declarations() {
    let u = decl("U", &[], Data::Union);
    assert!(matches!(
        err_marks_the_spot(&vec![ident("bogus")], &u),
        Err(TransformError::MalformedAttribute(_))
    ));
}

#[test]
fn unit_struct_gets_braced_ctx_field_and_empty_ctor() {
    let out = expand(vec![], &decl("U", &["no fields"], Data::Struct(Shape::Unit)));
    assert!(out.contains("pub struct U  {  pub ctx: err_marks_the_spot::ErrorCtx, }"));
    assert!(out.contains("pub fn new() -> Self { Self { ctx: err_marks_the_spot::ErrorCtx::new(), } } "));
    assert!(out.contains("writeln!(f, \"no fields\")?; "));
}

#[test]
fn tuple_struct_context_is_the_next_index() {
    let d = decl("T", &["{0} {1}"], Data::Struct(Shape::Positional(vec![positional("usize"), positional("String")])));
    let out = expand(vec![], &d);
    assert!(out.contains("pub struct T (  usize,   String,  pub err_marks_the_spot::ErrorCtx, ) ;"));
    assert!(out.contains("writeln!(f, \"{} {}\", &self.0, &self.1)?; "));
    assert!(out.contains("writeln!(f, \"{}\", &self.2)?; "));
}

#[test]
fn enum_variant_context_field_is_private() {
    let e = decl(
        "E",
        &[],
        Data::Enum(vec![Variant {
            attrs: vec![],
            name: b("N"),
            shape: Shape::Named(vec![named("a", "u8")]),
            discriminant: None,
        }]),
    );
    let out = expand(vec![], &e);
    assert!(out.contains("pub enum E  { N {   a: u8,   ctx: err_marks_the_spot::ErrorCtx, }, } "));
    assert!(out.contains("pub fn new_N(a: impl Into<u8>, ) -> Self { Self::N { a: a.into(), ctx: err_marks_the_spot::ErrorCtx::new(), } } "));
}

#[test]
fn append_key_and_table_are_stable() {
    let s = Shape::Positional(vec![positional("u8"), positional("u16")]);
    for _ in 0..2 {
        assert!(matches!(append_key(&s), FieldIdToken::Literal(2)));
        let t = create_fields_map(&s);
        assert_eq!(t.len(), 3);
        assert_eq!(text(&t[2].key), "2");
    }
    let n = Shape::Named(vec![named("a", "u8")]);
    match append_key(&n) {
        FieldIdToken::Ident(i) => assert_eq!(text(&i), "ctx"),
        other => panic!("unexpected {:?}", other),
    }
    let t = create_fields_map(&n);
    assert_eq!(t.len(), 2);
    assert_eq!(text(&t[0].key), "a");
    assert_eq!(text(&t[1].key), "ctx");
}

#[test]
fn placeholders_found_left_to_right() {
    let d = b("a {x} {{y} {} {_1}z {bad-key} {9}");
    let sites = find_docstring_fields(&d);
    let keys: Vec<String> = sites.iter().map(|s| text(&s.key)).collect();
    assert_eq!(keys, vec!["x", "y", "_1", "9"]);
    assert_eq!((sites[0].start, sites[0].end), (2, 5));
    assert_eq!(text(&modify_docstr(&d, &sites)), "a {} {{} {} {}z {bad-key} {}");
}

#[test]
fn empty_documentation_has_no_placeholders() {
    let d: Vec<u8> = vec![];
    assert!(find_docstring_fields(&d).is_empty());
    assert!(modify_docstr(&d, &find_docstring_fields(&d)).is_empty());
}

#[test]
fn doc_literals_are_trimmed() {
    assert_eq!(text(&trim_doc_literal(&b("\" FOo qux\""))), "FOo qux");
    assert_eq!(text(&trim_doc_literal(&b("\"   - BaR\""))), "  - BaR");
    assert_eq!(text(&trim_doc_literal(&b("\"\""))), "");
    let attrs = vec![
        doc("first"),
        DeclAttr { text: b("#[derive(Debug)]"), path: b("derive"), value: None },
        DeclAttr { text: b("#[doc = 5]"), path: b("doc"), value: Some(b("5")) },
        doc("second"),
    ];
    let lines: Vec<String> = get_docstrs_from_attrs(&attrs).iter().map(|l| text(l)).collect();
    assert_eq!(lines, vec!["first", "second"]);
}

#[test]
fn quotes_in_documentation_are_escaped_in_the_template() {
    let d = decl("Q", &["say \\\"{x}\\\""], Data::Struct(Shape::Named(vec![named("x", "u8")])));
    let out = expand(vec![], &d);
    assert!(out.contains("writeln!(f, \"say \\\\\\\"{}\\\\\", &self.x)?; "));
}

#[test]
fn fill_template_leaves_missing_values_empty() {
    assert_eq!(text(&fill_template(&b("a{}b{}c"), &vec![b("1")])), "a1bc");
    assert_eq!(text(&fill_template(&b("no slots"), &vec![])), "no slots");
}

#[test]
fn generated_code_is_well_formed_rust() {
    let feature = || vec![ident("feature"), punct('='), lit("\"diag\""), punct(','), ident("inline_ctors")];
    let unit = decl("U", &["no fields"], Data::Struct(Shape::Unit));
    let tuple = decl("T", &["{0} {1}"], Data::Struct(Shape::Positional(vec![positional("usize"), positional("String")])));
    for d in [point(), tuple_enum(), unit, tuple] {
        for attr in [vec![], feature()] {
            let out = expand(attr, &d);
            if let Err(e) = syn::parse_str::<syn::File>(&out) {
                panic!("generated code does not parse: {}\n{}", e, out);
            }
        }
    }
}
