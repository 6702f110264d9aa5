use err_marks_the_spot::{EnumError, ErrorCtx, NamedStructError, TupleStructError, UnitStructError};

fn b(s: &str) -> Vec<u8> {
    s.as_bytes().to_vec()
}

fn text(v: &[u8]) -> String {
    String::from_utf8(v.to_vec()).unwrap()
}

fn ctx() -> ErrorCtx {
    ErrorCtx::new(&b("src/lib.rs"), 12, 7, &b("   0: main"))
}

const CTX_TEXT: &str =
    "\x1b[31mERROR\x1b[0m detected @ \x1b[34msrc/lib.rs\x1b[0m:\x1b[32m12\x1b[0m:\x1b[33m7\x1b[0m:\n   0: main\n";

#[test]
fn error_ctx_renders_coloured_position_and_trace() {
    assert_eq!(text(&ctx().render()), CTX_TEXT);
}

#[test]
fn add_error_ctx_field() {
    let tuple_struct_error = TupleStructError(17, b("blah"), ctx());
    println!("{}", text(&tuple_struct_error.render()));
    assert_eq!(
        text(&tuple_struct_error.render()),
        format!("FOo qux baz 17 blah\n  - BaR Quux 17.\n\n{}\n", CTX_TEXT)
    );
    let named_struct_error = NamedStructError { f0: b("happy little field"), ctx: ctx() };
    println!("{}", text(&named_struct_error.render()));
    assert!(text(&named_struct_error.render())
        .starts_with("This error contains a field f0=happy little field\n\n\x1b[31mERROR"));
    let unit_struct_error = UnitStructError { ctx: ctx() };
    println!("{}", text(&unit_struct_error.render()));
    assert!(text(&unit_struct_error.render()).starts_with("This error contains no fields\n\n"));

    let tuple_enum_error = EnumError::Tuple(300, b("tuple variant"), false, ctx());
    assert!(text(&tuple_enum_error.render())
        .starts_with("This is a tuple variant: 300, false and tuple variant\n"));
    let named_enum_error = EnumError::Named { f0: 42, f1: b("named variant"), ctx: ctx() };
    assert!(text(&named_enum_error.render())
        .starts_with("This is a named variant: 42 and named variant\n"));
    let unit_enum_error = EnumError::Unit { ctx: ctx() };
    assert!(text(&unit_enum_error.render()).starts_with("This is a unit variant.\n"));
}

#[test]
fn lib_add_error_ctx_field() {
    let tuple_struct_error = TupleStructError(0, b("blah"), ctx());
    assert_eq!(tuple_struct_error.0, 0);
    let named_struct_error = NamedStructError { f0: b("foo"), ctx: ctx() };
    assert_eq!(text(&named_struct_error.f0), "foo");
    let unit_struct_error = UnitStructError { ctx: ctx() };
    assert_eq!(unit_struct_error.ctx.line, 12);
    let tuple_enum_error = EnumError::Tuple(300, b("blah"), false, ctx());
    assert!(matches!(tuple_enum_error, EnumError::Tuple(300, _, false, _)));
    let named_enum_error = EnumError::Named { f0: 42, f1: b("foo"), ctx: ctx() };
    assert!(matches!(named_enum_error, EnumError::Named { f0: 42, .. }));
    let unit_enum_error = EnumError::Unit { ctx: ctx() };
    assert!(matches!(unit_enum_error, EnumError::Unit { .. }));
}

#[test]
fn use_ctors() {
    let tuple_struct_error = TupleStructError::new(24_usize, &b("blahs"), ctx());
    println!("{}", text(&tuple_struct_error.render()));
    assert!(text(&tuple_struct_error.render()).starts_with("FOo qux baz 24 blahs\n  - BaR Quux 24.\n\n"));
    let named_struct_error = NamedStructError::new(&b("foo"), ctx());
    println!("{}", text(&named_struct_error.render()));
    assert!(text(&named_struct_error.render()).starts_with("This error contains a field f0=foo\n"));
    let unit_struct_error = UnitStructError::new(ctx());
    println!("{}", text(&unit_struct_error.render()));
    assert!(text(&unit_struct_error.render()).ends_with(&format!("{}\n", CTX_TEXT)));

    let tuple_enum_error = EnumError::new_Tuple(300_usize, &b("tuple variant"), false, ctx());
    println!("{}", text(&tuple_enum_error.render()));
    assert_eq!(
        text(&tuple_enum_error.render()),
        format!(
            "This is a tuple variant: 300, false and tuple variant\nAnd another thing, tuple variants are like tuple structs.\n\n{}\n",
            CTX_TEXT
        )
    );
    let named_enum_error = EnumError::new_Named(42_u8, &b("named variant"), ctx());
    println!("{}", text(&named_enum_error.render()));
    assert!(text(&named_enum_error.render()).starts_with(
        "This is a named variant: 42 and named variant\nAnd another thing, named variants are like named structs.\n\n"
    ));
    let unit_enum_error = EnumError::new_Unit(ctx());
    println!("{}", text(&unit_enum_error.render()));
    assert!(text(&unit_enum_error.render()).starts_with(
        "This is a unit variant.\nAnd another thing, unit variants are like unit structs.\n\n"
    ));
}

#[test]
fn lib_use_ctors() {
    let tuple_struct_error = TupleStructError::new(0_usize, &b("blah"), ctx());
    assert_eq!(text(&tuple_struct_error.1), "blah");
    let named_struct_error = NamedStructError::new(&b("foo"), ctx());
    assert_eq!(text(&named_struct_error.f0), "foo");
    let unit_struct_error = UnitStructError::new(ctx());
    assert_eq!(unit_struct_error.ctx.column, 7);
    let tuple_enum_error = EnumError::new_Tuple(300_usize, &b("blah"), false, ctx());
    assert!(matches!(tuple_enum_error, EnumError::Tuple(300, _, false, _)));
    let named_enum_error = EnumError::new_Named(42_u8, &b("foo"), ctx());
    assert!(matches!(named_enum_error, EnumError::Named { f0: 42, .. }));
    let unit_enum_error = EnumError::new_Unit(ctx());
    assert!(matches!(unit_enum_error, EnumError::Unit { .. }));
}
