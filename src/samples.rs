//! Four error types as the transform leaves them, written out by hand with
//! the feature gate switched on: each holds its context field, has the
//! generated constructors, and renders as its documentation says. The
//! context is handed to the constructors, since capturing the caller's
//! position happens outside the library.
use vstd::prelude::*;
use vstd::string::StringSliceAdditionalSpecFns;
use crate::docs::{fill, fill_template};
use crate::error_ctx::{error_ctx_text, ErrorCtx};
use crate::text::{copy_bytes, dec_digits, dec_digits_of, push_bytes, push_str, vec_views};

verus! {

/// One printed documentation line: the template filled, then a newline.
pub open spec fn printed_line(template: Seq<u8>, vals: Seq<Seq<u8>>) -> Seq<u8> {
    fill(template, vals) + "\n".spec_bytes()
}

/// The block after the documentation lines: a blank line, then the context.
pub open spec fn context_block(ctx: ErrorCtx) -> Seq<u8> {
    "\n".spec_bytes() + error_ctx_text(ctx) + "\n".spec_bytes()
}

/// How a `bool` prints.
pub open spec fn bool_text(b: bool) -> Seq<u8> {
    if b {
        "true".spec_bytes()
    } else {
        "false".spec_bytes()
    }
}

fn push_line(out: &mut Vec<u8>, template: &str, vals: &Vec<Vec<u8>>)
    ensures
        final(out)@ == old(out)@ + printed_line(template.spec_bytes(), vec_views(vals@)),
{
    let mut t: Vec<u8> = Vec::new();
    push_str(&mut t, template);
    let line = fill_template(&t, vals);
    push_bytes(out, line.as_slice());
    push_str(out, "\n");
}

fn push_context(out: &mut Vec<u8>, ctx: &ErrorCtx)
    ensures
        final(out)@ == old(out)@ + context_block(*ctx),
{
    push_str(out, "\n");
    let c = ctx.render();
    push_bytes(out, c.as_slice());
    push_str(out, "\n");
}

fn bool_bytes(b: bool) -> (r: Vec<u8>)
    ensures
        r@ == bool_text(b),
{
    let mut r: Vec<u8> = Vec::new();
    if b {
        push_str(&mut r, "true");
    } else {
        push_str(&mut r, "false");
    }
    r
}

/// FOo qux baz {0} {1}
///   - BaR Quux {0}.
#[derive(Debug)]
pub struct TupleStructError(pub usize, pub Vec<u8>, pub ErrorCtx);

/// This error contains a field f0={f0}
#[derive(Debug)]
pub struct NamedStructError {
    pub f0: Vec<u8>,
    pub ctx: ErrorCtx,
}

/// This error contains no fields
#[derive(Debug)]
pub struct UnitStructError {
    pub ctx: ErrorCtx,
}

/// enum-level docstring: EnumError has 3 variants
#[derive(Debug)]
pub enum EnumError {
    /// This is a tuple variant: {0}, {2} and {1}
    /// And another thing, tuple variants are like tuple structs.
    Tuple(usize, Vec<u8>, bool, ErrorCtx),
    /// This is a named variant: {f0} and {f1}
    /// And another thing, named variants are like named structs.
    Named { f0: u8, f1: Vec<u8>, ctx: ErrorCtx },
    /// This is a unit variant.
    /// And another thing, unit variants are like unit structs.
    Unit { ctx: ErrorCtx },
}

pub open spec fn tuple_struct_error_text(e: TupleStructError) -> Seq<u8> {
    printed_line("FOo qux baz {} {}".spec_bytes(), seq![dec_digits_of(e.0 as nat), e.1@])
        + printed_line("  - BaR Quux {}.".spec_bytes(), seq![dec_digits_of(e.0 as nat)])
        + context_block(e.2)
}

pub open spec fn named_struct_error_text(e: NamedStructError) -> Seq<u8> {
    printed_line("This error contains a field f0={}".spec_bytes(), seq![e.f0@]) + context_block(
        e.ctx,
    )
}

pub open spec fn unit_struct_error_text(e: UnitStructError) -> Seq<u8> {
    printed_line("This error contains no fields".spec_bytes(), seq![]) + context_block(e.ctx)
}

pub open spec fn enum_error_text(e: EnumError) -> Seq<u8> {
    match e {
        EnumError::Tuple(a, b, c, ctx) => printed_line(
            "This is a tuple variant: {}, {} and {}".spec_bytes(),
            seq![dec_digits_of(a as nat), bool_text(c), b@],
        ) + printed_line(
            "And another thing, tuple variants are like tuple structs.".spec_bytes(),
            seq![],
        ) + context_block(ctx),
        EnumError::Named { f0, f1, ctx } => printed_line(
            "This is a named variant: {} and {}".spec_bytes(),
            seq![dec_digits_of(f0 as nat), f1@],
        ) + printed_line(
            "And another thing, named variants are like named structs.".spec_bytes(),
            seq![],
        ) + context_block(ctx),
        EnumError::Unit { ctx } => printed_line("This is a unit variant.".spec_bytes(), seq![])
            + printed_line(
            "And another thing, unit variants are like unit structs.".spec_bytes(),
            seq![],
        ) + context_block(ctx),
    }
}

impl TupleStructError {
    pub fn new(field0: usize, field1: &Vec<u8>, ctx: ErrorCtx) -> (r: TupleStructError)
        ensures
            r.0 == field0,
            r.1@ == field1@,
            r.2 == ctx,
    {
        TupleStructError(field0, copy_bytes(field1), ctx)
    }

    /// The text the type's formatting routine prints.
    pub fn render(&self) -> (r: Vec<u8>)
        ensures
            r@ == tuple_struct_error_text(*self),
    {
        let mut out: Vec<u8> = Vec::new();
        let v1 = vec![dec_digits(self.0), copy_bytes(&self.1)];
        assert(vec_views(v1@) =~= seq![dec_digits_of(self.0 as nat), self.1@]);
        push_line(&mut out, "FOo qux baz {} {}", &v1);
        let v2 = vec![dec_digits(self.0)];
        assert(vec_views(v2@) =~= seq![dec_digits_of(self.0 as nat)]);
        push_line(&mut out, "  - BaR Quux {}.", &v2);
        push_context(&mut out, &self.2);
        assert(out@ =~= tuple_struct_error_text(*self));
        out
    }
}

impl NamedStructError {
    pub fn new(f0: &Vec<u8>, ctx: ErrorCtx) -> (r: NamedStructError)
        ensures
            r.f0@ == f0@,
            r.ctx == ctx,
    {
        NamedStructError { f0: copy_bytes(f0), ctx }
    }

    /// The text the type's formatting routine prints.
    pub fn render(&self) -> (r: Vec<u8>)
        ensures
            r@ == named_struct_error_text(*self),
    {
        let mut out: Vec<u8> = Vec::new();
        let v = vec![copy_bytes(&self.f0)];
        assert(vec_views(v@) =~= seq![self.f0@]);
        push_line(&mut out, "This error contains a field f0={}", &v);
        push_context(&mut out, &self.ctx);
        assert(out@ =~= named_struct_error_text(*self));
        out
    }
}

impl UnitStructError {
    pub fn new(ctx: ErrorCtx) -> (r: UnitStructError)
        ensures
            r.ctx == ctx,
    {
        UnitStructError { ctx }
    }

    /// The text the type's formatting routine prints.
    pub fn render(&self) -> (r: Vec<u8>)
        ensures
            r@ == unit_struct_error_text(*self),
    {
        let mut out: Vec<u8> = Vec::new();
        let v: Vec<Vec<u8>> = Vec::new();
        assert(vec_views(v@) =~= seq![]);
        push_line(&mut out, "This error contains no fields", &v);
        push_context(&mut out, &self.ctx);
        assert(out@ =~= unit_struct_error_text(*self));
        out
    }
}

impl EnumError {
    #[allow(non_snake_case)]
    pub fn new_Tuple(field0: usize, field1: &Vec<u8>, field2: bool, ctx: ErrorCtx) -> (r: EnumError)
        ensures
            r matches EnumError::Tuple(a, b, c, d) && a == field0 && b@ == field1@ && c == field2
                && d == ctx,
    {
        EnumError::Tuple(field0, copy_bytes(field1), field2, ctx)
    }

    #[allow(non_snake_case)]
    pub fn new_Named(f0: u8, f1: &Vec<u8>, ctx: ErrorCtx) -> (r: EnumError)
        ensures
            r matches EnumError::Named { f0: a, f1: b, ctx: d } && a == f0 && b@ == f1@ && d == ctx,
    {
        EnumError::Named { f0, f1: copy_bytes(f1), ctx }
    }

    #[allow(non_snake_case)]
    pub fn new_Unit(ctx: ErrorCtx) -> (r: EnumError)
        ensures
            r matches EnumError::Unit { ctx: d } && d == ctx,
    {
        EnumError::Unit { ctx }
    }

    /// The text the type's formatting routine prints.
    pub fn render(&self) -> (r: Vec<u8>)
        ensures
            r@ == enum_error_text(*self),
    {
        let mut out: Vec<u8> = Vec::new();
        let none: Vec<Vec<u8>> = Vec::new();
        assert(vec_views(none@) =~= seq![]);
        match self {
            EnumError::Tuple(a, b, c, ctx) => {
                let v = vec![dec_digits(*a), bool_bytes(*c), copy_bytes(b)];
                assert(vec_views(v@) =~= seq![dec_digits_of(*a as nat), bool_text(*c), b@]);
                push_line(&mut out, "This is a tuple variant: {}, {} and {}", &v);
                push_line(&mut out, "And another thing, tuple variants are like tuple structs.", &none);
                push_context(&mut out, ctx);
            },
            EnumError::Named { f0, f1, ctx } => {
                let v = vec![dec_digits(*f0 as usize), copy_bytes(f1)];
                assert(vec_views(v@) =~= seq![dec_digits_of(*f0 as nat), f1@]);
                push_line(&mut out, "This is a named variant: {} and {}", &v);
                push_line(&mut out, "And another thing, named variants are like named structs.", &none);
                push_context(&mut out, ctx);
            },
            EnumError::Unit { ctx } => {
                push_line(&mut out, "This is a unit variant.", &none);
                push_line(&mut out, "And another thing, unit variants are like unit structs.", &none);
                push_context(&mut out, ctx);
            },
        }
        assert(out@ =~= enum_error_text(*self));
        out
    }
}

} // verus!
