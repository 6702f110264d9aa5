//! The constructor generator: one constructor per shape, taking each user
//! field by conversion and capturing the context at the caller's location.
use vstd::prelude::*;
use vstd::string::StringSliceAdditionalSpecFns;
use crate::shape::{Data, Shape, Variant};
use crate::text::{concat, dec_digits, dec_digits_of, lemma_concat_step, push_bytes, push_str};

verus! {

/// The identifier that carries user field `i` in a constructor: its name,
/// or `field<i>` for a positional field.
pub open spec fn param_ident(s: Shape, i: int) -> Seq<u8> {
    match s {
        Shape::Named(fs) => fs@[i].name@,
        _ => "field".spec_bytes() + dec_digits_of(i as nat),
    }
}

/// The declared type of user field `i`.
pub open spec fn field_ty(s: Shape, i: int) -> Seq<u8> {
    match s {
        Shape::Named(fs) => fs@[i].ty@,
        Shape::Positional(fs) => fs@[i].ty@,
        Shape::Unit => Seq::empty(),
    }
}

pub open spec fn params_text(s: Shape) -> Seq<u8> {
    concat(
        Seq::new(
            s.field_count(),
            |i: int|
                param_ident(s, i) + ": impl Into<".spec_bytes() + field_ty(s, i) + ">, ".spec_bytes(),
        ),
    )
}

pub open spec fn init_text(s: Shape, i: int) -> Seq<u8> {
    if s is Positional {
        param_ident(s, i) + ".into(), ".spec_bytes()
    } else {
        param_ident(s, i) + ": ".spec_bytes() + param_ident(s, i) + ".into(), ".spec_bytes()
    }
}

pub open spec fn inits_text(s: Shape) -> Seq<u8> {
    concat(Seq::new(s.field_count(), |i: int| init_text(s, i)))
}

/// The initializer of the appended field, behind the field's attributes.
pub open spec fn ctx_init_text(s: Shape, field_attrs: Seq<u8>) -> Seq<u8> {
    field_attrs + (if s is Positional {
        Seq::empty()
    } else {
        "ctx: ".spec_bytes()
    }) + "err_marks_the_spot::ErrorCtx::new(), ".spec_bytes()
}

/// `(` for a positional shape, ` { ` otherwise.
pub open spec fn open_text(s: Shape) -> Seq<u8> {
    if s is Positional {
        "(".spec_bytes()
    } else {
        " { ".spec_bytes()
    }
}

/// `)` for a positional shape, `}` otherwise.
pub open spec fn close_text(s: Shape) -> Seq<u8> {
    if s is Positional {
        ")".spec_bytes()
    } else {
        "}".spec_bytes()
    }
}

/// The signature of a constructor, up to its body.
pub open spec fn ctor_head(fn_name: Seq<u8>, s: Shape, ctor_attrs: Seq<u8>) -> Seq<u8> {
    ctor_attrs + "#[track_caller] pub fn ".spec_bytes() + fn_name + "(".spec_bytes() + params_text(
        s,
    ) + ") -> Self { ".spec_bytes()
}

/// The body of a constructor: the value it builds.
pub open spec fn ctor_body(path: Seq<u8>, s: Shape, field_attrs: Seq<u8>) -> Seq<u8> {
    path + open_text(s) + inits_text(s) + ctx_init_text(s, field_attrs) + close_text(s)
        + " } ".spec_bytes()
}

/// One constructor `fn_name` that builds `path` (`Self` or `Self::Variant`).
pub open spec fn ctor_text(
    fn_name: Seq<u8>,
    path: Seq<u8>,
    s: Shape,
    ctor_attrs: Seq<u8>,
    field_attrs: Seq<u8>,
) -> Seq<u8> {
    ctor_head(fn_name, s, ctor_attrs) + ctor_body(path, s, field_attrs)
}

fn field_count(s: &Shape) -> (r: usize)
    ensures
        r == s.field_count(),
{
    match s {
        Shape::Named(fs) => fs.len(),
        Shape::Unit => 0,
        Shape::Positional(fs) => fs.len(),
    }
}

fn push_param_ident(out: &mut Vec<u8>, s: &Shape, i: usize)
    requires
        i < s.field_count(),
    ensures
        final(out)@ == old(out)@ + param_ident(*s, i as int),
{
    match s {
        Shape::Named(fs) => push_bytes(out, fs[i].name.as_slice()),
        _ => {
            push_str(out, "field");
            let d = dec_digits(i);
            push_bytes(out, d.as_slice());
        },
    }
}

fn push_field_ty(out: &mut Vec<u8>, s: &Shape, i: usize)
    requires
        i < s.field_count(),
    ensures
        final(out)@ == old(out)@ + field_ty(*s, i as int),
{
    match s {
        Shape::Named(fs) => push_bytes(out, fs[i].ty.as_slice()),
        Shape::Positional(fs) => push_bytes(out, fs[i].ty.as_slice()),
        Shape::Unit => {},
    }
}

fn push_params(out: &mut Vec<u8>, s: &Shape)
    ensures
        final(out)@ == old(out)@ + params_text(*s),
{
    let n = field_count(s);
    let ghost pf = |i: int|
        param_ident(*s, i) + ": impl Into<".spec_bytes() + field_ty(*s, i) + ">, ".spec_bytes();
    let ghost p0 = out@;
    let mut i: usize = 0;
    while i < n
        invariant
            i <= n,
            n == s.field_count(),
            pf == (|i: int|
                param_ident(*s, i) + ": impl Into<".spec_bytes() + field_ty(*s, i) + ">, ".spec_bytes()),
            out@ == p0 + concat(Seq::new(i as nat, pf)),
        decreases n - i,
    {
        proof {
            lemma_concat_step(pf, i as nat);
        }
        let ghost before = out@;
        push_param_ident(out, s, i);
        push_str(out, ": impl Into<");
        push_field_ty(out, s, i);
        push_str(out, ">, ");
        assert(out@ =~= before + pf(i as int));
        i = i + 1;
    }
    assert(Seq::new(s.field_count(), |i: int|
        param_ident(*s, i) + ": impl Into<".spec_bytes() + field_ty(*s, i) + ">, ".spec_bytes())
        =~= Seq::new(n as nat, pf));
}

fn push_inits(out: &mut Vec<u8>, s: &Shape)
    ensures
        final(out)@ == old(out)@ + inits_text(*s),
{
    let n = field_count(s);
    let positional = match s {
        Shape::Positional(_) => true,
        _ => false,
    };
    let ghost inf = |i: int| init_text(*s, i);
    let ghost q0 = out@;
    let mut i: usize = 0;
    while i < n
        invariant
            i <= n,
            n == s.field_count(),
            positional == (s is Positional),
            inf == (|i: int| init_text(*s, i)),
            out@ == q0 + concat(Seq::new(i as nat, inf)),
        decreases n - i,
    {
        proof {
            lemma_concat_step(inf, i as nat);
        }
        let ghost before = out@;
        push_param_ident(out, s, i);
        if positional {
            push_str(out, ".into(), ");
        } else {
            push_str(out, ": ");
            push_param_ident(out, s, i);
            push_str(out, ".into(), ");
        }
        assert(out@ =~= before + inf(i as int));
        i = i + 1;
    }
    assert(Seq::new(s.field_count(), |i: int| init_text(*s, i)) =~= Seq::new(n as nat, inf));
}

fn push_ctor_head(out: &mut Vec<u8>, fn_name: &Vec<u8>, s: &Shape, ctor_attrs: &Vec<u8>)
    ensures
        final(out)@ == old(out)@ + ctor_head(fn_name@, *s, ctor_attrs@),
{
    let ghost start = out@;
    push_bytes(out, ctor_attrs.as_slice());
    push_str(out, "#[track_caller] pub fn ");
    push_bytes(out, fn_name.as_slice());
    push_str(out, "(");
    push_params(out, s);
    push_str(out, ") -> Self { ");
    assert(out@ =~= start + ctor_head(fn_name@, *s, ctor_attrs@));
}

fn push_ctor_body(out: &mut Vec<u8>, path: &Vec<u8>, s: &Shape, field_attrs: &Vec<u8>)
    ensures
        final(out)@ == old(out)@ + ctor_body(path@, *s, field_attrs@),
{
    let ghost start = out@;
    let positional = match s {
        Shape::Positional(_) => true,
        _ => false,
    };
    push_bytes(out, path.as_slice());
    if positional {
        push_str(out, "(");
    } else {
        push_str(out, " { ");
    }
    let ghost a = out@;
    assert(a == start + path@ + open_text(*s));
    push_inits(out, s);
    let ghost b = out@;
    push_bytes(out, field_attrs.as_slice());
    if !positional {
        push_str(out, "ctx: ");
    }
    push_str(out, "err_marks_the_spot::ErrorCtx::new(), ");
    assert(out@ =~= b + ctx_init_text(*s, field_attrs@));
    if positional {
        push_str(out, ")");
    } else {
        push_str(out, "}");
    }
    push_str(out, " } ");
    assert(out@ =~= start + ctor_body(path@, *s, field_attrs@));
}

/// The constructor for one shape; a struct calls it once, an enum once per
/// variant.
pub fn generate_ctor(
    out: &mut Vec<u8>,
    fn_name: &Vec<u8>,
    path: &Vec<u8>,
    s: &Shape,
    ctor_attrs: &Vec<u8>,
    field_attrs: &Vec<u8>,
)
    ensures
        final(out)@ == old(out)@ + ctor_text(fn_name@, path@, *s, ctor_attrs@, field_attrs@),
{
    let ghost start = out@;
    push_ctor_head(out, fn_name, s, ctor_attrs);
    push_ctor_body(out, path, s, field_attrs);
    assert(out@ =~= start + ctor_text(fn_name@, path@, *s, ctor_attrs@, field_attrs@));
}

/// The constructor of a struct: `new`, building `Self`.
pub open spec fn struct_ctor_text(s: Shape, ctor_attrs: Seq<u8>, field_attrs: Seq<u8>) -> Seq<u8> {
    ctor_text("new".spec_bytes(), "Self".spec_bytes(), s, ctor_attrs, field_attrs)
}

/// The constructor of a variant: `new_<Variant>`, building `Self::<Variant>`.
pub open spec fn variant_ctor_text(v: Variant, ctor_attrs: Seq<u8>, field_attrs: Seq<u8>) -> Seq<u8> {
    ctor_text(
        "new_".spec_bytes() + v.name@,
        "Self::".spec_bytes() + v.name@,
        v.shape,
        ctor_attrs,
        field_attrs,
    )
}

/// One constructor per variant, in order.
pub open spec fn enum_ctors_text(vs: Seq<Variant>, ctor_attrs: Seq<u8>, field_attrs: Seq<u8>) -> Seq<u8> {
    concat(Seq::new(vs.len(), |i: int| variant_ctor_text(vs[i], ctor_attrs, field_attrs)))
}

/// The `impl` block that holds the constructors of a declaration.
pub open spec fn ctor_impl_text(
    ty_name: Seq<u8>,
    data: Data,
    ctor_attrs: Seq<u8>,
    field_attrs: Seq<u8>,
) -> Seq<u8> {
    "impl ".spec_bytes() + ty_name + " { ".spec_bytes() + match data {
        Data::Struct(s) => struct_ctor_text(s, ctor_attrs, field_attrs),
        Data::Enum(vs) => enum_ctors_text(vs@, ctor_attrs, field_attrs),
        Data::Union => Seq::empty(),
    } + "} ".spec_bytes()
}

/// The constructor `new` of a struct.
pub fn generate_struct_ctor(s: &Shape, field_attrs: &Vec<u8>, ctor_attrs: &Vec<u8>) -> (r: Vec<u8>)
    ensures
        r@ == struct_ctor_text(*s, ctor_attrs@, field_attrs@),
{
    let mut name: Vec<u8> = Vec::new();
    push_str(&mut name, "new");
    let mut path: Vec<u8> = Vec::new();
    push_str(&mut path, "Self");
    let mut r: Vec<u8> = Vec::new();
    generate_ctor(&mut r, &name, &path, s, ctor_attrs, field_attrs);
    assert(r@ =~= struct_ctor_text(*s, ctor_attrs@, field_attrs@));
    r
}

/// One constructor `new_<Variant>` per variant.
pub fn generate_enum_ctors(vs: &Vec<Variant>, field_attrs: &Vec<u8>, ctor_attrs: &Vec<u8>) -> (r: Vec<u8>)
    ensures
        r@ == enum_ctors_text(vs@, ctor_attrs@, field_attrs@),
{
    let ghost f = |i: int| variant_ctor_text(vs@[i], ctor_attrs@, field_attrs@);
    let mut r: Vec<u8> = Vec::new();
    let mut i: usize = 0;
    while i < vs.len()
        invariant
            i <= vs@.len(),
            f == (|i: int| variant_ctor_text(vs@[i], ctor_attrs@, field_attrs@)),
            r@ == concat(Seq::new(i as nat, f)),
        decreases vs@.len() - i,
    {
        proof {
            lemma_concat_step(f, i as nat);
        }
        let v = &vs[i];
        let mut name: Vec<u8> = Vec::new();
        push_str(&mut name, "new_");
        push_bytes(&mut name, v.name.as_slice());
        let mut path: Vec<u8> = Vec::new();
        push_str(&mut path, "Self::");
        push_bytes(&mut path, v.name.as_slice());
        generate_ctor(&mut r, &name, &path, &v.shape, ctor_attrs, field_attrs);
        i = i + 1;
    }
    assert(Seq::new(vs@.len(), |i: int| variant_ctor_text(vs@[i], ctor_attrs@, field_attrs@))
        =~= Seq::new(vs@.len(), f));
    r
}

/// The `impl` block with the constructors of a struct or enum.
pub fn generate_ctor_impl_block(
    ctor_attrs: &Vec<u8>,
    ty_name: &Vec<u8>,
    data: &Data,
    field_attrs: &Vec<u8>,
) -> (r: Vec<u8>)
    requires
        !(data is Union),
    ensures
        r@ == ctor_impl_text(ty_name@, *data, ctor_attrs@, field_attrs@),
{
    let mut r: Vec<u8> = Vec::new();
    push_str(&mut r, "impl ");
    push_bytes(&mut r, ty_name.as_slice());
    push_str(&mut r, " { ");
    let ctors = match data {
        Data::Struct(s) => generate_struct_ctor(s, field_attrs, ctor_attrs),
        Data::Enum(vs) => generate_enum_ctors(vs, field_attrs, ctor_attrs),
        Data::Union => Vec::new(),
    };
    push_bytes(&mut r, ctors.as_slice());
    push_str(&mut r, "} ");
    assert(r@ =~= ctor_impl_text(ty_name@, *data, ctor_attrs@, field_attrs@));
    r
}

} // verus!
