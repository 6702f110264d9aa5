//! The declaration augmenter: appends the context field to every shape and
//! renders the augmented declaration.
use vstd::prelude::*;
use vstd::string::StringSliceAdditionalSpecFns;
use crate::shape::{ctx_name, Data, DeclAttr, Shape, TypeDeclaration, Variant};
use crate::text::{concat, copy_bytes, lemma_concat_step, push_bytes, push_str};

verus! {

/// The type of the appended field.
pub open spec fn ctx_type() -> Seq<u8> {
    "err_marks_the_spot::ErrorCtx".spec_bytes()
}

/// A field of an augmented declaration, as source text.
#[derive(Debug)]
pub struct OutField {
    pub attrs: Vec<u8>,
    pub vis: Vec<u8>,
    pub name: Option<Vec<u8>>,
    pub ty: Vec<u8>,
}

/// A field as plain values.
pub struct FieldModel {
    pub attrs: Seq<u8>,
    pub vis: Seq<u8>,
    pub name: Option<Seq<u8>>,
    pub ty: Seq<u8>,
}

impl OutField {
    pub open spec fn view(&self) -> FieldModel {
        FieldModel {
            attrs: self.attrs@,
            vis: self.vis@,
            name: match self.name {
                Some(n) => Some(n@),
                None => None,
            },
            ty: self.ty@,
        }
    }
}

/// The fields of a struct or variant after augmentation; `braced` for named
/// fields, else positional.
#[derive(Debug)]
pub struct AugmentedFields {
    pub braced: bool,
    pub fields: Vec<OutField>,
}

pub open spec fn field_views(v: Seq<OutField>) -> Seq<FieldModel> {
    Seq::new(v.len(), |i: int| v[i].view())
}

/// The fields the user wrote.
pub open spec fn user_fields(s: Shape) -> Seq<FieldModel> {
    match s {
        Shape::Named(fs) => Seq::new(
            fs@.len(),
            |i: int|
                FieldModel {
                    attrs: fs@[i].attrs@,
                    vis: fs@[i].vis@,
                    name: Some(fs@[i].name@),
                    ty: fs@[i].ty@,
                },
        ),
        Shape::Unit => Seq::empty(),
        Shape::Positional(fs) => Seq::new(
            fs@.len(),
            |i: int| FieldModel { attrs: fs@[i].attrs@, vis: fs@[i].vis@, name: None, ty: fs@[i].ty@ },
        ),
    }
}

/// The appended field: `ctx` for named and unit shapes, unnamed for
/// positional ones; public in a struct, private in an enum variant.
pub open spec fn appended_field(s: Shape, public: bool, attrs: Seq<u8>) -> FieldModel {
    FieldModel {
        attrs,
        vis: if public {
            "pub".spec_bytes()
        } else {
            Seq::empty()
        },
        name: if s is Positional {
            None
        } else {
            Some(ctx_name())
        },
        ty: ctx_type(),
    }
}

/// Augmenting any shape, of a struct or of an enum variant, gives exactly one
/// field more than the user wrote: the user's fields unchanged and in order,
/// then one field of the context type.
pub proof fn augmentation_adds_one_context_field(s: Shape, public: bool, attrs: Seq<u8>)
    ensures
        user_fields(s).push(appended_field(s, public, attrs)).len() == s.field_count() + 1,
        user_fields(s).push(appended_field(s, public, attrs)).last().ty == ctx_type(),
        user_fields(s).push(appended_field(s, public, attrs)).drop_last() == user_fields(s),
{
    assert(user_fields(s).push(appended_field(s, public, attrs)).drop_last() =~= user_fields(s));
}

/// Builds the appended field.
pub fn ctx_field(field_attrs: &Vec<u8>, public: bool, named: bool) -> (r: OutField)
    ensures
        r.attrs@ == field_attrs@,
        r.vis@ == (if public {
            "pub".spec_bytes()
        } else {
            Seq::empty()
        }),
        named ==> (r.name matches Some(n) && n@ == ctx_name()),
        !named ==> r.name is None,
        r.ty@ == ctx_type(),
{
    let mut vis: Vec<u8> = Vec::new();
    if public {
        push_str(&mut vis, "pub");
    }
    let name = if named {
        let mut n: Vec<u8> = Vec::new();
        push_str(&mut n, "ctx");
        Some(n)
    } else {
        None
    };
    let mut ty: Vec<u8> = Vec::new();
    push_str(&mut ty, "err_marks_the_spot::ErrorCtx");
    OutField { attrs: copy_bytes(field_attrs), vis, name, ty }
}

/// Appends the context field to a shape: every user field kept in order, one
/// more field at the end. A unit shape becomes a braced one holding `ctx`.
pub fn augment_shape(s: &Shape, public: bool, field_attrs: &Vec<u8>) -> (r: AugmentedFields)
    ensures
        r.braced == !(s is Positional),
        field_views(r.fields@) == user_fields(*s).push(appended_field(*s, public, field_attrs@)),
        r.fields@.len() == s.field_count() + 1,
        r.fields@.last().ty@ == ctx_type(),
{
    let mut out: Vec<OutField> = Vec::new();
    match s {
        Shape::Named(fs) => {
            let mut i: usize = 0;
            while i < fs.len()
                invariant
                    i <= fs@.len(),
                    out@.len() == i,
                    forall|j: int|
                        0 <= j < i ==> #[trigger] out@[j].view() == (FieldModel {
                            attrs: fs@[j].attrs@,
                            vis: fs@[j].vis@,
                            name: Some(fs@[j].name@),
                            ty: fs@[j].ty@,
                        }),
                decreases fs@.len() - i,
            {
                let f = &fs[i];
                out.push(
                    OutField {
                        attrs: copy_bytes(&f.attrs),
                        vis: copy_bytes(&f.vis),
                        name: Some(copy_bytes(&f.name)),
                        ty: copy_bytes(&f.ty),
                    },
                );
                i = i + 1;
            }
            out.push(ctx_field(field_attrs, public, true));
        },
        Shape::Unit => {
            out.push(ctx_field(field_attrs, public, true));
        },
        Shape::Positional(fs) => {
            let mut i: usize = 0;
            while i < fs.len()
                invariant
                    i <= fs@.len(),
                    out@.len() == i,
                    forall|j: int|
                        0 <= j < i ==> #[trigger] out@[j].view() == (FieldModel {
                            attrs: fs@[j].attrs@,
                            vis: fs@[j].vis@,
                            name: None,
                            ty: fs@[j].ty@,
                        }),
                decreases fs@.len() - i,
            {
                let f = &fs[i];
                out.push(
                    OutField {
                        attrs: copy_bytes(&f.attrs),
                        vis: copy_bytes(&f.vis),
                        name: None,
                        ty: copy_bytes(&f.ty),
                    },
                );
                i = i + 1;
            }
            out.push(ctx_field(field_attrs, public, false));
        },
    }
    let braced = match s {
        Shape::Positional(_) => false,
        _ => true,
    };
    let r = AugmentedFields { braced, fields: out };
    assert(field_views(r.fields@) =~= user_fields(*s).push(appended_field(*s, public, field_attrs@)));
    r
}

/// Augments a struct's fields: the context field is public.
pub fn augment_struct(s: &Shape, field_attrs: &Vec<u8>) -> (r: AugmentedFields)
    ensures
        r.braced == !(s is Positional),
        field_views(r.fields@) == user_fields(*s).push(appended_field(*s, true, field_attrs@)),
{
    augment_shape(s, true, field_attrs)
}

/// A variant after augmentation.
#[derive(Debug)]
pub struct AugmentedVariant {
    pub attrs: Vec<u8>,
    pub name: Vec<u8>,
    pub fields: AugmentedFields,
}

/// Augments each variant of an enum: the context field is private to the
/// variant, reached only through the generated constructors and formatting.
pub fn augment_enum(vs: &Vec<Variant>, field_attrs: &Vec<u8>) -> (r: Vec<AugmentedVariant>)
    ensures
        r@.len() == vs@.len(),
        forall|i: int|
            0 <= i < vs@.len() ==> {
                let v = #[trigger] r@[i];
                &&& v.attrs@ == attrs_text(vs@[i].attrs@)
                &&& v.name@ == vs@[i].name@
                &&& v.fields.braced == !(vs@[i].shape is Positional)
                &&& field_views(v.fields.fields@) == user_fields(vs@[i].shape).push(
                    appended_field(vs@[i].shape, false, field_attrs@),
                )
            },
{
    let mut out: Vec<AugmentedVariant> = Vec::new();
    let mut i: usize = 0;
    while i < vs.len()
        invariant
            i <= vs@.len(),
            out@.len() == i,
            forall|j: int|
                0 <= j < i ==> {
                    let v = #[trigger] out@[j];
                    &&& v.attrs@ == attrs_text(vs@[j].attrs@)
                    &&& v.name@ == vs@[j].name@
                    &&& v.fields.braced == !(vs@[j].shape is Positional)
                    &&& field_views(v.fields.fields@) == user_fields(vs@[j].shape).push(
                        appended_field(vs@[j].shape, false, field_attrs@),
                    )
                },
        decreases vs@.len() - i,
    {
        let v = &vs[i];
        out.push(
            AugmentedVariant {
                attrs: render_attrs(&v.attrs),
                name: copy_bytes(&v.name),
                fields: augment_shape(&v.shape, false, field_attrs),
            },
        );
        i = i + 1;
    }
    out
}

/// The attributes' text, each followed by a space.
pub open spec fn attrs_text(attrs: Seq<DeclAttr>) -> Seq<u8> {
    concat(Seq::new(attrs.len(), |i: int| attrs[i].text@ + " ".spec_bytes()))
}

/// Renders a list of attributes.
pub fn render_attrs(attrs: &Vec<DeclAttr>) -> (r: Vec<u8>)
    ensures
        r@ == attrs_text(attrs@),
{
    let ghost f = |i: int| attrs@[i].text@ + " ".spec_bytes();
    let mut r: Vec<u8> = Vec::new();
    let mut i: usize = 0;
    while i < attrs.len()
        invariant
            i <= attrs@.len(),
            f == (|i: int| attrs@[i].text@ + " ".spec_bytes()),
            r@ == concat(Seq::new(i as nat, f)),
        decreases attrs@.len() - i,
    {
        proof {
            lemma_concat_step(f, i as nat);
        }
        push_bytes(&mut r, attrs[i].text.as_slice());
        push_str(&mut r, " ");
        i = i + 1;
    }
    r
}

/// One field: `attrs vis name: ty, ` or `attrs vis ty, `.
pub open spec fn field_text(f: FieldModel) -> Seq<u8> {
    f.attrs + " ".spec_bytes() + f.vis + " ".spec_bytes() + match f.name {
        Some(n) => n + ": ".spec_bytes(),
        None => Seq::empty(),
    } + f.ty + ", ".spec_bytes()
}

/// The field list, in braces or parentheses.
pub open spec fn fields_text(braced: bool, fs: Seq<FieldModel>) -> Seq<u8> {
    (if braced {
        "{ ".spec_bytes()
    } else {
        "(".spec_bytes()
    }) + concat(Seq::new(fs.len(), |i: int| field_text(fs[i]))) + (if braced {
        "}".spec_bytes()
    } else {
        ")".spec_bytes()
    })
}

fn render_field(out: &mut Vec<u8>, f: &OutField)
    ensures
        final(out)@ == old(out)@ + field_text(f.view()),
{
    push_bytes(out, f.attrs.as_slice());
    push_str(out, " ");
    push_bytes(out, f.vis.as_slice());
    push_str(out, " ");
    match &f.name {
        Some(n) => {
            push_bytes(out, n.as_slice());
            push_str(out, ": ");
        },
        None => {},
    }
    push_bytes(out, f.ty.as_slice());
    push_str(out, ", ");
    assert(final(out)@ =~= old(out)@ + field_text(f.view()));
}

/// Renders an augmented field list.
pub fn render_fields(out: &mut Vec<u8>, af: &AugmentedFields)
    ensures
        final(out)@ == old(out)@ + fields_text(af.braced, field_views(af.fields@)),
{
    let ghost fs = field_views(af.fields@);
    let ghost f = |i: int| field_text(fs[i]);
    let ghost start = out@;
    if af.braced {
        push_str(out, "{ ");
    } else {
        push_str(out, "(");
    }
    let ghost opened = out@;
    let mut i: usize = 0;
    while i < af.fields.len()
        invariant
            i <= af.fields@.len(),
            fs == field_views(af.fields@),
            f == (|i: int| field_text(fs[i])),
            out@ == opened + concat(Seq::new(i as nat, f)),
        decreases af.fields@.len() - i,
    {
        proof {
            lemma_concat_step(f, i as nat);
        }
        render_field(out, &af.fields[i]);
        i = i + 1;
    }
    if af.braced {
        push_str(out, "}");
    } else {
        push_str(out, ")");
    }
    assert(Seq::new(fs.len(), |i: int| field_text(fs[i])) =~= Seq::new(fs.len(), f));
    assert(out@ =~= start + fields_text(af.braced, fs));
}

/// The text before the body: attributes, visibility, keyword, name, generics.
pub open spec fn decl_head(d: TypeDeclaration, keyword: Seq<u8>) -> Seq<u8> {
    attrs_text(d.attrs@) + d.vis@ + " ".spec_bytes() + keyword + " ".spec_bytes() + d.name@
        + d.generics@ + " ".spec_bytes()
}

/// One augmented variant: `attrs Name fields, `.
pub open spec fn variant_text(v: Variant, field_attrs: Seq<u8>) -> Seq<u8> {
    attrs_text(v.attrs@) + v.name@ + " ".spec_bytes() + fields_text(
        !(v.shape is Positional),
        user_fields(v.shape).push(appended_field(v.shape, false, field_attrs)),
    ) + ", ".spec_bytes()
}

/// The augmented declaration.
pub open spec fn declaration_text(d: TypeDeclaration, field_attrs: Seq<u8>) -> Seq<u8> {
    match d.data {
        Data::Struct(s) => {
            let fs = user_fields(s).push(appended_field(s, true, field_attrs));
            if s is Positional {
                decl_head(d, "struct".spec_bytes()) + fields_text(false, fs) + " ".spec_bytes()
                    + d.where_clause@ + ";".spec_bytes()
            } else {
                decl_head(d, "struct".spec_bytes()) + d.where_clause@ + " ".spec_bytes()
                    + fields_text(true, fs)
            }
        },
        Data::Enum(vs) => decl_head(d, "enum".spec_bytes()) + d.where_clause@ + " { ".spec_bytes()
            + concat(Seq::new(vs@.len(), |i: int| variant_text(vs@[i], field_attrs)))
            + "} ".spec_bytes(),
        Data::Union => Seq::empty(),
    }
}

fn render_head(out: &mut Vec<u8>, d: &TypeDeclaration, keyword: &str)
    ensures
        final(out)@ == old(out)@ + decl_head(*d, keyword.spec_bytes()),
{
    let a = render_attrs(&d.attrs);
    push_bytes(out, a.as_slice());
    push_bytes(out, d.vis.as_slice());
    push_str(out, " ");
    push_str(out, keyword);
    push_str(out, " ");
    push_bytes(out, d.name.as_slice());
    push_bytes(out, d.generics.as_slice());
    push_str(out, " ");
    assert(final(out)@ =~= old(out)@ + decl_head(*d, keyword.spec_bytes()));
}

/// Renders the declaration with the context field appended to every shape;
/// `field_attrs` goes on each appended field.
pub fn render_declaration(d: &TypeDeclaration, field_attrs: &Vec<u8>) -> (r: Vec<u8>)
    requires
        !(d.data is Union),
    ensures
        r@ == declaration_text(*d, field_attrs@),
{
    let mut out: Vec<u8> = Vec::new();
    match &d.data {
        Data::Struct(s) => {
            let af = augment_struct(s, field_attrs);
            render_head(&mut out, d, "struct");
            if af.braced {
                push_bytes(&mut out, d.where_clause.as_slice());
                push_str(&mut out, " ");
                render_fields(&mut out, &af);
            } else {
                render_fields(&mut out, &af);
                push_str(&mut out, " ");
                push_bytes(&mut out, d.where_clause.as_slice());
                push_str(&mut out, ";");
            }
        },
        Data::Enum(vs) => {
            let avs = augment_enum(vs, field_attrs);
            render_head(&mut out, d, "enum");
            push_bytes(&mut out, d.where_clause.as_slice());
            push_str(&mut out, " { ");
            let ghost f = |i: int| variant_text(vs@[i], field_attrs@);
            let ghost opened = out@;
            let mut i: usize = 0;
            while i < avs.len()
                invariant
                    i <= avs@.len(),
                    avs@.len() == vs@.len(),
                    forall|j: int|
                        0 <= j < vs@.len() ==> {
                            let v = #[trigger] avs@[j];
                            &&& v.attrs@ == attrs_text(vs@[j].attrs@)
                            &&& v.name@ == vs@[j].name@
                            &&& v.fields.braced == !(vs@[j].shape is Positional)
                            &&& field_views(v.fields.fields@) == user_fields(vs@[j].shape).push(
                                appended_field(vs@[j].shape, false, field_attrs@),
                            )
                        },
                    f == (|i: int| variant_text(vs@[i], field_attrs@)),
                    out@ == opened + concat(Seq::new(i as nat, f)),
                decreases avs@.len() - i,
            {
                proof {
                    lemma_concat_step(f, i as nat);
                }
                let ghost before = out@;
                let v = &avs[i];
                push_bytes(&mut out, v.attrs.as_slice());
                push_bytes(&mut out, v.name.as_slice());
                push_str(&mut out, " ");
                render_fields(&mut out, &v.fields);
                push_str(&mut out, ", ");
                assert(out@ =~= before + variant_text(vs@[i as int], field_attrs@));
                i = i + 1;
            }
            push_str(&mut out, "} ");
            assert(Seq::new(vs@.len(), |i: int| variant_text(vs@[i], field_attrs@)) =~= Seq::new(
                vs@.len(),
                f,
            ));
        },
        Data::Union => {},
    }
    assert(out@ =~= declaration_text(*d, field_attrs@));
    out
}

} // verus!
