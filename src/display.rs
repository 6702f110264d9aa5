//! Generation of the formatting routine: one `writeln!` per documentation
//! line, then a blank line and the context field.
use vstd::prelude::*;
use vstd::string::StringSliceAdditionalSpecFns;
use crate::attr::{cfg_attr_text, cfg_not_attr_text, field_attrs_text, AttrConfig, TypeAttrArgs};
use crate::docs::{doc_lines, get_docstrs_from_attrs};
use crate::docs::{
    braces_only_in_placeholders, fill, substitute, template_prints_values_in_order, doc_sites, find_docstring_fields, first_unresolved, modify_docstr, resolve_fields, resolved,
    rewrite, site_key, site_keys, token_views,
};
use crate::shape::{
    append_key, create_fields_map, ctx_name, entries_view, Data, FieldEntry, FieldIdToken, FieldRef,
    Shape, TransformError, TypeDeclaration, Variant,
};
use crate::text::{
    concat, dec_digits, dec_digits_of, lemma_concat_step, push_bytes, push_str, vec_views,
};

verus! {

/// One formatting statement: a template of `{}` slots and the fields that
/// fill them, in order.
#[derive(Debug)]
pub struct DisplayLine {
    pub template: Vec<u8>,
    pub args: Vec<FieldIdToken>,
}

/// The keys of the placeholders of a documentation line, in order.
pub open spec fn doc_keys(doc: Seq<u8>) -> Seq<Seq<u8>> {
    Seq::new(doc_sites(doc).len(), |i: int| site_key(doc, doc_sites(doc)[i]))
}

/// Every placeholder of the line names a field of the table.
pub open spec fn line_resolves(t: Seq<(Seq<u8>, FieldRef)>, doc: Seq<u8>) -> bool {
    first_unresolved(t, doc_keys(doc), 0) is None
}

/// Every line resolves.
pub open spec fn lines_resolve(t: Seq<(Seq<u8>, FieldRef)>, docs: Seq<Seq<u8>>) -> bool {
    forall|i: int| 0 <= i < docs.len() ==> line_resolves(t, #[trigger] docs[i])
}

/// The formatting statement of one documentation line.
pub fn plan_doc_line(doc: &Vec<u8>, table: &Vec<FieldEntry>, owner: &Vec<u8>) -> (r: Result<
    DisplayLine,
    TransformError,
>)
    ensures
        line_resolves(entries_view(table@), doc@) ==> (r matches Ok(l) && l.template@ == rewrite(
            doc@,
            doc_sites(doc@),
        ) && token_views(l.args@) == resolved(entries_view(table@), doc_keys(doc@))),
        !line_resolves(entries_view(table@), doc@) ==> (r matches Err(
            TransformError::UnresolvedFieldReference { owner: o, key: k },
        ) && o@ == owner@ && table_lookup_fails(entries_view(table@), k@)),
{
    let sites = find_docstring_fields(doc);
    assert(site_keys(sites@) =~= doc_keys(doc@)) by {
        assert forall|i: int| 0 <= i < sites@.len() implies site_keys(sites@)[i] == doc_keys(
            doc@,
        )[i] by {
            assert(crate::docs::site_ranges(sites@)[i] == sites@[i].range());
        }
    }
    proof {
        crate::docs::lemma_sites_from(doc@, 0);
        lemma_first_unresolved(entries_view(table@), doc_keys(doc@), 0);
    }
    match resolve_fields(&sites, table, owner) {
        Ok(args) => {
            let template = modify_docstr(doc, &sites);
            Ok(DisplayLine { template, args })
        },
        Err(e) => Err(e),
    }
}

/// The table holds no entry for `key`.
pub open spec fn table_lookup_fails(t: Seq<(Seq<u8>, FieldRef)>, key: Seq<u8>) -> bool {
    crate::shape::table_lookup(t, key) is None
}

proof fn lemma_first_unresolved(t: Seq<(Seq<u8>, FieldRef)>, keys: Seq<Seq<u8>>, i: int)
    requires
        0 <= i,
    ensures
        first_unresolved(t, keys, i) matches Some(j) ==> i <= j < keys.len()
            && crate::shape::table_lookup(t, keys[j as int]) is None,
    decreases keys.len() - i,
{
    if i < keys.len() && crate::shape::table_lookup(t, keys[i]) is Some {
        lemma_first_unresolved(t, keys, i + 1);
    }
}

/// A planned line as plain values: template and field references.
pub open spec fn line_view(l: DisplayLine) -> (Seq<u8>, Seq<FieldRef>) {
    (l.template@, token_views(l.args@))
}

pub open spec fn lines_view(v: Seq<DisplayLine>) -> Seq<(Seq<u8>, Seq<FieldRef>)> {
    Seq::new(v.len(), |i: int| line_view(v[i]))
}

/// The plan of each documentation line, where all of them resolve.
pub open spec fn planned_lines(t: Seq<(Seq<u8>, FieldRef)>, docs: Seq<Seq<u8>>) -> Seq<
    (Seq<u8>, Seq<FieldRef>),
> {
    Seq::new(docs.len(), |i: int| (rewrite(docs[i], doc_sites(docs[i])), resolved(t, doc_keys(docs[i]))))
}

/// Plans every documentation line of a struct or variant.
pub fn plan_doc_lines(docs: &Vec<Vec<u8>>, table: &Vec<FieldEntry>, owner: &Vec<u8>) -> (r: Result<
    Vec<DisplayLine>,
    TransformError,
>)
    ensures
        lines_resolve(entries_view(table@), vec_views(docs@)) ==> (r matches Ok(v) && lines_view(v@)
            == planned_lines(entries_view(table@), vec_views(docs@))),
        !lines_resolve(entries_view(table@), vec_views(docs@)) ==> (r matches Err(
            TransformError::UnresolvedFieldReference { owner: o, key: k },
        ) && o@ == owner@ && table_lookup_fails(entries_view(table@), k@)),
{
    let ghost t = entries_view(table@);
    let ghost ds = vec_views(docs@);
    let mut v: Vec<DisplayLine> = Vec::new();
    let mut i: usize = 0;
    while i < docs.len()
        invariant
            i <= docs@.len(),
            t == entries_view(table@),
            ds == vec_views(docs@),
            v@.len() == i,
            forall|j: int| 0 <= j < i ==> line_resolves(t, #[trigger] ds[j]),
            forall|j: int| 0 <= j < i ==> #[trigger] line_view(v@[j]) == planned_lines(t, ds)[j],
        decreases docs@.len() - i,
    {
        assert(ds[i as int] == docs@[i as int]@);
        match plan_doc_line(&docs[i], table, owner) {
            Ok(l) => {
                v.push(l);
            },
            Err(e) => {
                return Err(e);
            },
        }
        i = i + 1;
    }
    assert(lines_view(v@) =~= planned_lines(t, ds));
    Ok(v)
}

/// How a field reference reads after `self.`: its name or its index.
pub open spec fn ref_text(f: FieldRef) -> Seq<u8> {
    match f {
        FieldRef::Name(n) => n,
        FieldRef::Index(i) => dec_digits_of(i),
    }
}

/// The binding that a match arm gives a field: its name, or `f<i>`.
pub open spec fn binding_text(f: FieldRef) -> Seq<u8> {
    match f {
        FieldRef::Name(n) => n,
        FieldRef::Index(i) => "f".spec_bytes() + dec_digits_of(i),
    }
}

/// How the formatting routine reaches a field: through `&self.` in a struct,
/// through the arm's binding in an enum.
pub open spec fn access_text(f: FieldRef, in_enum: bool) -> Seq<u8> {
    if in_enum {
        "&".spec_bytes() + binding_text(f)
    } else {
        "&self.".spec_bytes() + ref_text(f)
    }
}

/// One byte inside a string literal: `\` and `"` escaped.
pub open spec fn escape_byte(b: u8) -> Seq<u8> {
    if b == 92u8 {
        seq![92u8, 92u8]
    } else if b == 34u8 {
        seq![92u8, 34u8]
    } else {
        seq![b]
    }
}

/// The bytes as the contents of a string literal.
pub open spec fn escaped(t: Seq<u8>) -> Seq<u8> {
    concat(Seq::new(t.len(), |i: int| escape_byte(t[i])))
}

/// `writeln!(f, "<template>", <args>)?; `
pub open spec fn line_text(l: (Seq<u8>, Seq<FieldRef>), in_enum: bool) -> Seq<u8> {
    "writeln!(f, \"".spec_bytes() + escaped(l.0) + "\"".spec_bytes() + concat(
        Seq::new(l.1.len(), |i: int| ", ".spec_bytes() + access_text(l.1[i], in_enum)),
    ) + ")?; ".spec_bytes()
}

pub open spec fn lines_text(ls: Seq<(Seq<u8>, Seq<FieldRef>)>, in_enum: bool) -> Seq<u8> {
    concat(Seq::new(ls.len(), |i: int| line_text(ls[i], in_enum)))
}

/// The blank separator and the context line, each behind the field gate.
pub open spec fn ctx_lines_text(gate: Seq<u8>, ctx: FieldRef, in_enum: bool) -> Seq<u8> {
    gate + "writeln!(f, \"\")?; ".spec_bytes() + gate + "writeln!(f, \"{}\", ".spec_bytes()
        + access_text(ctx, in_enum) + ")?; ".spec_bytes()
}

fn push_escaped(out: &mut Vec<u8>, t: &Vec<u8>)
    ensures
        final(out)@ == old(out)@ + escaped(t@),
{
    let ghost f = |i: int| escape_byte(t@[i]);
    let ghost start = out@;
    let mut i: usize = 0;
    while i < t.len()
        invariant
            i <= t@.len(),
            f == (|i: int| escape_byte(t@[i])),
            out@ == start + concat(Seq::new(i as nat, f)),
        decreases t@.len() - i,
    {
        proof {
            lemma_concat_step(f, i as nat);
        }
        let b = t[i];
        if b == 92 || b == 34 {
            out.push(92);
        }
        out.push(b);
        assert(out@ =~= start + concat(Seq::new((i + 1) as nat, f)));
        i = i + 1;
    }
}

fn push_access(out: &mut Vec<u8>, tok: &FieldIdToken, in_enum: bool)
    ensures
        final(out)@ == old(out)@ + access_text(tok.view(), in_enum),
{
    let ghost start = out@;
    if in_enum {
        push_str(out, "&");
        match tok {
            FieldIdToken::Ident(n) => push_bytes(out, n.as_slice()),
            FieldIdToken::Literal(i) => {
                push_str(out, "f");
                let d = dec_digits(*i);
                push_bytes(out, d.as_slice());
            },
        }
    } else {
        push_str(out, "&self.");
        match tok {
            FieldIdToken::Ident(n) => push_bytes(out, n.as_slice()),
            FieldIdToken::Literal(i) => {
                let d = dec_digits(*i);
                push_bytes(out, d.as_slice());
            },
        }
    }
    assert(out@ =~= start + access_text(tok.view(), in_enum));
}

/// Renders one formatting statement.
pub fn render_line(out: &mut Vec<u8>, l: &DisplayLine, in_enum: bool)
    ensures
        final(out)@ == old(out)@ + line_text(line_view(*l), in_enum),
{
    let ghost start = out@;
    let ghost refs = token_views(l.args@);
    let ghost f = |i: int| ", ".spec_bytes() + access_text(refs[i], in_enum);
    push_str(out, "writeln!(f, \"");
    push_escaped(out, &l.template);
    push_str(out, "\"");
    let ghost a0 = out@;
    let mut i: usize = 0;
    while i < l.args.len()
        invariant
            i <= l.args@.len(),
            refs == token_views(l.args@),
            f == (|i: int| ", ".spec_bytes() + access_text(refs[i], in_enum)),
            out@ == a0 + concat(Seq::new(i as nat, f)),
        decreases l.args@.len() - i,
    {
        proof {
            lemma_concat_step(f, i as nat);
        }
        let ghost before = out@;
        push_str(out, ", ");
        push_access(out, &l.args[i], in_enum);
        assert(out@ =~= before + f(i as int));
        i = i + 1;
    }
    push_str(out, ")?; ");
    assert(Seq::new(refs.len(), |i: int| ", ".spec_bytes() + access_text(refs[i], in_enum))
        =~= Seq::new(l.args@.len() as nat, f));
    assert(out@ =~= start + line_text(line_view(*l), in_enum));
}

/// Renders the statements of all lines.
pub fn render_lines(out: &mut Vec<u8>, ls: &Vec<DisplayLine>, in_enum: bool)
    ensures
        final(out)@ == old(out)@ + lines_text(lines_view(ls@), in_enum),
{
    let ghost lv = lines_view(ls@);
    let ghost f = |i: int| line_text(lv[i], in_enum);
    let ghost start = out@;
    let mut i: usize = 0;
    while i < ls.len()
        invariant
            i <= ls@.len(),
            lv == lines_view(ls@),
            f == (|i: int| line_text(lv[i], in_enum)),
            out@ == start + concat(Seq::new(i as nat, f)),
        decreases ls@.len() - i,
    {
        proof {
            lemma_concat_step(f, i as nat);
        }
        render_line(out, &ls[i], in_enum);
        i = i + 1;
    }
    assert(Seq::new(lv.len(), |i: int| line_text(lv[i], in_enum)) =~= Seq::new(ls@.len() as nat, f));
}

/// Renders the separator and the context line.
#[allow(non_snake_case)]
pub fn writeln_for_ErrorCtx_field(out: &mut Vec<u8>, gate: &Vec<u8>, ctx: &FieldIdToken, in_enum: bool)
    ensures
        final(out)@ == old(out)@ + ctx_lines_text(gate@, ctx.view(), in_enum),
{
    let ghost start = out@;
    push_bytes(out, gate.as_slice());
    push_str(out, "writeln!(f, \"\")?; ");
    push_bytes(out, gate.as_slice());
    push_str(out, "writeln!(f, \"{}\", ");
    push_access(out, ctx, in_enum);
    push_str(out, ")?; ");
    assert(out@ =~= start + ctx_lines_text(gate@, ctx.view(), in_enum));
}

/// The reference to user field `i` of a shape.
pub open spec fn user_ref(s: Shape, i: int) -> FieldRef {
    match s {
        Shape::Named(fs) => FieldRef::Name(fs@[i].name@),
        _ => FieldRef::Index(i as nat),
    }
}

/// The bindings of a match arm, with or without the context field.
pub open spec fn binds_text(s: Shape, with_ctx: bool) -> Seq<u8> {
    (if s is Positional {
        "(".spec_bytes()
    } else {
        "{ ".spec_bytes()
    }) + concat(
        Seq::new(s.field_count(), |i: int| binding_text(user_ref(s, i)) + ", ".spec_bytes()),
    ) + (if with_ctx {
        "ctx, ".spec_bytes()
    } else {
        Seq::empty()
    }) + (if s is Positional {
        ")".spec_bytes()
    } else {
        "}".spec_bytes()
    })
}

/// The body of a variant's arm.
pub open spec fn arm_body_text(lines: Seq<(Seq<u8>, Seq<FieldRef>)>, gate: Seq<u8>) -> Seq<u8> {
    " => { ".spec_bytes() + lines_text(lines, true) + ctx_lines_text(
        gate,
        FieldRef::Name(ctx_name()),
        true,
    ) + "}, ".spec_bytes()
}

/// One arm: its `cfg` attribute (or nothing), the pattern, and the body.
pub open spec fn arm_text(
    attr: Seq<u8>,
    v: Variant,
    with_ctx: bool,
    lines: Seq<(Seq<u8>, Seq<FieldRef>)>,
    gate: Seq<u8>,
) -> Seq<u8> {
    attr + "Self::".spec_bytes() + v.name@ + " ".spec_bytes() + binds_text(v.shape, with_ctx)
        + arm_body_text(lines, gate)
}

/// The arms of one variant: with a feature gate, one arm that binds the
/// context field and one that does not, each under its own `cfg`.
pub open spec fn arms_text(v: Variant, lines: Seq<(Seq<u8>, Seq<FieldRef>)>, c: AttrConfig) -> Seq<u8> {
    match c.feature {
        Some(f) => arm_text(cfg_attr_text(f), v, true, lines, field_attrs_text(c)) + arm_text(
            cfg_not_attr_text(f),
            v,
            false,
            lines,
            field_attrs_text(c),
        ),
        None => arm_text(Seq::empty(), v, true, lines, Seq::empty()),
    }
}

/// The planned lines of a variant.
pub open spec fn variant_lines(v: Variant) -> Seq<(Seq<u8>, Seq<FieldRef>)> {
    planned_lines(v.shape.table(), doc_lines(v.attrs@))
}

/// Every placeholder of the declaration names a field of its shape.
pub open spec fn display_resolves(d: TypeDeclaration) -> bool {
    match d.data {
        Data::Struct(s) => lines_resolve(s.table(), doc_lines(d.attrs@)),
        Data::Enum(vs) => forall|i: int|
            0 <= i < vs@.len() ==> lines_resolve(
                (#[trigger] vs@[i]).shape.table(),
                doc_lines(vs@[i].attrs@),
            ),
        Data::Union => true,
    }
}

/// `owner` is the declaration (`Type`) or one of its variants
/// (`Type::Variant`), and `key` names no field of its shape.
pub open spec fn names_unresolved(d: TypeDeclaration, owner: Seq<u8>, key: Seq<u8>) -> bool {
    match d.data {
        Data::Struct(s) => owner == d.name@ && table_lookup_fails(s.table(), key),
        Data::Enum(vs) => exists|i: int|
            0 <= i < vs@.len() && owner == d.name@ + "::".spec_bytes() + (#[trigger] vs@[i]).name@
                && table_lookup_fails(vs@[i].shape.table(), key),
        Data::Union => false,
    }
}

/// What the formatting routine does, where every placeholder resolves.
pub open spec fn display_contents_text(d: TypeDeclaration, c: AttrConfig) -> Seq<u8> {
    match d.data {
        Data::Struct(s) => lines_text(planned_lines(s.table(), doc_lines(d.attrs@)), false)
            + ctx_lines_text(field_attrs_text(c), s.append_ref(), false),
        Data::Enum(vs) => "match self { ".spec_bytes() + concat(
            Seq::new(vs@.len(), |i: int| arms_text(vs@[i], variant_lines(vs@[i]), c)),
        ) + "} ".spec_bytes(),
        Data::Union => Seq::empty(),
    }
}

/// The `Display` impl of the declaration.
pub open spec fn display_impl_text(d: TypeDeclaration, c: AttrConfig) -> Seq<u8> {
    "impl std::fmt::Display for ".spec_bytes() + d.name@
        + " { fn fmt(&self, f: &mut std::fmt::Formatter<'_>) -> std::fmt::Result { ".spec_bytes()
        + display_contents_text(d, c) + "Ok(()) } } ".spec_bytes()
}

fn push_binds(out: &mut Vec<u8>, s: &Shape, with_ctx: bool)
    ensures
        final(out)@ == old(out)@ + binds_text(*s, with_ctx),
{
    let ghost start = out@;
    let (positional, n) = match s {
        Shape::Named(fs) => (false, fs.len()),
        Shape::Unit => (false, 0),
        Shape::Positional(fs) => (true, fs.len()),
    };
    if positional {
        push_str(out, "(");
    } else {
        push_str(out, "{ ");
    }
    let ghost f = |i: int| binding_text(user_ref(*s, i)) + ", ".spec_bytes();
    let ghost b0 = out@;
    let mut i: usize = 0;
    while i < n
        invariant
            i <= n,
            n == s.field_count(),
            f == (|i: int| binding_text(user_ref(*s, i)) + ", ".spec_bytes()),
            out@ == b0 + concat(Seq::new(i as nat, f)),
        decreases n - i,
    {
        proof {
            lemma_concat_step(f, i as nat);
        }
        let ghost before = out@;
        match s {
            Shape::Named(fs) => push_bytes(out, fs[i].name.as_slice()),
            _ => {
                push_str(out, "f");
                let d = dec_digits(i);
                push_bytes(out, d.as_slice());
            },
        }
        push_str(out, ", ");
        assert(out@ =~= before + f(i as int));
        i = i + 1;
    }
    if with_ctx {
        push_str(out, "ctx, ");
    }
    if positional {
        push_str(out, ")");
    } else {
        push_str(out, "}");
    }
    assert(Seq::new(s.field_count(), |i: int| binding_text(user_ref(*s, i)) + ", ".spec_bytes())
        =~= Seq::new(n as nat, f));
    assert(out@ =~= start + binds_text(*s, with_ctx));
}

fn push_arm_body(out: &mut Vec<u8>, lines: &Vec<DisplayLine>, gate: &Vec<u8>)
    ensures
        final(out)@ == old(out)@ + arm_body_text(lines_view(lines@), gate@),
{
    let ghost start = out@;
    let mut ctx: Vec<u8> = Vec::new();
    push_str(&mut ctx, "ctx");
    let tok = FieldIdToken::Ident(ctx);
    push_str(out, " => { ");
    render_lines(out, lines, true);
    writeln_for_ErrorCtx_field(out, gate, &tok, true);
    push_str(out, "}, ");
    assert(out@ =~= start + arm_body_text(lines_view(lines@), gate@));
}

fn push_arm(
    out: &mut Vec<u8>,
    attr: &Vec<u8>,
    v: &Variant,
    with_ctx: bool,
    lines: &Vec<DisplayLine>,
    gate: &Vec<u8>,
)
    ensures
        final(out)@ == old(out)@ + arm_text(attr@, *v, with_ctx, lines_view(lines@), gate@),
{
    let ghost start = out@;
    push_bytes(out, attr.as_slice());
    push_str(out, "Self::");
    push_bytes(out, v.name.as_slice());
    push_str(out, " ");
    push_binds(out, &v.shape, with_ctx);
    push_arm_body(out, lines, gate);
    assert(out@ =~= start + arm_text(attr@, *v, with_ctx, lines_view(lines@), gate@));
}

fn push_arms(out: &mut Vec<u8>, v: &Variant, lines: &Vec<DisplayLine>, args: &TypeAttrArgs)
    ensures
        final(out)@ == old(out)@ + arms_text(*v, lines_view(lines@), args.config()),
{
    let ghost start = out@;
    let gate = args.field_attr_vec();
    match &args.build_feature {
        Some(b) => {
            let on = b.to_attr();
            push_arm(out, &on, v, true, lines, &gate);
            let mut off: Vec<u8> = Vec::new();
            push_str(&mut off, "#[cfg(not(feature = ");
            push_bytes(&mut off, b.value.as_slice());
            push_str(&mut off, "))] ");
            push_arm(out, &off, v, false, lines, &gate);
        },
        None => {
            let none: Vec<u8> = Vec::new();
            push_arm(out, &none, v, true, lines, &gate);
        },
    }
    assert(out@ =~= start + arms_text(*v, lines_view(lines@), args.config()));
}

/// The statements of a struct's formatting routine.
#[allow(non_snake_case)]
pub fn get_struct_impl_Display_contents(
    out: &mut Vec<u8>,
    args: &TypeAttrArgs,
    ty_name: &Vec<u8>,
    docs: &Vec<Vec<u8>>,
    s: &Shape,
) -> (r: Result<(), TransformError>)
    ensures
        lines_resolve(s.table(), vec_views(docs@)) ==> r is Ok && final(out)@ == old(out)@
            + lines_text(planned_lines(s.table(), vec_views(docs@)), false) + ctx_lines_text(
            field_attrs_text(args.config()),
            s.append_ref(),
            false,
        ),
        !lines_resolve(s.table(), vec_views(docs@)) ==> (r matches Err(
            TransformError::UnresolvedFieldReference { owner: o, key: k },
        ) && o@ == ty_name@ && table_lookup_fails(s.table(), k@)),
{
    let ghost start = out@;
    let table = create_fields_map(s);
    let lines = match plan_doc_lines(docs, &table, ty_name) {
        Ok(l) => l,
        Err(e) => return Err(e),
    };
    render_lines(out, &lines, false);
    let gate = args.field_attr_vec();
    let ctx = append_key(s);
    writeln_for_ErrorCtx_field(out, &gate, &ctx, false);
    Ok(())
}

/// The `match` of an enum's formatting routine: the arms of each variant.
#[allow(non_snake_case)]
pub fn get_enum_impl_Display_contents(
    out: &mut Vec<u8>,
    args: &TypeAttrArgs,
    ty_name: &Vec<u8>,
    vs: &Vec<Variant>,
) -> (r: Result<(), TransformError>)
    ensures
        (forall|i: int|
            0 <= i < vs@.len() ==> lines_resolve(
                (#[trigger] vs@[i]).shape.table(),
                doc_lines(vs@[i].attrs@),
            )) ==> r is Ok && final(out)@ == old(out)@ + "match self { ".spec_bytes() + concat(
            Seq::new(vs@.len(), |i: int| arms_text(vs@[i], variant_lines(vs@[i]), args.config())),
        ) + "} ".spec_bytes(),
        !(forall|i: int|
            0 <= i < vs@.len() ==> lines_resolve(
                (#[trigger] vs@[i]).shape.table(),
                doc_lines(vs@[i].attrs@),
            )) ==> (r matches Err(TransformError::UnresolvedFieldReference { owner: o, key: k })
            && exists|i: int|
            0 <= i < vs@.len() && o@ == ty_name@ + "::".spec_bytes() + (#[trigger] vs@[i]).name@
                && table_lookup_fails(vs@[i].shape.table(), k@)),
{
    let ghost start = out@;
    let ghost f = |i: int| arms_text(vs@[i], variant_lines(vs@[i]), args.config());
    push_str(out, "match self { ");
    let ghost m0 = out@;
    let mut i: usize = 0;
    while i < vs.len()
        invariant
            i <= vs@.len(),
            f == (|i: int| arms_text(vs@[i], variant_lines(vs@[i]), args.config())),
            forall|j: int|
                0 <= j < i ==> lines_resolve(
                    (#[trigger] vs@[j]).shape.table(),
                    doc_lines(vs@[j].attrs@),
                ),
            out@ == m0 + concat(Seq::new(i as nat, f)),
        decreases vs@.len() - i,
    {
        proof {
            lemma_concat_step(f, i as nat);
        }
        let v = &vs[i];
        let docs = get_docstrs_from_attrs(&v.attrs);
        let table = create_fields_map(&v.shape);
        let mut owner: Vec<u8> = Vec::new();
        push_bytes(&mut owner, ty_name.as_slice());
        push_str(&mut owner, "::");
        push_bytes(&mut owner, v.name.as_slice());
        let lines = match plan_doc_lines(&docs, &table, &owner) {
            Ok(l) => l,
            Err(e) => return Err(e),
        };
        assert(lines_view(lines@) == variant_lines(vs@[i as int]));
        push_arms(out, v, &lines, args);
        i = i + 1;
    }
    push_str(out, "} ");
    assert(Seq::new(vs@.len(), |i: int| arms_text(vs@[i], variant_lines(vs@[i]), args.config()))
        =~= Seq::new(vs@.len(), f));
    Ok(())
}

/// The `Display` impl of a declaration: each documentation line with its
/// placeholders filled, then the context field.
#[allow(non_snake_case)]
pub fn gen_impl_Display_for_type(args: &TypeAttrArgs, d: &TypeDeclaration) -> (r: Result<
    Vec<u8>,
    TransformError,
>)
    requires
        !(d.data is Union),
    ensures
        display_resolves(*d) ==> (r matches Ok(t) && t@ == display_impl_text(*d, args.config())),
        !display_resolves(*d) ==> (r matches Err(
            TransformError::UnresolvedFieldReference { owner: o, key: k },
        ) && names_unresolved(*d, o@, k@)),
{
    let mut out: Vec<u8> = Vec::new();
    push_str(&mut out, "impl std::fmt::Display for ");
    push_bytes(&mut out, d.name.as_slice());
    push_str(&mut out, " { fn fmt(&self, f: &mut std::fmt::Formatter<'_>) -> std::fmt::Result { ");
    let ghost head = out@;
    match &d.data {
        Data::Struct(s) => {
            let docs = get_docstrs_from_attrs(&d.attrs);
            match get_struct_impl_Display_contents(&mut out, args, &d.name, &docs, s) {
                Ok(()) => {},
                Err(e) => return Err(e),
            }
        },
        Data::Enum(vs) => {
            match get_enum_impl_Display_contents(&mut out, args, &d.name, vs) {
                Ok(()) => {},
                Err(e) => return Err(e),
            }
        },
        Data::Union => {},
    }
    assert(out@ == head + display_contents_text(*d, args.config()));
    push_str(&mut out, "Ok(()) } } ");
    assert(out@ =~= display_impl_text(*d, args.config()));
    Ok(out)
}

/// What a formatting routine prints: each planned line with its slots filled
/// by the printed values of its fields, then, where the context field is
/// compiled in, a blank line and the context.
pub open spec fn routine_output(
    lines: Seq<(Seq<u8>, Seq<FieldRef>)>,
    value: spec_fn(FieldRef) -> Seq<u8>,
    ctx: FieldRef,
    ctx_compiled: bool,
) -> Seq<u8> {
    concat(
        Seq::new(lines.len(), |i: int| fill(lines[i].0, lines[i].1.map_values(value)) + "\n".spec_bytes()),
    ) + if ctx_compiled {
        "\n".spec_bytes() + value(ctx) + "\n".spec_bytes()
    } else {
        Seq::empty()
    }
}

/// Each documentation line with every placeholder replaced by the printed
/// value of the field it names, in the order of the text, one per line.
pub open spec fn documented_output(
    t: Seq<(Seq<u8>, FieldRef)>,
    docs: Seq<Seq<u8>>,
    value: spec_fn(FieldRef) -> Seq<u8>,
) -> Seq<u8> {
    concat(
        Seq::new(
            docs.len(),
            |i: int|
                substitute(docs[i], doc_sites(docs[i]), resolved(t, doc_keys(docs[i])).map_values(value))
                    + "\n".spec_bytes(),
        ),
    )
}

/// The formatting routine planned from documentation lines prints every
/// placeholder's field value in place, left to right, followed by the context
/// block exactly when the context field is compiled in.
pub proof fn routine_prints_fields_then_context(
    t: Seq<(Seq<u8>, FieldRef)>,
    docs: Seq<Seq<u8>>,
    value: spec_fn(FieldRef) -> Seq<u8>,
    ctx: FieldRef,
    ctx_compiled: bool,
)
    requires
        lines_resolve(t, docs),
        forall|i: int| 0 <= i < docs.len() ==> braces_only_in_placeholders(#[trigger] docs[i]),
    ensures
        routine_output(planned_lines(t, docs), value, ctx, ctx_compiled) == documented_output(
            t,
            docs,
            value,
        ) + if ctx_compiled {
            "\n".spec_bytes() + value(ctx) + "\n".spec_bytes()
        } else {
            Seq::empty()
        },
{
    let lines = planned_lines(t, docs);
    assert forall|i: int| 0 <= i < docs.len() implies fill(
        lines[i].0,
        lines[i].1.map_values(value),
    ) == substitute(docs[i], doc_sites(docs[i]), resolved(t, doc_keys(docs[i])).map_values(value)) by {
        template_prints_values_in_order(
            docs[i],
            resolved(t, doc_keys(docs[i])).map_values(value),
        );
    }
    assert(Seq::new(
        lines.len(),
        |i: int| fill(lines[i].0, lines[i].1.map_values(value)) + "\n".spec_bytes(),
    ) =~= Seq::new(
        docs.len(),
        |i: int|
            substitute(docs[i], doc_sites(docs[i]), resolved(t, doc_keys(docs[i])).map_values(value))
                + "\n".spec_bytes(),
    ));
}

} // verus!
