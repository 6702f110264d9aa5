//! The declaration model, the three field shapes, and the field table that
//! maps each reference key to the field it names.
use vstd::prelude::*;
use vstd::string::StringSliceAdditionalSpecFns;
use crate::attr::AttrError;
use crate::text::{bytes_eq, copy_bytes, dec_digits, dec_digits_of, push_str};

verus! {

/// A named field, each part as source text.
#[derive(Debug)]
pub struct NamedField {
    pub attrs: Vec<u8>,
    pub vis: Vec<u8>,
    pub name: Vec<u8>,
    pub ty: Vec<u8>,
}

/// A positional field, each part as source text.
#[derive(Debug)]
pub struct PositionalField {
    pub attrs: Vec<u8>,
    pub vis: Vec<u8>,
    pub ty: Vec<u8>,
}

/// The field layout of a struct or of one enum variant.
#[derive(Debug)]
pub enum Shape {
    Named(Vec<NamedField>),
    Unit,
    Positional(Vec<PositionalField>),
}

/// An outer attribute: its whole text, its path, and the source text of its
/// value where it has the form `path = value`.
#[derive(Debug)]
pub struct DeclAttr {
    pub text: Vec<u8>,
    pub path: Vec<u8>,
    pub value: Option<Vec<u8>>,
}

/// One variant of an enum.
#[derive(Debug)]
pub struct Variant {
    pub attrs: Vec<DeclAttr>,
    pub name: Vec<u8>,
    pub shape: Shape,
    pub discriminant: Option<Vec<u8>>,
}

/// What kind of declaration it is.
#[derive(Debug)]
pub enum Data {
    Struct(Shape),
    Enum(Vec<Variant>),
    Union,
}

/// A type declaration handed to the transform.
#[derive(Debug)]
pub struct TypeDeclaration {
    pub attrs: Vec<DeclAttr>,
    pub vis: Vec<u8>,
    pub name: Vec<u8>,
    pub generics: Vec<u8>,
    pub where_clause: Vec<u8>,
    pub data: Data,
}

/// A construct that the transform does not handle.
#[derive(Clone, Copy, PartialEq, Eq, Structural, Debug)]
pub enum Unsupported {
    Union,
    /// The variant at this index carries an explicit discriminant.
    Discriminant(usize),
}

/// Why a transform failed.
#[derive(Debug)]
pub enum TransformError {
    UnsupportedConstruct(Unsupported),
    MalformedAttribute(AttrError),
    /// A placeholder names no field: `owner` is `Type` or `Type::Variant`.
    UnresolvedFieldReference { owner: Vec<u8>, key: Vec<u8> },
}

/// The field shape, without its fields.
#[derive(Clone, Copy, PartialEq, Eq, Structural, Debug)]
pub enum ShapeKind {
    Named,
    Unit,
    Positional,
}

/// A field reference: by name, or by position.
pub enum FieldRef {
    Name(Seq<u8>),
    Index(nat),
}

/// A field reference as it is emitted: an identifier or an index.
#[derive(Debug)]
pub enum FieldIdToken {
    Ident(Vec<u8>),
    Literal(usize),
}

impl FieldIdToken {
    pub open spec fn view(&self) -> FieldRef {
        match self {
            FieldIdToken::Ident(n) => FieldRef::Name(n@),
            FieldIdToken::Literal(i) => FieldRef::Index(*i as nat),
        }
    }
}

/// One entry of a field table.
#[derive(Debug)]
pub struct FieldEntry {
    pub key: Vec<u8>,
    pub token: FieldIdToken,
}

pub open spec fn ctx_name() -> Seq<u8> {
    "ctx".spec_bytes()
}

impl Shape {
    pub open spec fn kind(&self) -> ShapeKind {
        match self {
            Shape::Named(_) => ShapeKind::Named,
            Shape::Unit => ShapeKind::Unit,
            Shape::Positional(_) => ShapeKind::Positional,
        }
    }

    /// How many fields the user wrote.
    pub open spec fn field_count(&self) -> nat {
        match self {
            Shape::Named(fs) => fs@.len(),
            Shape::Unit => 0,
            Shape::Positional(fs) => fs@.len(),
        }
    }

    /// The key of the appended field: `ctx`, or the next free index.
    pub open spec fn append_ref(&self) -> FieldRef {
        match self {
            Shape::Positional(fs) => FieldRef::Index(fs@.len()),
            _ => FieldRef::Name(ctx_name()),
        }
    }

    /// The reference keys and what they name, the appended field last.
    pub open spec fn table(&self) -> Seq<(Seq<u8>, FieldRef)> {
        match self {
            Shape::Named(fs) => Seq::new(
                fs@.len(),
                |i: int| (fs@[i].name@, FieldRef::Name(fs@[i].name@)),
            ).push((ctx_name(), FieldRef::Name(ctx_name()))),
            Shape::Unit => seq![(ctx_name(), FieldRef::Name(ctx_name()))],
            Shape::Positional(fs) => Seq::new(
                fs@.len() + 1,
                |i: int| (dec_digits_of(i as nat), FieldRef::Index(i as nat)),
            ),
        }
    }
}

/// What `key` names in `t`: the first entry with that key.
pub open spec fn table_lookup(t: Seq<(Seq<u8>, FieldRef)>, key: Seq<u8>) -> Option<FieldRef>
    decreases t.len(),
{
    if t.len() == 0 {
        None
    } else if t[0].0 == key {
        Some(t[0].1)
    } else {
        table_lookup(t.drop_first(), key)
    }
}

pub open spec fn entries_view(v: Seq<FieldEntry>) -> Seq<(Seq<u8>, FieldRef)> {
    Seq::new(v.len(), |i: int| (v[i].key@, v[i].token.view()))
}

/// What the shape normalizer says of a shape: its kind and the key of the
/// field it appends.
pub open spec fn classify(s: Shape) -> (ShapeKind, FieldRef) {
    (s.kind(), s.append_ref())
}

/// The key text of a reference: the name, or the decimal index.
pub open spec fn ref_key(f: FieldRef) -> Seq<u8> {
    match f {
        FieldRef::Name(n) => n,
        FieldRef::Index(i) => dec_digits_of(i),
    }
}

proof fn lemma_dec_digits_len(n: nat)
    ensures
        dec_digits_of(n).len() >= 1,
        n >= 10 ==> dec_digits_of(n).len() >= 2,
    decreases n,
{
    if n >= 10 {
        lemma_dec_digits_len(n / 10);
    }
}

/// Different numbers have different decimal digits.
pub proof fn lemma_dec_digits_injective(a: nat, b: nat)
    requires
        dec_digits_of(a) == dec_digits_of(b),
    ensures
        a == b,
    decreases a,
{
    lemma_dec_digits_len(a);
    lemma_dec_digits_len(b);
    if a < 10 && b < 10 {
        assert(dec_digits_of(a) == seq![(48 + a) as u8]);
        assert(dec_digits_of(b) == seq![(48 + b) as u8]);
        let x = (48 + a) as u8;
        let y = (48 + b) as u8;
        assert(seq![x][0] == x);
        assert(seq![y][0] == y);
        assert(x == y);
        assert(x as int == 48 + a);
        assert(y as int == 48 + b);
    } else if a >= 10 && b >= 10 {
        let da = dec_digits_of(a / 10);
        let db = dec_digits_of(b / 10);
        assert(dec_digits_of(a).drop_last() =~= da);
        assert(dec_digits_of(b).drop_last() =~= db);
        lemma_dec_digits_injective(a / 10, b / 10);
        assert(dec_digits_of(a).last() == dec_digits_of(b).last());
        assert(dec_digits_of(a).last() == (48 + a % 10) as u8);
        assert(dec_digits_of(b).last() == (48 + b % 10) as u8);
        assert(((48 + a % 10) as u8) as int == 48 + a % 10);
        assert(((48 + b % 10) as u8) as int == 48 + b % 10);
        assert(a % 10 == b % 10);
        assert(a == 10 * (a / 10) + a % 10) by (nonlinear_arith);
        assert(b == 10 * (b / 10) + b % 10) by (nonlinear_arith);
    } else {
        assert(dec_digits_of(a).len() != dec_digits_of(b).len());
    }
}

proof fn lemma_lookup_first(t: Seq<(Seq<u8>, FieldRef)>, key: Seq<u8>, i: int)
    requires
        0 <= i < t.len(),
        t[i].0 == key,
        forall|j: int| 0 <= j < i ==> t[j].0 != key,
    ensures
        table_lookup(t, key) == Some(t[i].1),
    decreases i,
{
    if i > 0 {
        assert forall|j: int| 0 <= j < i - 1 implies t.drop_first()[j].0 != key by {
            assert(t.drop_first()[j] == t[j + 1]);
        }
        lemma_lookup_first(t.drop_first(), key, i - 1);
    }
}

proof fn lemma_lookup_self_named(t: Seq<(Seq<u8>, FieldRef)>, key: Seq<u8>)
    requires
        forall|j: int| 0 <= j < t.len() ==> #[trigger] t[j].1 == FieldRef::Name(t[j].0),
        exists|j: int| 0 <= j < t.len() && #[trigger] t[j].0 == key,
    ensures
        table_lookup(t, key) == Some(FieldRef::Name(key)),
    decreases t.len(),
{
    if t[0].0 != key {
        let j = choose|j: int| 0 <= j < t.len() && #[trigger] t[j].0 == key;
        assert(t.drop_first()[j - 1] == t[j]);
        assert forall|j: int| 0 <= j < t.drop_first().len() implies #[trigger] t.drop_first()[j].1
            == FieldRef::Name(t.drop_first()[j].0) by {
            assert(t.drop_first()[j] == t[j + 1]);
        }
        lemma_lookup_self_named(t.drop_first(), key);
    }
}

/// Classifying the same shape twice gives the same kind and the same
/// appended key, and in the shape's field table that key names the appended
/// field, which stands last.
pub proof fn classification_is_stable(a: Shape, b: Shape)
    requires
        a == b,
    ensures
        classify(a) == classify(b),
        a.table().len() == a.field_count() + 1,
        a.table().last().1 == a.append_ref(),
        table_lookup(a.table(), ref_key(a.append_ref())) == Some(a.append_ref()),
{
    let t = a.table();
    match a {
        Shape::Positional(fs) => {
            let n = fs@.len() as int;
            assert forall|j: int| 0 <= j < n implies t[j].0 != ref_key(a.append_ref()) by {
                if t[j].0 == ref_key(a.append_ref()) {
                    lemma_dec_digits_injective(j as nat, n as nat);
                }
            }
            lemma_lookup_first(t, ref_key(a.append_ref()), n);
        },
        _ => {
            assert(t.last().0 == ctx_name());
            lemma_lookup_self_named(t, ctx_name());
        },
    }
}

/// The key of the appended field.
pub fn append_key(s: &Shape) -> (r: FieldIdToken)
    ensures
        r.view() == s.append_ref(),
{
    match s {
        Shape::Positional(fs) => FieldIdToken::Literal(fs.len()),
        _ => {
            let mut n: Vec<u8> = Vec::new();
            push_str(&mut n, "ctx");
            FieldIdToken::Ident(n)
        },
    }
}

/// A copy of a field reference.
pub fn copy_token(t: &FieldIdToken) -> (r: FieldIdToken)
    ensures
        r.view() == t.view(),
{
    match t {
        FieldIdToken::Ident(n) => FieldIdToken::Ident(copy_bytes(n)),
        FieldIdToken::Literal(i) => FieldIdToken::Literal(*i),
    }
}

/// One table entry: a named field maps its name to itself, a positional one
/// its decimal index to the index.
pub fn single_field_mapping(name: Option<&Vec<u8>>, num: usize) -> (r: FieldEntry)
    ensures
        match name {
            Some(n) => r.key@ == n@ && r.token.view() == FieldRef::Name(n@),
            None => r.key@ == dec_digits_of(num as nat) && r.token.view() == FieldRef::Index(
                num as nat,
            ),
        },
{
    match name {
        Some(n) => FieldEntry { key: copy_bytes(n), token: FieldIdToken::Ident(copy_bytes(n)) },
        None => FieldEntry { key: dec_digits(num), token: FieldIdToken::Literal(num) },
    }
}

/// Builds the field table of a shape, the appended field included.
pub fn create_fields_map(s: &Shape) -> (r: Vec<FieldEntry>)
    ensures
        entries_view(r@) == s.table(),
{
    let mut r: Vec<FieldEntry> = Vec::new();
    let mut ctx: Vec<u8> = Vec::new();
    push_str(&mut ctx, "ctx");
    match s {
        Shape::Named(fs) => {
            let mut i: usize = 0;
            while i < fs.len()
                invariant
                    i <= fs@.len(),
                    r@.len() == i,
                    forall|j: int|
                        0 <= j < i ==> #[trigger] r@[j].key@ == fs@[j].name@ && r@[j].token.view()
                            == FieldRef::Name(fs@[j].name@),
                decreases fs@.len() - i,
            {
                r.push(single_field_mapping(Some(&fs[i].name), 0));
                i = i + 1;
            }
            r.push(single_field_mapping(Some(&ctx), 0));
            assert(entries_view(r@) =~= s.table());
        },
        Shape::Unit => {
            r.push(single_field_mapping(Some(&ctx), 0));
            assert(entries_view(r@) =~= s.table());
        },
        Shape::Positional(fs) => {
            let mut i: usize = 0;
            while i < fs.len()
                invariant
                    i <= fs@.len(),
                    r@.len() == i,
                    forall|j: int|
                        0 <= j < i ==> #[trigger] r@[j].key@ == dec_digits_of(j as nat)
                            && r@[j].token.view() == FieldRef::Index(j as nat),
                decreases fs@.len() - i,
            {
                r.push(single_field_mapping(None, i));
                i = i + 1;
            }
            r.push(single_field_mapping(None, fs.len()));
            assert(entries_view(r@) =~= s.table());
        },
    }
    r
}

/// Where in the table the entry that `key` names stands.
pub fn lookup_field(t: &Vec<FieldEntry>, key: &[u8]) -> (r: Option<usize>)
    ensures
        match table_lookup(entries_view(t@), key@) {
            Some(f) => (r matches Some(i) && i < t@.len() && t@[i as int].token.view() == f),
            None => r is None,
        },
{
    let mut i: usize = 0;
    assert(entries_view(t@).subrange(0, t@.len() as int) =~= entries_view(t@));
    while i < t.len()
        invariant
            i <= t@.len(),
            table_lookup(entries_view(t@), key@) == table_lookup(
                entries_view(t@).subrange(i as int, t@.len() as int),
                key@,
            ),
        decreases t@.len() - i,
    {
        let ghost rest = entries_view(t@).subrange(i as int, t@.len() as int);
        assert(rest.drop_first() =~= entries_view(t@).subrange(i + 1, t@.len() as int));
        if bytes_eq(t[i].key.as_slice(), key) {
            return Some(i);
        }
        i = i + 1;
    }
    None
}

/// Refuses unions and enum variants with explicit discriminants.
pub fn check_supported(d: &TypeDeclaration) -> (r: Result<(), TransformError>)
    ensures
        (d.data is Union) ==> (r matches Err(TransformError::UnsupportedConstruct(u)) && u
            == Unsupported::Union),
        (d.data is Struct) ==> r is Ok,
        match d.data {
            Data::Enum(vs) => match first_discriminant(vs@, 0) {
                Some(i) => (r matches Err(TransformError::UnsupportedConstruct(u)) && u
                    == Unsupported::Discriminant(i as usize)),
                None => r is Ok,
            },
            _ => true,
        },
{
    match &d.data {
        Data::Union => Err(TransformError::UnsupportedConstruct(Unsupported::Union)),
        Data::Struct(_) => Ok(()),
        Data::Enum(vs) => match find_discriminant(vs) {
            Some(i) => Err(TransformError::UnsupportedConstruct(Unsupported::Discriminant(i))),
            None => Ok(()),
        },
    }
}

fn find_discriminant(vs: &Vec<Variant>) -> (r: Option<usize>)
    ensures
        match first_discriminant(vs@, 0) {
            Some(i) => r == Some(i as usize),
            None => r is None,
        },
{
    let mut i: usize = 0;
    while i < vs.len()
        invariant
            i <= vs@.len(),
            first_discriminant(vs@, 0) == first_discriminant(vs@, i as int),
        decreases vs@.len() - i,
    {
        if vs[i].discriminant.is_some() {
            return Some(i);
        }
        i = i + 1;
    }
    None
}

/// The index of the first variant from `i` on with an explicit discriminant.
pub open spec fn first_discriminant(vs: Seq<Variant>, i: int) -> Option<nat>
    decreases vs.len() - i,
{
    if i < 0 || i >= vs.len() {
        None
    } else if vs[i].discriminant is Some {
        Some(i as nat)
    } else {
        first_discriminant(vs, i + 1)
    }
}

} // verus!
