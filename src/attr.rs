//! The attribute mini-language: `feature = "<flag>"` and `inline_ctors`,
//! `inline_ctors(always)`, `inline_ctors(never)`, separated by commas.
use vstd::prelude::*;
use vstd::string::StringSliceAdditionalSpecFns;
use crate::text::{bytes_eq, push_bytes, push_str};

verus! {

/// The delimiter of a token group.
#[derive(Clone, Copy, PartialEq, Eq, Structural, Debug)]
pub enum Delimiter {
    Parenthesis,
    Brace,
    Bracket,
    Invisible,
}

/// One token of an attribute's argument list, with its source text.
#[derive(Debug)]
pub enum AttrToken {
    Ident(Vec<u8>),
    Punct(u8),
    Literal(Vec<u8>),
    Group(Delimiter, Vec<AttrToken>),
}

/// What `inline_ctors` asked for.
#[derive(Clone, Copy, PartialEq, Eq, Structural, Debug)]
pub enum InlineValue {
    /// `inline_ctors` alone.
    Unspecified,
    /// `inline_ctors(always)`.
    Always,
    /// `inline_ctors(never)`.
    Never,
}

/// Why an attribute list was refused.
#[derive(Clone, Copy, PartialEq, Eq, Structural, Debug)]
pub enum AttrErrorKind {
    /// A key other than `feature` and `inline_ctors`.
    UnknownKey,
    /// Two arguments without a comma between them.
    MissingComma,
    /// `feature` not followed by `=`.
    MissingEq,
    /// `feature =` not followed by a string literal.
    BadFeatureValue,
    /// `inline_ctors(..)` holding anything but `always` or `never`.
    BadInlineValue,
}

/// A refused attribute list: the kind, the index of the offending token, and
/// its text (empty where the list ended early).
#[derive(Debug)]
pub struct AttrError {
    pub kind: AttrErrorKind,
    pub pos: usize,
    pub token: Vec<u8>,
}

/// `feature = "<flag>"`; `value` is the literal's source text, quotes included.
#[derive(Debug)]
pub struct BuildFeatureAttr {
    pub value: Vec<u8>,
}

/// `inline_ctors` with its optional parenthesized value.
#[derive(Clone, Copy, Debug)]
pub struct InlineCtorsAttr {
    pub value: InlineValue,
}

/// The parsed configuration.
#[derive(Debug)]
pub struct TypeAttrArgs {
    pub build_feature: Option<BuildFeatureAttr>,
    pub inline_ctors: Option<InlineCtorsAttr>,
}

/// The configuration as plain values.
pub struct AttrConfig {
    pub feature: Option<Seq<u8>>,
    pub inline: Option<InlineValue>,
}

impl AttrError {
    /// This error is of `kind` and points at token `pos` of `toks`.
    pub open spec fn names(&self, kind: AttrErrorKind, toks: Seq<AttrToken>, pos: int) -> bool {
        &&& self.kind == kind
        &&& self.pos == pos
        &&& self.token@ == text_at(toks, pos)
    }
}

impl TypeAttrArgs {
    pub open spec fn config(&self) -> AttrConfig {
        AttrConfig {
            feature: match self.build_feature {
                Some(b) => Some(b.value@),
                None => None,
            },
            inline: match self.inline_ctors {
                Some(i) => Some(i.value),
                None => None,
            },
        }
    }
}

/// Holds where syn parses `t` as one string literal.
pub uninterp spec fn str_literal_ok(t: Seq<u8>) -> bool;

/// Relies on `syn::parse_str::<syn::LitStr>`: whether the text is exactly one
/// string literal.
#[verifier::external_body]
pub(crate) fn is_str_literal(t: &[u8]) -> (r: bool)
    ensures
        r == str_literal_ok(t@),
{
    match std::str::from_utf8(t) {
        Ok(s) => syn::parse_str::<syn::LitStr>(s).is_ok(),
        Err(_) => false,
    }
}

pub open spec fn is_ident(t: AttrToken, name: Seq<u8>) -> bool {
    match t {
        AttrToken::Ident(n) => n@ == name,
        _ => false,
    }
}

pub open spec fn is_punct(t: AttrToken, c: u8) -> bool {
    t == AttrToken::Punct(c)
}

pub open spec fn is_str_literal_token(t: AttrToken) -> bool {
    match t {
        AttrToken::Literal(l) => str_literal_ok(l@),
        _ => false,
    }
}

pub open spec fn literal_text(t: AttrToken) -> Seq<u8> {
    match t {
        AttrToken::Literal(l) => l@,
        _ => Seq::empty(),
    }
}

pub open spec fn is_paren_group(t: AttrToken) -> bool {
    match t {
        AttrToken::Group(d, _) => d == Delimiter::Parenthesis,
        _ => false,
    }
}

/// The value that a parenthesized group names: exactly `always` or `never`.
pub open spec fn inline_value_of(t: AttrToken) -> Option<InlineValue> {
    match t {
        AttrToken::Group(_, inner) => if inner@.len() == 1 && is_ident(inner@[0], "always".spec_bytes()) {
            Some(InlineValue::Always)
        } else if inner@.len() == 1 && is_ident(inner@[0], "never".spec_bytes()) {
            Some(InlineValue::Never)
        } else {
            None
        },
        _ => None,
    }
}

/// The text that a diagnostic shows for a token.
pub open spec fn token_text(t: AttrToken) -> Seq<u8> {
    match t {
        AttrToken::Ident(n) => n@,
        AttrToken::Punct(c) => seq![c],
        AttrToken::Literal(l) => l@,
        AttrToken::Group(d, _) => seq![open_delim(d)],
    }
}

pub open spec fn open_delim(d: Delimiter) -> u8 {
    match d {
        Delimiter::Parenthesis => 40u8,
        Delimiter::Brace => 123u8,
        Delimiter::Bracket => 91u8,
        Delimiter::Invisible => 32u8,
    }
}

pub open spec fn text_at(toks: Seq<AttrToken>, p: int) -> Seq<u8> {
    if 0 <= p < toks.len() {
        token_text(toks[p])
    } else {
        Seq::empty()
    }
}

/// The arguments from token `p` on, with `acc` holding those before; `first`
/// says whether no argument came before. A later argument replaces an earlier
/// one of the same key.
pub open spec fn parse_args(toks: Seq<AttrToken>, p: int, first: bool, acc: AttrConfig) -> Result<
    AttrConfig,
    (AttrErrorKind, int),
>
    decreases toks.len() - p,
{
    if p < 0 || p >= toks.len() {
        Ok(acc)
    } else if !first && !is_punct(toks[p], 44u8) {
        Err((AttrErrorKind::MissingComma, p))
    } else {
        let q = if first {
            p
        } else {
            p + 1
        };
        if q >= toks.len() {
            Ok(acc)
        } else if is_ident(toks[q], "feature".spec_bytes()) {
            if q + 1 >= toks.len() || !is_punct(toks[q + 1], 61u8) {
                Err((AttrErrorKind::MissingEq, q + 1))
            } else if q + 2 >= toks.len() || !is_str_literal_token(toks[q + 2]) {
                Err((AttrErrorKind::BadFeatureValue, q + 2))
            } else {
                parse_args(
                    toks,
                    q + 3,
                    false,
                    AttrConfig { feature: Some(literal_text(toks[q + 2])), inline: acc.inline },
                )
            }
        } else if is_ident(toks[q], "inline_ctors".spec_bytes()) {
            if q + 1 < toks.len() && is_paren_group(toks[q + 1]) {
                match inline_value_of(toks[q + 1]) {
                    Some(v) => parse_args(
                        toks,
                        q + 2,
                        false,
                        AttrConfig { feature: acc.feature, inline: Some(v) },
                    ),
                    None => Err((AttrErrorKind::BadInlineValue, q + 1)),
                }
            } else {
                parse_args(
                    toks,
                    q + 1,
                    false,
                    AttrConfig { feature: acc.feature, inline: Some(InlineValue::Unspecified) },
                )
            }
        } else {
            Err((AttrErrorKind::UnknownKey, q))
        }
    }
}

/// The configuration that a whole argument list gives.
pub open spec fn parse_attr_spec(toks: Seq<AttrToken>) -> Result<AttrConfig, (AttrErrorKind, int)> {
    parse_args(toks, 0, true, AttrConfig { feature: None, inline: None })
}

/// The text of the token at `pos`, or nothing past the end.
fn token_text_at(toks: &Vec<AttrToken>, pos: usize) -> (r: Vec<u8>)
    ensures
        r@ == text_at(toks@, pos as int),
{
    let mut r: Vec<u8> = Vec::new();
    if pos < toks.len() {
        match &toks[pos] {
            AttrToken::Ident(n) => push_bytes(&mut r, n.as_slice()),
            AttrToken::Punct(c) => r.push(*c),
            AttrToken::Literal(l) => push_bytes(&mut r, l.as_slice()),
            AttrToken::Group(d, _) => {
                let c: u8 = match d {
                    Delimiter::Parenthesis => 40,
                    Delimiter::Brace => 123,
                    Delimiter::Bracket => 91,
                    Delimiter::Invisible => 32,
                };
                r.push(c);
            },
        }
    }
    assert(r@ =~= text_at(toks@, pos as int));
    r
}

fn attr_error(kind: AttrErrorKind, toks: &Vec<AttrToken>, pos: usize) -> (e: AttrError)
    ensures
        e.kind == kind,
        e.pos == pos,
        e.token@ == text_at(toks@, pos as int),
{
    AttrError { kind, pos, token: token_text_at(toks, pos) }
}

fn ident_is(t: &AttrToken, name: &str) -> (r: bool)
    ensures
        r == is_ident(*t, name.spec_bytes()),
{
    match t {
        AttrToken::Ident(n) => bytes_eq(n.as_slice(), name.as_bytes()),
        _ => false,
    }
}

fn punct_is(t: &AttrToken, c: u8) -> (r: bool)
    ensures
        r == is_punct(*t, c),
{
    match t {
        AttrToken::Punct(d) => *d == c,
        _ => false,
    }
}

/// Whether the token at `pos` is the identifier `name`.
pub fn parse_name(toks: &Vec<AttrToken>, pos: usize, name: &str) -> (r: bool)
    ensures
        r == (pos < toks@.len() && is_ident(toks@[pos as int], name.spec_bytes())),
{
    pos < toks.len() && ident_is(&toks[pos], name)
}

/// Expects `=` at `pos`; gives the position after it.
pub fn parse_eq_token(toks: &Vec<AttrToken>, pos: usize) -> (r: Result<usize, AttrError>)
    ensures
        pos < toks@.len() && is_punct(toks@[pos as int], 61u8) ==> r == Ok::<usize, AttrError>(
            (pos + 1) as usize,
        ),
        !(pos < toks@.len() && is_punct(toks@[pos as int], 61u8)) ==> (r matches Err(e)
            && e.names(AttrErrorKind::MissingEq, toks@, pos as int)),
{
    if pos < toks.len() && punct_is(&toks[pos], 61) {
        Ok(pos + 1)
    } else {
        Err(attr_error(AttrErrorKind::MissingEq, toks, pos))
    }
}

/// Expects a string literal at `pos`; gives its source text.
pub fn parse_value_expr(toks: &Vec<AttrToken>, pos: usize) -> (r: Result<Vec<u8>, AttrError>)
    ensures
        r is Ok ==> pos < toks@.len(),
        pos < toks@.len() && is_str_literal_token(toks@[pos as int]) ==> (r matches Ok(v)
            && v@ == literal_text(toks@[pos as int])),
        !(pos < toks@.len() && is_str_literal_token(toks@[pos as int])) ==> (r matches Err(e)
            && e.names(AttrErrorKind::BadFeatureValue, toks@, pos as int)),
{
    if pos < toks.len() {
        if let AttrToken::Literal(l) = &toks[pos] {
            if is_str_literal(l.as_slice()) {
                let mut v: Vec<u8> = Vec::new();
                push_bytes(&mut v, l.as_slice());
                return Ok(v);
            }
        }
    }
    Err(attr_error(AttrErrorKind::BadFeatureValue, toks, pos))
}

/// Reads an optional `(always)` / `(never)` group at `pos`: `None` where no
/// parenthesized group stands there.
pub fn parse_parenthesized_value_ident(toks: &Vec<AttrToken>, pos: usize) -> (r: Result<
    Option<InlineValue>,
    AttrError,
>)
    ensures
        (r matches Ok(v) && v is Some) ==> pos < toks@.len(),
        !(pos < toks@.len() && is_paren_group(toks@[pos as int])) ==> (r matches Ok(v)
            && v is None),
        pos < toks@.len() && is_paren_group(toks@[pos as int]) ==> match inline_value_of(
            toks@[pos as int],
        ) {
            Some(v) => (r matches Ok(w) && w == Some(v)),
            None => (r matches Err(e) && e.names(AttrErrorKind::BadInlineValue, toks@, pos as int)),
        },
{
    if pos < toks.len() {
        if let AttrToken::Group(d, inner) = &toks[pos] {
            if *d == Delimiter::Parenthesis {
                if inner.len() == 1 && ident_is(&inner[0], "always") {
                    return Ok(Some(InlineValue::Always));
                } else if inner.len() == 1 && ident_is(&inner[0], "never") {
                    return Ok(Some(InlineValue::Never));
                } else {
                    return Err(attr_error(AttrErrorKind::BadInlineValue, toks, pos));
                }
            }
        }
    }
    Ok(None)
}

/// Expects `,` at `pos`; gives the position after it.
pub fn parse_comma_token(toks: &Vec<AttrToken>, pos: usize) -> (r: Result<usize, AttrError>)
    ensures
        pos < toks@.len() && is_punct(toks@[pos as int], 44u8) ==> r == Ok::<usize, AttrError>(
            (pos + 1) as usize,
        ),
        !(pos < toks@.len() && is_punct(toks@[pos as int], 44u8)) ==> (r matches Err(e)
            && e.names(AttrErrorKind::MissingComma, toks@, pos as int)),
{
    if pos < toks.len() && punct_is(&toks[pos], 44) {
        Ok(pos + 1)
    } else {
        Err(attr_error(AttrErrorKind::MissingComma, toks, pos))
    }
}

impl BuildFeatureAttr {
    /// Reads `feature = "<flag>"` starting at the key; gives the position after it.
    pub fn parse(toks: &Vec<AttrToken>, pos: usize) -> (r: Result<(BuildFeatureAttr, usize), AttrError>)
        requires
            pos < toks@.len(),
        ensures
            !(pos + 1 < toks@.len() && is_punct(toks@[pos + 1], 61u8)) ==> (r matches Err(e)
                && e.names(AttrErrorKind::MissingEq, toks@, pos + 1)),
            pos + 1 < toks@.len() && is_punct(toks@[pos + 1], 61u8) && !(pos + 2 < toks@.len()
                && is_str_literal_token(toks@[pos + 2])) ==> (r matches Err(e) && e.names(
                AttrErrorKind::BadFeatureValue,
                toks@,
                pos + 2,
            )),
            pos + 2 < toks@.len() && is_punct(toks@[pos + 1], 61u8) && is_str_literal_token(
                toks@[pos + 2],
            ) ==> (r matches Ok(v) && v.0.value@ == literal_text(toks@[pos + 2]) && v.1 == pos + 3),
    {
        assert(toks@.len() == toks.len());
        let after_eq = match parse_eq_token(toks, pos + 1) {
            Ok(p) => p,
            Err(e) => return Err(e),
        };
        match parse_value_expr(toks, after_eq) {
            Ok(value) => Ok((BuildFeatureAttr { value }, after_eq + 1)),
            Err(e) => Err(e),
        }
    }

    /// The `#[cfg(feature = "<flag>")]` attribute that gates generated items.
    pub fn to_attr(&self) -> (r: Vec<u8>)
        ensures
            r@ == cfg_attr_text(self.value@),
    {
        let mut r: Vec<u8> = Vec::new();
        push_str(&mut r, "#[cfg(feature = ");
        push_bytes(&mut r, self.value.as_slice());
        push_str(&mut r, ")] ");
        r
    }
}

/// `#[cfg(feature = <lit>)] `.
pub open spec fn cfg_attr_text(lit: Seq<u8>) -> Seq<u8> {
    "#[cfg(feature = ".spec_bytes() + lit + ")] ".spec_bytes()
}

/// `#[cfg(not(feature = <lit>))] `.
pub open spec fn cfg_not_attr_text(lit: Seq<u8>) -> Seq<u8> {
    "#[cfg(not(feature = ".spec_bytes() + lit + "))] ".spec_bytes()
}

/// The inlining hint for a value of `inline_ctors`.
pub open spec fn inline_attr_text(v: InlineValue) -> Seq<u8> {
    match v {
        InlineValue::Unspecified => "#[inline] ".spec_bytes(),
        InlineValue::Always => "#[inline(always)] ".spec_bytes(),
        InlineValue::Never => "#[inline(never)] ".spec_bytes(),
    }
}

impl InlineCtorsAttr {
    /// Reads `inline_ctors` and its optional value starting at the key; gives
    /// the position after it.
    pub fn parse(toks: &Vec<AttrToken>, pos: usize) -> (r: Result<(InlineCtorsAttr, usize), AttrError>)
        requires
            pos < toks@.len(),
        ensures
            !(pos + 1 < toks@.len() && is_paren_group(toks@[pos + 1])) ==> (r matches Ok(v)
                && v.0.value == InlineValue::Unspecified && v.1 == pos + 1),
            pos + 1 < toks@.len() && is_paren_group(toks@[pos + 1]) ==> match inline_value_of(
                toks@[pos + 1],
            ) {
                Some(w) => (r matches Ok(v) && v.0.value == w && v.1 == pos + 2),
                None => (r matches Err(e) && e.names(AttrErrorKind::BadInlineValue, toks@, pos + 1)),
            },
    {
        assert(toks@.len() == toks.len());
        match parse_parenthesized_value_ident(toks, pos + 1) {
            Ok(Some(value)) => Ok((InlineCtorsAttr { value }, pos + 2)),
            Ok(None) => Ok((InlineCtorsAttr { value: InlineValue::Unspecified }, pos + 1)),
            Err(e) => Err(e),
        }
    }

    /// The inlining hint put on each generated constructor.
    pub fn to_attr(&self) -> (r: Vec<u8>)
        ensures
            r@ == inline_attr_text(self.value),
    {
        let mut r: Vec<u8> = Vec::new();
        match self.value {
            InlineValue::Unspecified => push_str(&mut r, "#[inline] "),
            InlineValue::Always => push_str(&mut r, "#[inline(always)] "),
            InlineValue::Never => push_str(&mut r, "#[inline(never)] "),
        }
        r
    }
}

impl TypeAttrArgs {
    /// Parses a whole argument list.
    pub fn parse(toks: &Vec<AttrToken>) -> (r: Result<TypeAttrArgs, AttrError>)
        ensures
            match parse_attr_spec(toks@) {
                Ok(c) => (r matches Ok(a) && a.config() == c),
                Err(k) => (r matches Err(e) && e.names(k.0, toks@, k.1)),
            },
    {
        let mut args = TypeAttrArgs { build_feature: None, inline_ctors: None };
        let mut pos: usize = 0;
        let mut first = true;
        while pos < toks.len()
            invariant
                pos <= toks@.len(),
                parse_attr_spec(toks@) == parse_args(toks@, pos as int, first, args.config()),
            decreases toks@.len() - pos,
        {
            let mut key = pos;
            if !first {
                key = match parse_comma_token(toks, pos) {
                    Ok(p) => p,
                    Err(e) => return Err(e),
                };
                if key >= toks.len() {
                    return Ok(args);
                }
            }
            if parse_name(toks, key, "feature") {
                match BuildFeatureAttr::parse(toks, key) {
                    Ok((b, next)) => {
                        args.build_feature = Some(b);
                        pos = next;
                    },
                    Err(e) => return Err(e),
                }
            } else if parse_name(toks, key, "inline_ctors") {
                match InlineCtorsAttr::parse(toks, key) {
                    Ok((i, next)) => {
                        args.inline_ctors = Some(i);
                        pos = next;
                    },
                    Err(e) => return Err(e),
                }
            } else {
                return Err(attr_error(AttrErrorKind::UnknownKey, toks, key));
            }
            first = false;
        }
        Ok(args)
    }

    /// The attributes put on the appended field: the feature gate, if any.
    pub fn field_attr_vec(&self) -> (r: Vec<u8>)
        ensures
            r@ == field_attrs_text(self.config()),
    {
        match &self.build_feature {
            Some(b) => b.to_attr(),
            None => Vec::new(),
        }
    }

    /// The attributes put on each constructor: the inlining hint, if any.
    pub fn ctor_attr_vec(&self) -> (r: Vec<u8>)
        ensures
            r@ == ctor_attrs_text(self.config()),
    {
        match &self.inline_ctors {
            Some(i) => i.to_attr(),
            None => Vec::new(),
        }
    }
}

pub open spec fn field_attrs_text(c: AttrConfig) -> Seq<u8> {
    match c.feature {
        Some(f) => cfg_attr_text(f),
        None => Seq::empty(),
    }
}

pub open spec fn ctor_attrs_text(c: AttrConfig) -> Seq<u8> {
    match c.inline {
        Some(v) => inline_attr_text(v),
        None => Seq::empty(),
    }
}

} // verus!
