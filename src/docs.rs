//! The documentation-text template engine: finds `{key}` placeholders,
//! resolves them against a field table, and rewrites the text into a template
//! of anonymous `{}` slots.
use vstd::prelude::*;
use vstd::string::StringSliceAdditionalSpecFns;
use crate::attr::{is_str_literal, str_literal_ok};
use crate::shape::{
    copy_token, entries_view, lookup_field, table_lookup, DeclAttr, FieldEntry, FieldIdToken,
    FieldRef, TransformError,
};
use crate::text::{bytes_eq, copy_bytes, push_bytes, push_range, push_str, vec_views};

verus! {

/// A byte that may stand inside a placeholder: `[A-Za-z0-9_]`.
pub open spec fn is_key_byte(b: u8) -> bool {
    (65 <= b <= 90) || (97 <= b <= 122) || (48 <= b <= 57) || b == 95
}

/// The end of the run of key bytes that starts at `i`.
pub open spec fn key_run_end(doc: Seq<u8>, i: int) -> int
    decreases doc.len() - i,
{
    if i < 0 || i >= doc.len() || !is_key_byte(doc[i]) {
        i
    } else {
        key_run_end(doc, i + 1)
    }
}

/// Where a placeholder `{key}` that starts at `s` ends (exclusive).
pub open spec fn placeholder_end(doc: Seq<u8>, s: int) -> Option<int> {
    let e = key_run_end(doc, s + 1);
    if 0 <= s && s + 1 < e < doc.len() && doc[s] == 123u8 && doc[e] == 125u8 {
        Some(e + 1)
    } else {
        None
    }
}

/// The placeholders from `p` on, found left to right without overlap, as
/// byte ranges `(start, end)`.
pub open spec fn sites_from(doc: Seq<u8>, p: int) -> Seq<(int, int)>
    decreases doc.len() - p,
{
    if p < 0 || p >= doc.len() {
        Seq::empty()
    } else {
        match placeholder_end(doc, p) {
            Some(e) => if e > p {
                seq![(p, e)] + sites_from(doc, e)
            } else {
                Seq::empty()
            },
            None => sites_from(doc, p + 1),
        }
    }
}

/// The placeholders of a documentation text.
pub open spec fn doc_sites(doc: Seq<u8>) -> Seq<(int, int)> {
    sites_from(doc, 0)
}

/// Relies on `regex::bytes::Regex::find_iter` for `\{[A-Za-z0-9_]+\}`: its
/// successive non-overlapping leftmost-first matches, as byte ranges.
#[verifier::external_body]
fn placeholder_ranges(doc: &[u8]) -> (r: Vec<(usize, usize)>)
    ensures
        r@.len() == doc_sites(doc@).len(),
        forall|i: int|
            0 <= i < r@.len() ==> #[trigger] r@[i].0 == doc_sites(doc@)[i].0 && r@[i].1
                == doc_sites(doc@)[i].1,
{
    let re = regex::bytes::Regex::new(r"\{[A-Za-z0-9_]+\}").unwrap();
    re.find_iter(doc).map(|m| (m.start(), m.end())).collect()
}

/// Sites in order, each at least `{k}` long, inside `0..len`.
pub open spec fn sites_ordered(sites: Seq<(int, int)>, lo: int, len: int) -> bool {
    &&& forall|i: int| 0 <= i < sites.len() ==> lo <= #[trigger] sites[i].0 && sites[i].0 + 3
        <= sites[i].1 <= len
    &&& forall|i: int, j: int| 0 <= i < j < sites.len() ==> #[trigger] sites[i].1 <= #[trigger] sites[j].0
}

/// Each site is `{`, key bytes, `}`.
pub open spec fn sites_are_placeholders(doc: Seq<u8>, sites: Seq<(int, int)>) -> bool {
    forall|i: int|
        0 <= i < sites.len() ==> doc[#[trigger] sites[i].0] == 123u8 && doc[sites[i].1 - 1]
            == 125u8 && forall|k: int| sites[i].0 < k < sites[i].1 - 1 ==> is_key_byte(doc[k])
}

proof fn lemma_key_run(doc: Seq<u8>, i: int)
    requires
        0 <= i,
    ensures
        i <= key_run_end(doc, i),
        key_run_end(doc, i) <= doc.len() || key_run_end(doc, i) == i,
        forall|k: int| i <= k < key_run_end(doc, i) ==> is_key_byte(doc[k]),
    decreases doc.len() - i,
{
    if i < doc.len() && is_key_byte(doc[i]) {
        lemma_key_run(doc, i + 1);
    }
}

/// The scan yields ordered placeholders at or after `p`.
pub proof fn lemma_sites_from(doc: Seq<u8>, p: int)
    requires
        0 <= p,
    ensures
        sites_ordered(sites_from(doc, p), p, doc.len() as int),
        sites_are_placeholders(doc, sites_from(doc, p)),
    decreases doc.len() - p,
{
    if p < doc.len() {
        match placeholder_end(doc, p) {
            Some(e) => {
                lemma_key_run(doc, p + 1);
                lemma_sites_from(doc, e);
                let rest = sites_from(doc, e);
                let all = seq![(p, e)] + rest;
                assert(all =~= sites_from(doc, p));
                assert forall|i: int, j: int| 0 <= i < j < all.len() implies #[trigger] all[i].1
                    <= #[trigger] all[j].0 by {
                    if i > 0 {
                        assert(all[i] == rest[i - 1]);
                    }
                    assert(all[j] == rest[j - 1]);
                }
                assert forall|i: int| 0 <= i < all.len() implies doc[#[trigger] all[i].0]
                    == 123u8 && doc[all[i].1 - 1] == 125u8 && forall|k: int|
                    all[i].0 < k < all[i].1 - 1 ==> is_key_byte(doc[k]) by {
                    if i > 0 {
                        assert(all[i] == rest[i - 1]);
                    }
                }
            },
            None => {
                lemma_sites_from(doc, p + 1);
            },
        }
    }
}

/// A placeholder found in a documentation text: its byte range and key.
#[derive(Debug)]
pub struct FieldSite {
    pub start: usize,
    pub end: usize,
    pub key: Vec<u8>,
}

impl FieldSite {
    pub open spec fn range(&self) -> (int, int) {
        (self.start as int, self.end as int)
    }
}

pub open spec fn site_ranges(v: Seq<FieldSite>) -> Seq<(int, int)> {
    Seq::new(v.len(), |i: int| v[i].range())
}

/// The key of the placeholder at `site`: the bytes between its braces.
pub open spec fn site_key(doc: Seq<u8>, site: (int, int)) -> Seq<u8> {
    doc.subrange(site.0 + 1, site.1 - 1)
}

/// Finds the placeholders of `docstr`, left to right, with their keys.
pub fn find_docstring_fields(docstr: &Vec<u8>) -> (r: Vec<FieldSite>)
    ensures
        site_ranges(r@) == doc_sites(docstr@),
        forall|i: int| 0 <= i < r@.len() ==> #[trigger] r@[i].key@ == site_key(docstr@, r@[i].range()),
{
    let ranges = placeholder_ranges(docstr.as_slice());
    proof {
        lemma_sites_from(docstr@, 0);
    }
    let ghost sites = doc_sites(docstr@);
    let mut r: Vec<FieldSite> = Vec::new();
    let mut i: usize = 0;
    while i < ranges.len()
        invariant
            i <= ranges@.len(),
            ranges@.len() == sites.len(),
            sites == doc_sites(docstr@),
            sites_ordered(sites, 0, docstr@.len() as int),
            forall|j: int|
                0 <= j < ranges@.len() ==> #[trigger] ranges@[j].0 == sites[j].0 && ranges@[j].1
                    == sites[j].1,
            r@.len() == i,
            forall|j: int|
                0 <= j < i ==> #[trigger] r@[j].range() == sites[j] && r@[j].key@ == site_key(
                    docstr@,
                    sites[j],
                ),
        decreases ranges@.len() - i,
    {
        let (s, e) = ranges[i];
        assert(sites[i as int].0 + 3 <= sites[i as int].1 <= docstr@.len());
        let mut key: Vec<u8> = Vec::new();
        let mut k: usize = s + 1;
        while k < e - 1
            invariant
                s + 1 <= k <= e - 1,
                e <= docstr@.len(),
                key@ == docstr@.subrange(s + 1, k as int),
            decreases e - 1 - k,
        {
            key.push(docstr[k]);
            k = k + 1;
            assert(key@ =~= docstr@.subrange(s + 1, k as int));
        }
        r.push(FieldSite { start: s, end: e, key });
        i = i + 1;
    }
    assert(site_ranges(r@) =~= sites);
    r
}

/// `doc` from `from` on, each site replaced by `{}`.
pub open spec fn rewrite_from(doc: Seq<u8>, sites: Seq<(int, int)>, from: int) -> Seq<u8>
    decreases sites.len(),
{
    if sites.len() == 0 {
        doc.subrange(from, doc.len() as int)
    } else {
        doc.subrange(from, sites[0].0) + "{}".spec_bytes() + rewrite_from(
            doc,
            sites.drop_first(),
            sites[0].1,
        )
    }
}

/// The template: `doc` with each site replaced by an anonymous slot `{}`.
pub open spec fn rewrite(doc: Seq<u8>, sites: Seq<(int, int)>) -> Seq<u8> {
    rewrite_from(doc, sites, 0)
}

/// `doc` from `from` on, site `i` replaced by `vals[i]`.
pub open spec fn substitute_from(doc: Seq<u8>, sites: Seq<(int, int)>, vals: Seq<Seq<u8>>, from: int) -> Seq<u8>
    decreases sites.len(),
{
    if sites.len() == 0 {
        doc.subrange(from, doc.len() as int)
    } else {
        doc.subrange(from, sites[0].0) + vals[0] + substitute_from(
            doc,
            sites.drop_first(),
            vals.drop_first(),
            sites[0].1,
        )
    }
}

/// `doc` with the placeholder at site `i` replaced by `vals[i]`, for each `i`.
pub open spec fn substitute(doc: Seq<u8>, sites: Seq<(int, int)>, vals: Seq<Seq<u8>>) -> Seq<u8> {
    substitute_from(doc, sites, vals, 0)
}

/// What a formatting macro prints for a template whose only braces are `{}`
/// slots: each slot takes the next value.
pub open spec fn fill(t: Seq<u8>, vals: Seq<Seq<u8>>) -> Seq<u8>
    decreases t.len(),
{
    if t.len() == 0 {
        Seq::empty()
    } else if t.len() >= 2 && t[0] == 123u8 && t[1] == 125u8 {
        if vals.len() > 0 {
            vals[0] + fill(t.subrange(2, t.len() as int), vals.drop_first())
        } else {
            fill(t.subrange(2, t.len() as int), vals)
        }
    } else {
        seq![t[0]] + fill(t.drop_first(), vals)
    }
}

/// Every `{` or `}` of `doc` belongs to one of its placeholders.
pub open spec fn braces_only_in_placeholders(doc: Seq<u8>) -> bool {
    forall|k: int|
        0 <= k < doc.len() && (doc[k] == 123u8 || doc[k] == 125u8) ==> exists|i: int|
            0 <= i < doc_sites(doc).len() && doc_sites(doc)[i].0 <= k < #[trigger] doc_sites(
                doc,
            )[i].1
}

pub open spec fn no_braces(s: Seq<u8>) -> bool {
    forall|k: int| 0 <= k < s.len() ==> s[k] != 123u8 && s[k] != 125u8
}

proof fn lemma_fill_plain_prefix(a: Seq<u8>, b: Seq<u8>, vals: Seq<Seq<u8>>)
    requires
        no_braces(a),
    ensures
        fill(a + b, vals) == a + fill(b, vals),
    decreases a.len(),
{
    if a.len() > 0 {
        let ab = a + b;
        assert(ab.drop_first() =~= a.drop_first() + b);
        lemma_fill_plain_prefix(a.drop_first(), b, vals);
        assert(a =~= seq![a[0]] + a.drop_first());
    } else {
        assert(a + b =~= b);
    }
}

proof fn lemma_fill_rewrite_from(
    doc: Seq<u8>,
    sites: Seq<(int, int)>,
    vals: Seq<Seq<u8>>,
    from: int,
)
    requires
        0 <= from <= doc.len(),
        sites_ordered(sites, from, doc.len() as int),
        vals.len() == sites.len(),
        forall|k: int|
            from <= k < doc.len() && (doc[k] == 123u8 || doc[k] == 125u8) ==> exists|i: int|
                0 <= i < sites.len() && sites[i].0 <= k < #[trigger] sites[i].1,
    ensures
        fill(rewrite_from(doc, sites, from), vals) == substitute_from(doc, sites, vals, from),
    decreases sites.len(),
{
    if sites.len() == 0 {
        let a = doc.subrange(from, doc.len() as int);
        assert forall|k: int| 0 <= k < a.len() implies a[k] != 123u8 && a[k] != 125u8 by {
            assert(a[k] == doc[from + k]);
        }
        lemma_fill_plain_prefix(a, Seq::empty(), vals);
        assert(a + Seq::<u8>::empty() =~= a);
    } else {
        let a = doc.subrange(from, sites[0].0);
        assert forall|k: int| 0 <= k < a.len() implies a[k] != 123u8 && a[k] != 125u8 by {
            assert(a[k] == doc[from + k]);
            if doc[from + k] == 123u8 || doc[from + k] == 125u8 {
                let i = choose|i: int| 0 <= i < sites.len() && sites[i].0 <= from + k < #[trigger] sites[i].1;
                if i > 0 {
                    assert(sites[0].1 <= sites[i].0);
                }
            }
        }
        let rest = sites.drop_first();
        assert forall|k: int|
            sites[0].1 <= k < doc.len() && (doc[k] == 123u8 || doc[k] == 125u8) implies exists|i: int|
                0 <= i < rest.len() && rest[i].0 <= k < #[trigger] rest[i].1 by {
            let i = choose|i: int| 0 <= i < sites.len() && sites[i].0 <= k < #[trigger] sites[i].1;
            if i == 0 {
                assert(false);
            }
            assert(rest[i - 1] == sites[i]);
        }
        assert(sites_ordered(rest, sites[0].1, doc.len() as int)) by {
            assert forall|i: int| 0 <= i < rest.len() implies sites[0].1 <= #[trigger] rest[i].0 by {
                assert(rest[i] == sites[i + 1]);
            }
            assert forall|i: int, j: int| 0 <= i < j < rest.len() implies #[trigger] rest[i].1
                <= #[trigger] rest[j].0 by {
                assert(rest[i] == sites[i + 1]);
                assert(rest[j] == sites[j + 1]);
            }
        }
        lemma_fill_rewrite_from(doc, rest, vals.drop_first(), sites[0].1);
        let tail = rewrite_from(doc, rest, sites[0].1);
        let slot = "{}".spec_bytes();
        assert(slot =~= seq![123u8, 125u8]) by {
            reveal_strlit("{}");
            vstd::string::is_ascii_spec_bytes("{}");
        }
        assert(a + slot + tail =~= a + (slot + tail));
        lemma_fill_plain_prefix(a, slot + tail, vals);
        assert((slot + tail).subrange(2, (slot + tail).len() as int) =~= tail);
    }
}

/// The template of `docstr`: each of `fields_sites` replaced by an anonymous
/// slot `{}`, the rest of the text kept.
pub fn modify_docstr(docstr: &Vec<u8>, fields_sites: &Vec<FieldSite>) -> (r: Vec<u8>)
    requires
        sites_ordered(site_ranges(fields_sites@), 0, docstr@.len() as int),
    ensures
        r@ == rewrite(docstr@, site_ranges(fields_sites@)),
{
    let ghost doc = docstr@;
    let ghost sites = site_ranges(fields_sites@);
    let mut out: Vec<u8> = Vec::new();
    let mut pos: usize = 0;
    let mut k: usize = 0;
    assert(sites.subrange(0, sites.len() as int) =~= sites);
    assert(out@ + rewrite(doc, sites) =~= rewrite(doc, sites));
    while k < fields_sites.len()
        invariant
            k <= fields_sites@.len(),
            doc == docstr@,
            sites == site_ranges(fields_sites@),
            sites_ordered(sites, 0, doc.len() as int),
            k == 0 ==> pos == 0,
            k > 0 ==> pos == sites[k - 1].1,
            pos <= doc.len(),
            rewrite(doc, sites) == out@ + rewrite_from(
                doc,
                sites.subrange(k as int, sites.len() as int),
                pos as int,
            ),
        decreases fields_sites@.len() - k,
    {
        let ghost rest = sites.subrange(k as int, sites.len() as int);
        let s = fields_sites[k].start;
        let e = fields_sites[k].end;
        assert(rest[0] == sites[k as int]);
        assert(rest.drop_first() =~= sites.subrange(k + 1, sites.len() as int));
        if k > 0 {
            assert(sites[k - 1].1 <= sites[k as int].0);
        }
        push_range(&mut out, docstr.as_slice(), pos, s);
        push_str(&mut out, "{}");
        pos = e;
        k = k + 1;
    }
    push_range(&mut out, docstr.as_slice(), pos, docstr.len());
    out
}

/// Prints a template of `{}` slots: each slot takes the next value, in order;
/// a slot past the last value prints nothing.
pub fn fill_template(t: &Vec<u8>, vals: &Vec<Vec<u8>>) -> (r: Vec<u8>)
    ensures
        r@ == fill(t@, vec_views(vals@)),
{
    let ghost vs = vec_views(vals@);
    let mut out: Vec<u8> = Vec::new();
    let mut i: usize = 0;
    let mut k: usize = 0;
    assert(t@.subrange(0, t@.len() as int) =~= t@);
    assert(vs.subrange(0, vs.len() as int) =~= vs);
    while i < t.len()
        invariant
            i <= t@.len(),
            k <= vs.len(),
            vs == vec_views(vals@),
            fill(t@, vs) == out@ + fill(
                t@.subrange(i as int, t@.len() as int),
                vs.subrange(k as int, vs.len() as int),
            ),
        decreases t@.len() - i,
    {
        let ghost rest = t@.subrange(i as int, t@.len() as int);
        let ghost vrest = vs.subrange(k as int, vs.len() as int);
        if t.len() - i >= 2 && t[i] == 123 && t[i + 1] == 125 {
            assert(rest.subrange(2, rest.len() as int) =~= t@.subrange(i + 2, t@.len() as int));
            if k < vals.len() {
                assert(vrest[0] == vals@[k as int]@);
                assert(vrest.drop_first() =~= vs.subrange(k + 1, vs.len() as int));
                push_bytes(&mut out, vals[k].as_slice());
                k = k + 1;
            }
            i = i + 2;
        } else {
            assert(rest.drop_first() =~= t@.subrange(i + 1, t@.len() as int));
            out.push(t[i]);
            i = i + 1;
        }
    }
    assert(out@ + fill(Seq::<u8>::empty(), vs.subrange(k as int, vs.len() as int)) =~= out@);
    out
}

/// Printing the template with the resolved values, in the order of the
/// placeholders, gives the documentation text with each placeholder replaced
/// by its value: nothing is dropped, and the order of the text is kept.
pub proof fn template_prints_values_in_order(doc: Seq<u8>, vals: Seq<Seq<u8>>)
    requires
        braces_only_in_placeholders(doc),
        vals.len() == doc_sites(doc).len(),
    ensures
        fill(rewrite(doc, doc_sites(doc)), vals) == substitute(doc, doc_sites(doc), vals),
{
    lemma_sites_from(doc, 0);
    lemma_fill_rewrite_from(doc, doc_sites(doc), vals, 0);
}

/// `"␠` pairs stripped from the front, as many as stand there.
pub open spec fn trim_quote_space(s: Seq<u8>) -> Seq<u8>
    decreases s.len(),
{
    if s.len() >= 2 && s[0] == 34u8 && s[1] == 32u8 {
        trim_quote_space(s.subrange(2, s.len() as int))
    } else {
        s
    }
}

/// `"` stripped from the end, as many as stand there.
pub open spec fn trim_end_quotes(s: Seq<u8>) -> Seq<u8>
    decreases s.len(),
{
    if s.len() > 0 && s.last() == 34u8 {
        trim_end_quotes(s.drop_last())
    } else {
        s
    }
}

/// The documentation text of a `doc` literal's source text.
pub open spec fn doc_text(lit: Seq<u8>) -> Seq<u8> {
    trim_end_quotes(trim_quote_space(lit))
}

/// A `doc = "<text>"` attribute.
pub open spec fn is_doc_attr(a: DeclAttr) -> bool {
    &&& a.path@ == "doc".spec_bytes()
    &&& a.value matches Some(v) && str_literal_ok(v@)
}

/// The documentation lines among `attrs`, in order.
pub open spec fn doc_lines(attrs: Seq<DeclAttr>) -> Seq<Seq<u8>>
    decreases attrs.len(),
{
    if attrs.len() == 0 {
        Seq::empty()
    } else if is_doc_attr(attrs.last()) {
        doc_lines(attrs.drop_last()).push(doc_text(attrs.last().value.unwrap()@))
    } else {
        doc_lines(attrs.drop_last())
    }
}

/// The documentation text of a `doc` literal: its quotes and the leading
/// space stripped.
pub fn trim_doc_literal(lit: &Vec<u8>) -> (r: Vec<u8>)
    ensures
        r@ == doc_text(lit@),
{
    let ghost s = lit@;
    let mut lo: usize = 0;
    let n = lit.len();
    assert(s.subrange(0, s.len() as int) =~= s);
    while lo < n && n - lo >= 2 && lit[lo] == 34 && lit[lo + 1] == 32
        invariant
            lo <= s.len(),
            n == s.len(),
            s == lit@,
            trim_quote_space(s) == trim_quote_space(s.subrange(lo as int, s.len() as int)),
        decreases s.len() - lo,
    {
        assert(s.subrange(lo as int, s.len() as int).subrange(2, s.len() - lo) =~= s.subrange(
            lo + 2,
            s.len() as int,
        ));
        lo = lo + 2;
    }
    let ghost mid = s.subrange(lo as int, s.len() as int);
    assert(trim_quote_space(mid) == mid);
    let mut hi: usize = lit.len();
    assert(mid =~= s.subrange(lo as int, hi as int));
    while hi > lo && lit[hi - 1] == 34
        invariant
            lo <= hi <= s.len(),
            s == lit@,
            trim_end_quotes(mid) == trim_end_quotes(s.subrange(lo as int, hi as int)),
        decreases hi - lo,
    {
        assert(s.subrange(lo as int, hi as int).drop_last() =~= s.subrange(lo as int, hi - 1));
        hi = hi - 1;
    }
    let mut r: Vec<u8> = Vec::new();
    push_range(&mut r, lit.as_slice(), lo, hi);
    assert(r@ =~= s.subrange(lo as int, hi as int));
    r
}

/// The documentation lines of a declaration or variant, in order.
pub fn get_docstrs_from_attrs(attrs: &Vec<DeclAttr>) -> (r: Vec<Vec<u8>>)
    ensures
        vec_views(r@) == doc_lines(attrs@),
{
    let mut r: Vec<Vec<u8>> = Vec::new();
    let mut i: usize = 0;
    while i < attrs.len()
        invariant
            i <= attrs@.len(),
            vec_views(r@) == doc_lines(attrs@.subrange(0, i as int)),
        decreases attrs@.len() - i,
    {
        let a = &attrs[i];
        let ghost pre = attrs@.subrange(0, i + 1);
        assert(pre.drop_last() =~= attrs@.subrange(0, i as int));
        assert(pre.last() == attrs@[i as int]);
        if bytes_eq(a.path.as_slice(), "doc".as_bytes()) {
            if let Some(v) = &a.value {
                if is_str_literal(v.as_slice()) {
                    r.push(trim_doc_literal(v));
                }
            }
        }
        assert(vec_views(r@) =~= doc_lines(pre));
        i = i + 1;
    }
    assert(attrs@.subrange(0, attrs@.len() as int) =~= attrs@);
    r
}

/// The keys of the sites, in order.
pub open spec fn site_keys(sites: Seq<FieldSite>) -> Seq<Seq<u8>> {
    Seq::new(sites.len(), |i: int| sites[i].key@)
}

/// The first key from `i` on that the table does not hold.
pub open spec fn first_unresolved(t: Seq<(Seq<u8>, FieldRef)>, keys: Seq<Seq<u8>>, i: int) -> Option<nat>
    decreases keys.len() - i,
{
    if i < 0 || i >= keys.len() {
        None
    } else if table_lookup(t, keys[i]) is None {
        Some(i as nat)
    } else {
        first_unresolved(t, keys, i + 1)
    }
}

/// What each key names in the table, where all of them are held.
pub open spec fn resolved(t: Seq<(Seq<u8>, FieldRef)>, keys: Seq<Seq<u8>>) -> Seq<FieldRef> {
    Seq::new(keys.len(), |i: int| table_lookup(t, keys[i]).unwrap())
}

pub open spec fn token_views(v: Seq<FieldIdToken>) -> Seq<FieldRef> {
    Seq::new(v.len(), |i: int| v[i].view())
}

/// Resolves every placeholder of a documentation line against the field
/// table: all of them, or an error that names the first key that has no field
/// and the owner (`Type` or `Type::Variant`).
pub fn resolve_fields(sites: &Vec<FieldSite>, table: &Vec<FieldEntry>, owner: &Vec<u8>) -> (r:
    Result<Vec<FieldIdToken>, TransformError>)
    ensures
        match first_unresolved(entries_view(table@), site_keys(sites@), 0) {
            None => (r matches Ok(v) && token_views(v@) == resolved(
                entries_view(table@),
                site_keys(sites@),
            )),
            Some(i) => (r matches Err(TransformError::UnresolvedFieldReference { owner: o, key: k })
                && o@ == owner@ && k@ == site_keys(sites@)[i as int]),
        },
{
    let ghost t = entries_view(table@);
    let ghost keys = site_keys(sites@);
    let mut v: Vec<FieldIdToken> = Vec::new();
    let mut i: usize = 0;
    while i < sites.len()
        invariant
            i <= sites@.len(),
            t == entries_view(table@),
            keys == site_keys(sites@),
            first_unresolved(t, keys, 0) == first_unresolved(t, keys, i as int),
            v@.len() == i,
            forall|j: int|
                0 <= j < i ==> table_lookup(t, keys[j]) is Some && #[trigger] v@[j].view()
                    == table_lookup(t, keys[j]).unwrap(),
        decreases sites@.len() - i,
    {
        assert(keys[i as int] == sites@[i as int].key@);
        match lookup_field(table, sites[i].key.as_slice()) {
            Some(at) => {
                v.push(copy_token(&table[at].token));
            },
            None => {
                return Err(
                    TransformError::UnresolvedFieldReference {
                        owner: copy_bytes(owner),
                        key: copy_bytes(&sites[i].key),
                    },
                );
            },
        }
        i = i + 1;
    }
    assert(token_views(v@) =~= resolved(t, keys));
    Ok(v)
}

} // verus!
