//! Byte-text building blocks shared by the generators.
use vstd::prelude::*;
use vstd::string::StringSliceAdditionalSpecFns;

verus! {

/// Decimal digits of `n`, most significant first, without leading zeros.
pub open spec fn dec_digits_of(n: nat) -> Seq<u8>
    decreases n,
{
    if n < 10 {
        seq![(48 + n) as u8]
    } else {
        dec_digits_of(n / 10).push((48 + n % 10) as u8)
    }
}

/// The pieces joined in order.
pub open spec fn concat(ss: Seq<Seq<u8>>) -> Seq<u8>
    decreases ss.len(),
{
    if ss.len() == 0 {
        Seq::empty()
    } else {
        concat(ss.drop_last()) + ss.last()
    }
}

/// Joining one more piece appends it.
pub proof fn lemma_concat_step(f: spec_fn(int) -> Seq<u8>, n: nat)
    ensures
        concat(Seq::new(n + 1, f)) == concat(Seq::new(n, f)) + f(n as int),
{
    assert(Seq::new(n + 1, f).drop_last() =~= Seq::new(n, f));
}

/// The contents of each byte vector.
pub open spec fn vec_views(v: Seq<Vec<u8>>) -> Seq<Seq<u8>> {
    Seq::new(v.len(), |i: int| v[i]@)
}

/// A copy of `b`.
pub fn copy_bytes(b: &Vec<u8>) -> (r: Vec<u8>)
    ensures
        r@ == b@,
{
    let mut r: Vec<u8> = Vec::new();
    push_bytes(&mut r, b.as_slice());
    r
}

/// Appends the UTF-8 bytes of `s`.
pub fn push_str(out: &mut Vec<u8>, s: &str)
    ensures
        final(out)@ == old(out)@ + s.spec_bytes(),
{
    let b = s.as_bytes();
    push_bytes(out, b);
}

/// Appends `b`.
pub fn push_bytes(out: &mut Vec<u8>, b: &[u8])
    ensures
        final(out)@ == old(out)@ + b@,
{
    let ghost start = out@;
    let mut i: usize = 0;
    while i < b.len()
        invariant
            i <= b@.len(),
            out@ == start + b@.subrange(0, i as int),
        decreases b@.len() - i,
    {
        out.push(b[i]);
        i = i + 1;
        assert(b@.subrange(0, i as int) == b@.subrange(0, i - 1).push(b@[i - 1]));
    }
    assert(b@.subrange(0, b@.len() as int) == b@);
}

/// Appends `b[lo..hi]`.
pub fn push_range(out: &mut Vec<u8>, b: &[u8], lo: usize, hi: usize)
    requires
        lo <= hi <= b@.len(),
    ensures
        final(out)@ == old(out)@ + b@.subrange(lo as int, hi as int),
{
    let ghost start = out@;
    let mut i: usize = lo;
    while i < hi
        invariant
            lo <= i <= hi,
            hi <= b@.len(),
            out@ == start + b@.subrange(lo as int, i as int),
        decreases hi - i,
    {
        out.push(b[i]);
        i = i + 1;
        assert(b@.subrange(lo as int, i as int) == b@.subrange(lo as int, i - 1).push(b@[i - 1]));
    }
}

/// The decimal digits of `n`.
pub fn dec_digits(n: usize) -> (r: Vec<u8>)
    ensures
        r@ == dec_digits_of(n as nat),
    decreases n,
{
    if n < 10 {
        let d: u8 = 48 + n as u8;
        vec![d]
    } else {
        let mut r = dec_digits(n / 10);
        let d: u8 = 48 + (n % 10) as u8;
        r.push(d);
        r
    }
}

/// Whether two byte strings are equal.
pub fn bytes_eq(a: &[u8], b: &[u8]) -> (r: bool)
    ensures
        r == (a@ == b@),
{
    if a.len() != b.len() {
        return false;
    }
    let mut i: usize = 0;
    while i < a.len()
        invariant
            a@.len() == b@.len(),
            i <= a@.len(),
            forall|j: int| 0 <= j < i ==> a@[j] == b@[j],
        decreases a@.len() - i,
    {
        if a[i] != b[i] {
            return false;
        }
        i = i + 1;
    }
    assert(a@ =~= b@);
    true
}

} // verus!
