//! Byte-string helpers shared by the codecs and the commands.
use vstd::prelude::*;
use vstd::string::StringSliceAdditionalSpecFns;

verus! {

/// A copy of `b[start..end]`.
pub fn copy_range(b: &[u8], start: usize, end: usize) -> (r: Vec<u8>)
    requires
        start <= end <= b@.len(),
    ensures
        r@ == b@.subrange(start as int, end as int),
{
    let mut out: Vec<u8> = Vec::new();
    let mut i: usize = start;
    while i < end
        invariant
            start <= i <= end <= b@.len(),
            out@ == b@.subrange(start as int, i as int),
        decreases end - i,
    {
        out.push(b[i]);
        i = i + 1;
        assert(out@ =~= b@.subrange(start as int, i as int));
    }
    out
}

/// A copy of `b`.
pub fn copy_bytes(b: &[u8]) -> (r: Vec<u8>)
    ensures
        r@ == b@,
{
    let r = copy_range(b, 0, b.len());
    assert(b@.subrange(0, b@.len() as int) =~= b@);
    r
}

/// Appends the bytes of `b`.
pub fn append(out: &mut Vec<u8>, b: &[u8])
    ensures
        final(out)@ == old(out)@ + b@,
{
    let mut i: usize = 0;
    while i < b.len()
        invariant
            i <= b@.len(),
            out@ == old(out)@ + b@.subrange(0, i as int),
        decreases b.len() - i,
    {
        out.push(b[i]);
        i = i + 1;
        assert(out@ =~= old(out)@ + b@.subrange(0, i as int));
    }
    assert(b@.subrange(0, i as int) =~= b@);
}

/// The UTF-8 bytes of `s`.
pub fn text(s: &str) -> (r: Vec<u8>)
    ensures
        r@ == s.spec_bytes(),
{
    copy_bytes(s.as_bytes())
}

/// The ASCII upper case of a byte; other bytes are kept.
pub open spec fn upper(c: u8) -> u8 {
    if 97 <= c <= 122 {
        (c - 32) as u8
    } else {
        c
    }
}

/// `a` is `word` (given in upper case) up to ASCII case.
pub open spec fn same_word(a: Seq<u8>, word: Seq<u8>) -> bool {
    a.len() == word.len() && forall|i: int| 0 <= i < a.len() ==> upper(#[trigger] a[i]) == word[i]
}

/// Whether `a` is `word` (given in upper case) up to ASCII case.
pub fn is_word(a: &[u8], word: &str) -> (r: bool)
    ensures
        r == same_word(a@, word.spec_bytes()),
{
    let w = word.as_bytes();
    if a.len() != w.len() {
        return false;
    }
    let mut i: usize = 0;
    while i < a.len()
        invariant
            i <= a@.len(),
            a@.len() == w@.len(),
            w@ == word.spec_bytes(),
            forall|j: int| 0 <= j < i ==> upper(#[trigger] a@[j]) == w@[j],
        decreases a.len() - i,
    {
        let c = a[i];
        let u: u8 = if 97 <= c && c <= 122 {
            c - 32
        } else {
            c
        };
        if u != w[i] {
            return false;
        }
        i = i + 1;
    }
    true
}

} // verus!
