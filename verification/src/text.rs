//! Small byte-sequence helpers shared by the rest of the crate.

use vstd::prelude::*;

verus! {

/// True of the ASCII lower-case letters `a` (97) through `z` (122).
pub open spec fn is_ascii_lower(b: u8) -> bool {
    97 <= b && b <= 122
}

/// ASCII upper-casing of one byte; bytes outside `a..=z` are unchanged.
pub open spec fn upper_byte(b: u8) -> u8 {
    if is_ascii_lower(b) {
        (b - 0x20) as u8
    } else {
        b
    }
}

/// ASCII upper-casing of a whole byte sequence.
pub open spec fn upper(s: Seq<u8>) -> Seq<u8> {
    s.map_values(|b: u8| upper_byte(b))
}

/// Upper-casing is idempotent: an already upper-cased sequence is left as
/// it is.
pub proof fn lemma_upper_idempotent(s: Seq<u8>)
    ensures
        upper(upper(s)) == upper(s),
{
    assert(upper(upper(s)) =~= upper(s));
}

/// Append every byte of `src` to `dst`.
pub fn push_all(dst: &mut Vec<u8>, src: &[u8])
    ensures
        final(dst)@ == old(dst)@ + src@,
{
    let mut i: usize = 0;
    while i < src.len()
        invariant
            i <= src@.len(),
            dst@ == old(dst)@ + src@.take(i as int),
        decreases src@.len() - i,
    {
        dst.push(src[i]);
        i = i + 1;
        assert(dst@ =~= old(dst)@ + src@.take(i as int));
    }
    assert(src@.take(src@.len() as int) =~= src@);
}

/// ASCII upper-case copy of `src`.
pub fn upper_bytes(src: &[u8]) -> (r: Vec<u8>)
    ensures
        r@ == upper(src@),
{
    let mut out: Vec<u8> = Vec::new();
    let mut i: usize = 0;
    while i < src.len()
        invariant
            i <= src@.len(),
            out@ == upper(src@.take(i as int)),
        decreases src@.len() - i,
    {
        let b = src[i];
        if 97 <= b && b <= 122 {
            out.push(b - 0x20);
        } else {
            out.push(b);
        }
        i = i + 1;
        assert(out@ =~= upper(src@.take(i as int)));
    }
    assert(src@.take(src@.len() as int) =~= src@);
    out
}

/// The bytes of `src` from `from` (inclusive) to `to` (exclusive).
pub fn copy_range(src: &[u8], from: usize, to: usize) -> (r: Vec<u8>)
    requires
        from <= to <= src@.len(),
    ensures
        r@ == src@.subrange(from as int, to as int),
{
    let mut out: Vec<u8> = Vec::new();
    let mut i: usize = from;
    while i < to
        invariant
            from <= i <= to <= src@.len(),
            out@ == src@.subrange(from as int, i as int),
        decreases to - i,
    {
        out.push(src[i]);
        i = i + 1;
        assert(out@ =~= src@.subrange(from as int, i as int));
    }
    out
}

/// Byte-for-byte equality of two slices.
pub fn bytes_eq(a: &[u8], b: &[u8]) -> (r: bool)
    ensures
        r == (a@ == b@),
{
    if a.len() != b.len() {
        assert(a@ != b@);
        return false;
    }
    let mut i: usize = 0;
    while i < a.len()
        invariant
            i <= a@.len(),
            a@.len() == b@.len(),
            forall|j: int| 0 <= j < i ==> a@[j] == b@[j],
        decreases a@.len() - i,
    {
        if a[i] != b[i] {
            return false;
        }
        i = i + 1;
    }
    assert(a@ =~= b@);
    true
}

/// Does `s` begin with `prefix`?
pub fn starts_with(s: &[u8], prefix: &[u8]) -> (r: bool)
    ensures
        r == (s@.len() >= prefix@.len() && s@.take(prefix@.len() as int) == prefix@),
{
    if s.len() < prefix.len() {
        return false;
    }
    let mut i: usize = 0;
    while i < prefix.len()
        invariant
            i <= prefix@.len(),
            prefix@.len() <= s@.len(),
            forall|j: int| 0 <= j < i ==> s@[j] == prefix@[j],
        decreases prefix@.len() - i,
    {
        if s[i] != prefix[i] {
            assert(s@.take(prefix@.len() as int)[i as int] != prefix@[i as int]);
            return false;
        }
        i = i + 1;
    }
    assert(s@.take(prefix@.len() as int) =~= prefix@);
    true
}

} // verus!
