//! Searching and splitting byte strings.

use vstd::prelude::*;
use vstd::slice::slice_subrange;

verus! {

/// `pat` occurs in `s` at position `i`.
pub open spec fn matches_at(s: Seq<u8>, pat: Seq<u8>, i: int) -> bool {
    0 <= i && i + pat.len() <= s.len() && s.subrange(i, i + pat.len()) == pat
}

/// `pat` occurs somewhere in `s`.
pub open spec fn has_match(s: Seq<u8>, pat: Seq<u8>) -> bool {
    exists|i: int| matches_at(s, pat, i)
}

/// `pat` occurs in `s` at `i` and nowhere before.
pub open spec fn is_first_match(s: Seq<u8>, pat: Seq<u8>, i: int) -> bool {
    matches_at(s, pat, i) && forall|k: int| 0 <= k < i ==> !matches_at(s, pat, k)
}

/// Where `pat` first occurs in `s`, if it occurs at all.
pub open spec fn first_match(s: Seq<u8>, pat: Seq<u8>) -> int {
    choose|i: int| is_first_match(s, pat, i)
}

/// What lies before and behind the first occurrence of `pat` in `s`.
pub open spec fn spec_split2(s: Seq<u8>, pat: Seq<u8>) -> Option<(Seq<u8>, Seq<u8>)> {
    if has_match(s, pat) {
        let i = first_match(s, pat);
        Some((s.subrange(0, i), s.subrange(i + pat.len(), s.len() as int)))
    } else {
        None
    }
}

/// Where a pattern occurs, it occurs for a first time.
pub proof fn lemma_first_match_exists(s: Seq<u8>, pat: Seq<u8>, i: int)
    requires
        matches_at(s, pat, i),
    ensures
        is_first_match(s, pat, first_match(s, pat)),
        first_match(s, pat) <= i,
    decreases i,
{
    if forall|k: int| 0 <= k < i ==> !matches_at(s, pat, k) {
        assert(is_first_match(s, pat, i));
        lemma_first_match_unique(s, pat, i);
    } else {
        let k = choose|k: int| 0 <= k < i && matches_at(s, pat, k);
        lemma_first_match_exists(s, pat, k);
    }
}

/// There is only one first occurrence.
pub proof fn lemma_first_match_unique(s: Seq<u8>, pat: Seq<u8>, i: int)
    requires
        is_first_match(s, pat, i),
    ensures
        first_match(s, pat) == i,
        has_match(s, pat),
{
    let j = first_match(s, pat);
    assert(is_first_match(s, pat, j));
    if j < i {
        assert(!matches_at(s, pat, j));
    }
    if i < j {
        assert(!matches_at(s, pat, i));
    }
}

/// Compares two byte strings.
pub fn bytes_eq(a: &[u8], b: &[u8]) -> (r: bool)
    ensures
        r == (a@ == b@),
{
    if a.len() != b.len() {
        return false;
    }
    let mut i: usize = 0;
    while i < a.len()
        invariant
            i <= a@.len(),
            a@.len() == b@.len(),
            forall|k: int| 0 <= k < i ==> a@[k] == b@[k],
        decreases a@.len() - i,
    {
        if a[i] != b[i] {
            return false;
        }
        i += 1;
    }
    assert(a@ =~= b@);
    true
}

/// How one value stands to another in an order.
#[derive(Clone, Copy, Debug, PartialEq, Eq, Structural)]
pub enum Sign {
    Less,
    Equal,
    Greater,
}

/// Byte-wise order: the first byte in which two strings differ decides, and
/// a string comes before every longer string that begins with it.
pub open spec fn lex_sign(a: Seq<u8>, b: Seq<u8>) -> Sign
    decreases a.len(),
{
    if a.len() == 0 {
        if b.len() == 0 {
            Sign::Equal
        } else {
            Sign::Less
        }
    } else if b.len() == 0 {
        Sign::Greater
    } else if a[0] < b[0] {
        Sign::Less
    } else if a[0] > b[0] {
        Sign::Greater
    } else {
        lex_sign(a.drop_first(), b.drop_first())
    }
}

/// Strings compare equal byte-wise exactly when they are the same.
pub proof fn lemma_lex_sign_equal(a: Seq<u8>, b: Seq<u8>)
    ensures
        lex_sign(a, b) == Sign::Equal <==> a == b,
    decreases a.len(),
{
    if a.len() != 0 && b.len() != 0 {
        lemma_lex_sign_equal(a.drop_first(), b.drop_first());
        if a[0] == b[0] && a.drop_first() == b.drop_first() {
            assert(a =~= seq![a[0]] + a.drop_first());
            assert(b =~= seq![b[0]] + b.drop_first());
        }
    } else if a.len() == 0 && b.len() == 0 {
        assert(a =~= b);
    }
}

/// Compares two byte strings byte-wise.
pub fn lex_compare(a: &[u8], b: &[u8]) -> (r: Sign)
    ensures
        r == lex_sign(a@, b@),
{
    let mut i: usize = 0;
    assert(a@.subrange(0, a@.len() as int) =~= a@);
    assert(b@.subrange(0, b@.len() as int) =~= b@);
    while i < a.len() && i < b.len()
        invariant
            i <= a@.len(),
            i <= b@.len(),
            lex_sign(a@, b@) == lex_sign(
                a@.subrange(i as int, a@.len() as int),
                b@.subrange(i as int, b@.len() as int),
            ),
        decreases a@.len() - i,
    {
        let ghost ta = a@.subrange(i as int, a@.len() as int);
        let ghost tb = b@.subrange(i as int, b@.len() as int);
        assert(ta[0] == a@[i as int] && tb[0] == b@[i as int]);
        if a[i] < b[i] {
            return Sign::Less;
        }
        if a[i] > b[i] {
            return Sign::Greater;
        }
        assert(ta.drop_first() =~= a@.subrange(i + 1, a@.len() as int));
        assert(tb.drop_first() =~= b@.subrange(i + 1, b@.len() as int));
        i += 1;
    }
    if i == a.len() {
        if i == b.len() {
            Sign::Equal
        } else {
            Sign::Less
        }
    } else {
        Sign::Greater
    }
}

/// Splits `s` at the first occurrence of `pat`, which belongs to neither
/// part.
pub fn split2<'a>(s: &'a [u8], pat: &[u8]) -> (r: Option<(&'a [u8], &'a [u8])>)
    ensures
        match spec_split2(s@, pat@) {
            Some((before, after)) => r matches Some((x, y)) && x@ == before && y@ == after,
            None => r is None,
        },
{
    let n = s.len();
    let m = pat.len();
    if m > n {
        return None;
    }
    let last = n - m;
    let mut i: usize = 0;
    loop
        invariant
            n == s@.len(),
            m == pat@.len(),
            last == n - m,
            i <= last,
            forall|k: int| 0 <= k < i ==> !matches_at(s@, pat@, k),
        decreases last - i,
    {
        if bytes_eq(slice_subrange(s, i, i + m), pat) {
            proof {
                assert(is_first_match(s@, pat@, i as int));
                lemma_first_match_unique(s@, pat@, i as int);
            }
            return Some((slice_subrange(s, 0, i), slice_subrange(s, i + m, n)));
        }
        if i == last {
            return None;
        }
        i += 1;
    }
}

} // verus!
