//! Byte-string helpers shared by the wire formats: ASCII literals, substring
//! search and decimal numbers.

use vstd::prelude::*;

verus! {

/// The bytes of a sequence of ASCII characters.
pub open spec fn ascii(text: Seq<char>) -> Seq<u8> {
    Seq::new(text.len(), |i: int| text[i] as u8)
}

/// `pat` occurs in `s` at index `i`.
pub open spec fn matches_at(s: Seq<u8>, pat: Seq<u8>, i: int) -> bool {
    0 <= i && i + pat.len() <= s.len() && s.subrange(i, i + pat.len()) == pat
}

/// The least index at or after `from` where `pat` occurs in `s`.
pub open spec fn first_match(s: Seq<u8>, pat: Seq<u8>, from: int) -> Option<int>
    decreases s.len() + 1 - from,
{
    if from < 0 || from + pat.len() > s.len() {
        None
    } else if matches_at(s, pat, from) {
        Some(from)
    } else {
        first_match(s, pat, from + 1)
    }
}

/// `pat` occurs somewhere in `s`.
pub open spec fn contains_bytes(s: Seq<u8>, pat: Seq<u8>) -> bool {
    exists|i: int| matches_at(s, pat, i)
}

/// `first_match` returns an occurrence, and no occurrence lies between `from`
/// and it; it returns `None` only when there is none at or after `from`.
pub proof fn lemma_first_match(s: Seq<u8>, pat: Seq<u8>, from: int)
    requires
        0 <= from,
    ensures
        match first_match(s, pat, from) {
            Some(i) => from <= i && matches_at(s, pat, i) && forall|j: int|
                from <= j < i ==> !matches_at(s, pat, j),
            None => forall|j: int| from <= j ==> !matches_at(s, pat, j),
        },
    decreases s.len() + 1 - from,
{
    if from + pat.len() > s.len() {
    } else if matches_at(s, pat, from) {
    } else {
        lemma_first_match(s, pat, from + 1);
    }
}

/// An occurrence at `i` with none between `from` and `i` is the first match.
pub proof fn lemma_first_match_is(s: Seq<u8>, pat: Seq<u8>, from: int, i: int)
    requires
        0 <= from <= i,
        matches_at(s, pat, i),
        forall|j: int| from <= j < i ==> !matches_at(s, pat, j),
    ensures
        first_match(s, pat, from) == Some(i),
    decreases i - from,
{
    if from < i {
        lemma_first_match_is(s, pat, from + 1, i);
    }
}

/// A differing byte rules out an occurrence.
pub proof fn lemma_mismatch(s: Seq<u8>, pat: Seq<u8>, i: int, k: int)
    requires
        0 <= k < pat.len(),
        0 <= i,
        i + k >= s.len() || s[i + k] != pat[k],
    ensures
        !matches_at(s, pat, i),
{
    if matches_at(s, pat, i) {
        assert(s.subrange(i, i + pat.len())[k] == pat[k]);
    }
}

/// Appends the bytes of an ASCII string to `out`.
pub(crate) fn push_ascii(out: &mut Vec<u8>, text: &str)
    requires
        text.is_ascii(),
    ensures
        final(out)@ == old(out)@ + ascii(text@),
{
    broadcast use vstd::string::is_ascii_spec_bytes;

    let bytes = text.as_bytes();
    out.extend_from_slice(bytes);
}

/// The bytes of an ASCII string.
pub(crate) fn ascii_bytes(text: &str) -> (r: Vec<u8>)
    requires
        text.is_ascii(),
    ensures
        r@ == ascii(text@),
{
    let mut r: Vec<u8> = Vec::new();
    push_ascii(&mut r, text);
    r
}

/// Tells whether `pat` occurs in `s` at index `i`.
pub fn occurs_at(s: &[u8], pat: &[u8], i: usize) -> (r: bool)
    ensures
        r == matches_at(s@, pat@, i as int),
{
    if pat.len() > s.len() || i > s.len() - pat.len() {
        return false;
    }
    let mut k: usize = 0;
    while k < pat.len()
        invariant
            k <= pat.len(),
            i + pat.len() <= s.len(),
            forall|m: int| 0 <= m < k ==> s@[i + m] == pat@[m],
        decreases pat.len() - k,
    {
        if s[i + k] != pat[k] {
            proof {
                lemma_mismatch(s@, pat@, i as int, k as int);
            }
            return false;
        }
        k = k + 1;
    }
    assert(s@.subrange(i as int, i + pat.len()) =~= pat@);
    true
}

/// Finds the first occurrence of `pat` in `s` at or after `from`.
pub fn find(s: &[u8], pat: &[u8], from: usize) -> (r: Option<usize>)
    ensures
        match r {
            Some(i) => first_match(s@, pat@, from as int) == Some(i as int),
            None => first_match(s@, pat@, from as int) is None,
        },
{
    if pat.len() > s.len() || from > s.len() - pat.len() {
        return None;
    }
    let last: usize = s.len() - pat.len();
    let mut i: usize = from;
    while i < last
        invariant
            from <= i <= last,
            last == s.len() - pat.len(),
            first_match(s@, pat@, from as int) == first_match(s@, pat@, i as int),
        decreases last - i,
    {
        if occurs_at(s, pat, i) {
            return Some(i);
        }
        i = i + 1;
    }
    if occurs_at(s, pat, i) {
        Some(i)
    } else {
        assert(first_match(s@, pat@, i + 1) is None);
        None
    }
}

/// The decimal digits of `n`, most significant first.
pub open spec fn decimal(n: nat) -> Seq<u8>
    decreases n,
{
    if n < 10 {
        seq![(48 + n) as u8]
    } else {
        decimal(n / 10).push((48 + n % 10) as u8)
    }
}

/// Writes `n` in decimal.
pub fn decimal_text(n: usize) -> (r: Vec<u8>)
    ensures
        r@ == decimal(n as nat),
{
    let mut out: Vec<u8> = Vec::new();
    let mut rest: usize = n;
    while rest >= 10
        invariant
            decimal(n as nat) == decimal(rest as nat) + out@,
        decreases rest,
    {
        let digit: u8 = 48 + (rest % 10) as u8;
        proof {
            let front = decimal((rest / 10) as nat);
            assert(decimal(rest as nat) == front.push(digit));
            assert(front.push(digit) + out@ =~= front + out@.insert(0, digit));
        }
        out.insert(0, digit);
        rest = rest / 10;
    }
    let digit: u8 = 48 + rest as u8;
    assert(decimal(rest as nat) + out@ =~= out@.insert(0, digit));
    out.insert(0, digit);
    out
}

} // verus!
