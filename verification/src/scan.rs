//! Byte-string scanning: substring search, tag-text extraction, and
//! decimal parsing.
//!
//! The list responses of an S3-compatible endpoint are XML documents;
//! the facade reads them with these scanners, which find the first
//! occurrence of a pattern and the text between an opening and a
//! closing tag.

use vstd::prelude::*;

use crate::bytes::slice_bytes;

verus! {

/// Whether `pat` occurs in `s` at position `at`.
pub open spec fn match_at(s: Seq<u8>, pat: Seq<u8>, at: int) -> bool {
    0 <= at && at + pat.len() <= s.len() && s.subrange(at, at + pat.len()) == pat
}

/// The first position at or after `from` where `pat` occurs in `s`.
pub open spec fn spec_find(s: Seq<u8>, pat: Seq<u8>, from: int) -> Option<int>
    decreases s.len() - from,
{
    if from < 0 || from + pat.len() > s.len() {
        None
    } else if match_at(s, pat, from) {
        Some(from)
    } else {
        proof {
            if pat.len() == 0 {
                assert(s.subrange(from, from + pat.len()) =~= pat);
            }
        }
        spec_find(s, pat, from + 1)
    }
}

/// A found position lies within bounds, at or after `from`, and the
/// pattern occurs there.
pub proof fn lemma_find_props(s: Seq<u8>, pat: Seq<u8>, from: int)
    ensures
        spec_find(s, pat, from) matches Some(i) ==> from <= i && 0 <= i && i + pat.len() <= s.len()
            && match_at(s, pat, i),
    decreases s.len() - from,
{
    if !(from < 0 || from + pat.len() > s.len()) && !match_at(s, pat, from) {
        if pat.len() == 0 {
            assert(s.subrange(from, from + pat.len()) =~= pat);
        }
        lemma_find_props(s, pat, from + 1);
    }
}

fn match_at_exec(s: &Vec<u8>, pat: &Vec<u8>, at: usize) -> (r: bool)
    requires
        at + pat@.len() <= s@.len(),
    ensures
        r == match_at(s@, pat@, at as int),
{
    let n = pat.len();
    let slen = s.len();
    for i in 0..n
        invariant
            n == pat@.len(),
            slen == s@.len(),
            at + n <= slen,
            forall|j: int| 0 <= j < i ==> s@[at + j] == pat@[j],
    {
        if s[at + i] != pat[i] {
            assert(s@.subrange(at as int, at + pat@.len())[i as int] != pat@[i as int]);
            return false;
        }
    }
    assert(s@.subrange(at as int, at + pat@.len()) =~= pat@);
    true
}

/// Finds the first occurrence of `pat` in `s` at or after `from`.
pub fn find_from(s: &Vec<u8>, pat: &Vec<u8>, from: usize) -> (r: Option<usize>)
    ensures
        match r {
            Some(i) => spec_find(s@, pat@, from as int) == Some(i as int),
            None => spec_find(s@, pat@, from as int) is None,
        },
{
    let mut i = from;
    loop
        invariant
            from <= i,
            spec_find(s@, pat@, from as int) == spec_find(s@, pat@, i as int),
        decreases s@.len() + 1 - i,
    {
        if pat.len() > s.len() || i > s.len() - pat.len() {
            return None;
        }
        if match_at_exec(s, pat, i) {
            return Some(i);
        }
        proof {
            if pat@.len() == 0 {
                assert(s@.subrange(i as int, i as int + pat@.len()) =~= pat@);
            }
        }
        i = i + 1;
    }
}

/// The bounds of the text between an opening and a closing tag: the
/// first occurrence of `open` at or after `from`, then the first
/// occurrence of `close` after it.  Yields (text start, text end,
/// position after the closing tag).
pub open spec fn spec_extract(s: Seq<u8>, open: Seq<u8>, close: Seq<u8>, from: int) -> Option<
    (int, int, int),
> {
    match spec_find(s, open, from) {
        None => None,
        Some(i) => match spec_find(s, close, i + open.len()) {
            None => None,
            Some(j) => Some((i + open.len(), j, j + close.len())),
        },
    }
}

/// An extracted range lies within bounds and, when the tags are
/// nonempty, strictly advances past `from`.
pub proof fn lemma_extract_props(s: Seq<u8>, open: Seq<u8>, close: Seq<u8>, from: int)
    ensures
        spec_extract(s, open, close, from) matches Some(r) ==> from < r.0 || open.len() == 0,
        spec_extract(s, open, close, from) matches Some(r) ==> from <= r.0 <= r.1 <= s.len()
            && r.1 <= r.2 <= s.len() && r.0 <= r.2 && (from < r.2 || (open.len() == 0
            && close.len() == 0)),
{
    lemma_find_props(s, open, from);
    match spec_find(s, open, from) {
        None => {},
        Some(i) => {
            lemma_find_props(s, close, i + open.len() as int);
        },
    }
}

/// Finds the text between `open` and the following `close`, searching
/// from `from`.
pub fn extract_from(s: &Vec<u8>, open: &Vec<u8>, close: &Vec<u8>, from: usize) -> (r: Option<
    (usize, usize, usize),
>)
    ensures
        match r {
            Some(t) => spec_extract(s@, open@, close@, from as int) == Some(
                (t.0 as int, t.1 as int, t.2 as int),
            ) && t.0 <= t.1 <= t.2 <= s@.len() && from <= t.0,
            None => spec_extract(s@, open@, close@, from as int) is None,
        },
{
    proof {
        lemma_extract_props(s@, open@, close@, from as int);
    }
    match find_from(s, open, from) {
        None => None,
        Some(i) => {
            let slen = s.len();
            proof {
                lemma_find_props(s@, open@, from as int);
            }
            let ts = i + open.len();
            match find_from(s, close, ts) {
                None => None,
                Some(j) => {
                    proof {
                        lemma_find_props(s@, close@, ts as int);
                    }
                    Some((ts, j, j + close.len()))
                },
            }
        },
    }
}

/// The text of the first `open`...`close` region of `s`, if any.
pub open spec fn spec_tag_text(s: Seq<u8>, open: Seq<u8>, close: Seq<u8>) -> Option<Seq<u8>> {
    match spec_extract(s, open, close, 0) {
        None => None,
        Some(r) => Some(s.subrange(r.0, r.1)),
    }
}

/// Copies out the text of the first `open`...`close` region of `s`.
pub fn tag_text(s: &Vec<u8>, open: &Vec<u8>, close: &Vec<u8>) -> (r: Option<Vec<u8>>)
    ensures
        match r {
            Some(t) => spec_tag_text(s@, open@, close@) == Some(t@),
            None => spec_tag_text(s@, open@, close@) is None,
        },
{
    match extract_from(s, open, close, 0) {
        None => None,
        Some((ts, te, _after)) => Some(slice_bytes(s, ts, te)),
    }
}

// ---------------------------------------------------------------------
// Decimal parsing.
// ---------------------------------------------------------------------

/// A nonempty string of ASCII decimal digits.
pub open spec fn is_digits(s: Seq<u8>) -> bool {
    s.len() > 0 && forall|i: int| 0 <= i < s.len() ==> 48 <= #[trigger] s[i] <= 57
}

/// The value of a string of decimal digits.
pub open spec fn dec_val(s: Seq<u8>) -> int
    decreases s.len(),
{
    if s.len() == 0 {
        0
    } else {
        dec_val(s.drop_last()) * 10 + (s.last() - 48)
    }
}

proof fn lemma_dec_val_nonneg(s: Seq<u8>)
    requires
        forall|i: int| 0 <= i < s.len() ==> 48 <= #[trigger] s[i] <= 57,
    ensures
        dec_val(s) >= 0,
    decreases s.len(),
{
    if s.len() > 0 {
        lemma_dec_val_nonneg(s.drop_last());
    }
}

proof fn lemma_dec_val_prefix(s: Seq<u8>, i: int)
    requires
        0 <= i <= s.len(),
        forall|j: int| 0 <= j < s.len() ==> 48 <= #[trigger] s[j] <= 57,
    ensures
        dec_val(s.take(i)) <= dec_val(s),
    decreases s.len() - i,
{
    if i < s.len() {
        lemma_dec_val_prefix(s, i + 1);
        let t = s.take(i + 1);
        assert(t.drop_last() =~= s.take(i));
        lemma_dec_val_nonneg(s.take(i));
        assert(dec_val(t) == dec_val(s.take(i)) * 10 + (t.last() - 48));
        assert(dec_val(s.take(i)) <= dec_val(s.take(i)) * 10) by {
            lemma_dec_val_nonneg(s.take(i));
        }
    } else {
        assert(s.take(i) =~= s);
    }
}

/// Parses a nonempty decimal digit string into a `u64`.
///
/// Returns the value exactly when the string is all digits and the
/// value fits; `None` on an empty string, a non-digit, or overflow.
pub fn parse_u64(s: &Vec<u8>) -> (r: Option<u64>)
    ensures
        r is Some <==> is_digits(s@) && dec_val(s@) <= u64::MAX,
        r matches Some(v) ==> v as int == dec_val(s@),
{
    if s.len() == 0 {
        return None;
    }
    let n = s.len();
    let mut acc: u64 = 0;
    assert(s@.take(0) =~= Seq::<u8>::empty());
    for i in 0..n
        invariant
            n == s@.len(),
            acc as int == dec_val(s@.take(i as int)),
            forall|j: int| 0 <= j < i ==> 48 <= #[trigger] s@[j] <= 57,
    {
        let b = s[i];
        if b < 48 || b > 57 {
            return None;
        }
        let d = (b - 48) as u64;
        if acc > (u64::MAX - d) / 10 {
            proof {
                let t = s@.take(i + 1);
                assert(t.drop_last() =~= s@.take(i as int));
                assert(t.last() == s@[i as int]);
                assert(dec_val(t) == acc as int * 10 + d);
                assert(acc as int * 10 + d > u64::MAX) by {
                    assert(acc as int > (u64::MAX - d) / 10);
                };
                if is_digits(s@) {
                    lemma_dec_val_prefix(s@, i + 1);
                }
            }
            return None;
        }
        proof {
            let t = s@.take(i + 1);
            assert(t.drop_last() =~= s@.take(i as int));
            assert(t.last() == s@[i as int]);
            assert(acc as int * 10 + d <= u64::MAX) by {
                assert(acc as int <= (u64::MAX - d) / 10);
            };
        }
        acc = acc * 10 + d;
    }
    assert(s@.take(n as int) =~= s@);
    Some(acc)
}

} // verus!
