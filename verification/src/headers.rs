//! HTTP headers and their canonical form.
//!
//! Signing hashes a canonical rendering of the headers: names are
//! lower-cased, values are trimmed of surrounding blanks, and the
//! headers are put in a stable order by name.  The canonical form used
//! to build the signed string must match the headers actually sent, so
//! canonicalization is the correctness-critical step of the signer.

use vstd::prelude::*;

verus! {

/// One HTTP header: a name and a value, both byte strings.
#[derive(Debug, Clone)]
pub struct HttpHeader {
    pub name: Vec<u8>,
    pub value: Vec<u8>,
}

/// The mathematical view of one header: the pair of its byte strings.
pub open spec fn header_view(h: HttpHeader) -> (Seq<u8>, Seq<u8>) {
    (h.name@, h.value@)
}

/// The mathematical view of a header list.
pub open spec fn header_views(hs: Seq<HttpHeader>) -> Seq<(Seq<u8>, Seq<u8>)> {
    hs.map_values(|h: HttpHeader| header_view(h))
}

/// ASCII lower-casing of one byte.
pub open spec fn lower_byte(b: u8) -> u8 {
    if 65 <= b && b <= 90 {
        (b + 32) as u8
    } else {
        b
    }
}

/// ASCII lower-casing of a byte string.
pub open spec fn lower_bytes(s: Seq<u8>) -> Seq<u8> {
    s.map_values(|b: u8| lower_byte(b))
}

/// A blank that trimming removes: space or horizontal tab.
pub open spec fn is_blank(b: u8) -> bool {
    b == 32 || b == 9
}

/// The string with its leading blanks removed.
pub open spec fn trim_front(s: Seq<u8>) -> Seq<u8>
    decreases s.len(),
{
    if s.len() > 0 && is_blank(s[0]) {
        trim_front(s.drop_first())
    } else {
        s
    }
}

/// The string with its trailing blanks removed.
pub open spec fn trim_back(s: Seq<u8>) -> Seq<u8>
    decreases s.len(),
{
    if s.len() > 0 && is_blank(s.last()) {
        trim_back(s.drop_last())
    } else {
        s
    }
}

/// The string with blanks removed from both ends.
pub open spec fn trim_bytes(s: Seq<u8>) -> Seq<u8> {
    trim_back(trim_front(s))
}

/// The canonical form of one header: lower-cased name, trimmed value.
pub open spec fn canon_header(h: (Seq<u8>, Seq<u8>)) -> (Seq<u8>, Seq<u8>) {
    (lower_bytes(h.0), trim_bytes(h.1))
}

/// Byte-wise lexicographic order on byte strings.
pub open spec fn le_bytes(a: Seq<u8>, b: Seq<u8>) -> bool
    decreases a.len(),
{
    if a.len() == 0 {
        true
    } else if b.len() == 0 {
        false
    } else if a[0] < b[0] {
        true
    } else if a[0] > b[0] {
        false
    } else {
        le_bytes(a.drop_first(), b.drop_first())
    }
}

/// Insertion of a header into a list sorted by name; an incoming
/// header stands before the ones already there whose name equals its
/// own, which makes the overall sort stable.
pub open spec fn insert_sorted(
    h: (Seq<u8>, Seq<u8>),
    hs: Seq<(Seq<u8>, Seq<u8>)>,
) -> Seq<(Seq<u8>, Seq<u8>)>
    decreases hs.len(),
{
    if hs.len() == 0 {
        seq![h]
    } else if le_bytes(h.0, hs[0].0) {
        seq![h] + hs
    } else {
        seq![hs[0]] + insert_sorted(h, hs.drop_first())
    }
}

/// Stable insertion sort of a header list by name.
pub open spec fn sort_headers(hs: Seq<(Seq<u8>, Seq<u8>)>) -> Seq<(Seq<u8>, Seq<u8>)>
    decreases hs.len(),
{
    if hs.len() == 0 {
        Seq::empty()
    } else {
        insert_sorted(hs[0], sort_headers(hs.drop_first()))
    }
}

/// The canonical form of a header list: each header canonical, the
/// whole in stable order by name.
pub open spec fn spec_canonicalize(hs: Seq<(Seq<u8>, Seq<u8>)>) -> Seq<(Seq<u8>, Seq<u8>)> {
    sort_headers(hs.map_values(|h: (Seq<u8>, Seq<u8>)| canon_header(h)))
}

/// Whether adjacent headers are in order by name.
pub open spec fn sorted_by_name(hs: Seq<(Seq<u8>, Seq<u8>)>) -> bool {
    forall|i: int| 0 <= i < hs.len() - 1 ==> le_bytes(#[trigger] hs[i].0, hs[i + 1].0)
}

/// Whether every header of a list is its own canonical form.
pub open spec fn all_canonical(hs: Seq<(Seq<u8>, Seq<u8>)>) -> bool {
    forall|i: int| 0 <= i < hs.len() ==> canon_header(#[trigger] hs[i]) == hs[i]
}

// ---------------------------------------------------------------------
// Properties of trimming and lower-casing.
// ---------------------------------------------------------------------

proof fn lemma_trim_front_no_leading(s: Seq<u8>)
    ensures
        trim_front(s).len() == 0 || !is_blank(trim_front(s)[0]),
    decreases s.len(),
{
    if s.len() > 0 && is_blank(s[0]) {
        lemma_trim_front_no_leading(s.drop_first());
    }
}

proof fn lemma_trim_back_no_trailing(s: Seq<u8>)
    ensures
        trim_back(s).len() == 0 || !is_blank(trim_back(s).last()),
    decreases s.len(),
{
    if s.len() > 0 && is_blank(s.last()) {
        lemma_trim_back_no_trailing(s.drop_last());
    }
}

proof fn lemma_trim_back_keeps_first(s: Seq<u8>)
    ensures
        trim_back(s).len() > 0 ==> s.len() > 0 && trim_back(s)[0] == s[0],
    decreases s.len(),
{
    if s.len() > 0 && is_blank(s.last()) {
        lemma_trim_back_keeps_first(s.drop_last());
    }
}

/// Trimming an already-trimmed string changes nothing.
pub proof fn lemma_trim_idempotent(s: Seq<u8>)
    ensures
        trim_bytes(trim_bytes(s)) == trim_bytes(s),
{
    let f = trim_front(s);
    let t = trim_back(f);
    lemma_trim_front_no_leading(s);
    lemma_trim_back_keeps_first(f);
    lemma_trim_back_no_trailing(f);
    assert(trim_front(t) == t);
    assert(trim_back(t) == t);
}

/// Lower-casing an already lower-cased string changes nothing.
pub proof fn lemma_lower_idempotent(s: Seq<u8>)
    ensures
        lower_bytes(lower_bytes(s)) == lower_bytes(s),
{
    assert(lower_bytes(lower_bytes(s)) =~= lower_bytes(s));
}

/// Canonicalizing an already-canonical header changes nothing.
pub proof fn lemma_canon_header_idempotent(h: (Seq<u8>, Seq<u8>))
    ensures
        canon_header(canon_header(h)) == canon_header(h),
{
    lemma_lower_idempotent(h.0);
    lemma_trim_idempotent(h.1);
}

// ---------------------------------------------------------------------
// Properties of the order and the sort.
// ---------------------------------------------------------------------

/// The lexicographic order is total.
pub proof fn lemma_le_bytes_total(a: Seq<u8>, b: Seq<u8>)
    ensures
        le_bytes(a, b) || le_bytes(b, a),
    decreases a.len(),
{
    if a.len() > 0 && b.len() > 0 && a[0] == b[0] {
        lemma_le_bytes_total(a.drop_first(), b.drop_first());
    }
}

proof fn lemma_insert_sorted_len(h: (Seq<u8>, Seq<u8>), hs: Seq<(Seq<u8>, Seq<u8>)>)
    ensures
        insert_sorted(h, hs).len() == hs.len() + 1,
    decreases hs.len(),
{
    if hs.len() > 0 && !le_bytes(h.0, hs[0].0) {
        lemma_insert_sorted_len(h, hs.drop_first());
    }
}

proof fn lemma_insert_sorted_first(h: (Seq<u8>, Seq<u8>), hs: Seq<(Seq<u8>, Seq<u8>)>)
    ensures
        insert_sorted(h, hs)[0] == h || (hs.len() > 0 && insert_sorted(h, hs)[0] == hs[0]),
{
    lemma_insert_sorted_len(h, hs);
}

proof fn lemma_insert_sorted_keeps_order(h: (Seq<u8>, Seq<u8>), hs: Seq<(Seq<u8>, Seq<u8>)>)
    requires
        sorted_by_name(hs),
    ensures
        sorted_by_name(insert_sorted(h, hs)),
    decreases hs.len(),
{
    lemma_insert_sorted_len(h, hs);
    if hs.len() == 0 {
    } else if le_bytes(h.0, hs[0].0) {
        let r = seq![h] + hs;
        assert forall|i: int| 0 <= i < r.len() - 1 implies le_bytes(#[trigger] r[i].0, r[i + 1].0) by {
            if i > 0 {
                assert(r[i] == hs[i - 1] && r[i + 1] == hs[i]);
            }
        }
    } else {
        let rest = hs.drop_first();
        assert(sorted_by_name(rest)) by {
            assert forall|i: int| 0 <= i < rest.len() - 1 implies le_bytes(
                #[trigger] rest[i].0,
                rest[i + 1].0,
            ) by {
                assert(rest[i] == hs[i + 1] && rest[i + 1] == hs[i + 2]);
            }
        }
        lemma_insert_sorted_keeps_order(h, rest);
        lemma_insert_sorted_len(h, rest);
        lemma_insert_sorted_first(h, rest);
        lemma_le_bytes_total(h.0, hs[0].0);
        let tail = insert_sorted(h, rest);
        let r = seq![hs[0]] + tail;
        assert forall|i: int| 0 <= i < r.len() - 1 implies le_bytes(#[trigger] r[i].0, r[i + 1].0) by {
            if i == 0 {
                assert(r[0] == hs[0] && r[1] == tail[0]);
                if tail[0] == h {
                } else {
                    assert(rest.len() > 0 && tail[0] == rest[0]);
                    assert(le_bytes(hs[0].0, hs[1].0));
                    assert(rest[0] == hs[1]);
                }
            } else {
                assert(r[i] == tail[i - 1] && r[i + 1] == tail[i]);
            }
        }
    }
}

/// The sort leaves its output in order by name.
pub proof fn lemma_sort_headers_sorted(hs: Seq<(Seq<u8>, Seq<u8>)>)
    ensures
        sorted_by_name(sort_headers(hs)),
    decreases hs.len(),
{
    if hs.len() > 0 {
        lemma_sort_headers_sorted(hs.drop_first());
        lemma_insert_sorted_keeps_order(hs[0], sort_headers(hs.drop_first()));
    }
}

proof fn lemma_insert_sorted_keeps_canonical(h: (Seq<u8>, Seq<u8>), hs: Seq<(Seq<u8>, Seq<u8>)>)
    requires
        all_canonical(hs),
        canon_header(h) == h,
    ensures
        all_canonical(insert_sorted(h, hs)),
    decreases hs.len(),
{
    lemma_insert_sorted_len(h, hs);
    if hs.len() == 0 {
    } else if le_bytes(h.0, hs[0].0) {
        let r = seq![h] + hs;
        assert forall|i: int| 0 <= i < r.len() implies canon_header(#[trigger] r[i]) == r[i] by {
            if i > 0 {
                assert(r[i] == hs[i - 1]);
            }
        }
    } else {
        let rest = hs.drop_first();
        assert(all_canonical(rest)) by {
            assert forall|i: int| 0 <= i < rest.len() implies canon_header(#[trigger] rest[i])
                == rest[i] by {
                assert(rest[i] == hs[i + 1]);
            }
        }
        lemma_insert_sorted_keeps_canonical(h, rest);
        lemma_insert_sorted_len(h, rest);
        let tail = insert_sorted(h, rest);
        let r = seq![hs[0]] + tail;
        assert forall|i: int| 0 <= i < r.len() implies canon_header(#[trigger] r[i]) == r[i] by {
            if i > 0 {
                assert(r[i] == tail[i - 1]);
            }
        }
    }
}

proof fn lemma_sort_headers_keeps_canonical(hs: Seq<(Seq<u8>, Seq<u8>)>)
    requires
        all_canonical(hs),
    ensures
        all_canonical(sort_headers(hs)),
    decreases hs.len(),
{
    if hs.len() > 0 {
        let rest = hs.drop_first();
        assert(all_canonical(rest)) by {
            assert forall|i: int| 0 <= i < rest.len() implies canon_header(#[trigger] rest[i])
                == rest[i] by {
                assert(rest[i] == hs[i + 1]);
            }
        }
        lemma_sort_headers_keeps_canonical(rest);
        lemma_insert_sorted_keeps_canonical(hs[0], sort_headers(rest));
    }
}

/// Sorting a list that is already in order leaves it unchanged.
pub proof fn lemma_sort_of_sorted(hs: Seq<(Seq<u8>, Seq<u8>)>)
    requires
        sorted_by_name(hs),
    ensures
        sort_headers(hs) == hs,
    decreases hs.len(),
{
    if hs.len() > 0 {
        let rest = hs.drop_first();
        assert(sorted_by_name(rest)) by {
            assert forall|i: int| 0 <= i < rest.len() - 1 implies le_bytes(
                #[trigger] rest[i].0,
                rest[i + 1].0,
            ) by {
                assert(rest[i] == hs[i + 1] && rest[i + 1] == hs[i + 2]);
            }
        }
        lemma_sort_of_sorted(rest);
        if rest.len() == 0 {
            assert(sort_headers(hs) =~= hs);
        } else {
            assert(le_bytes(hs[0].0, hs[1].0));
            assert(rest[0] == hs[1]);
            assert(sort_headers(hs) == seq![hs[0]] + rest);
            assert(seq![hs[0]] + rest =~= hs);
        }
    }
}

/// Canonicalization is idempotent: canonicalizing an already-canonical
/// header list returns it unchanged.
pub proof fn lemma_canonicalize_idempotent(hs: Seq<(Seq<u8>, Seq<u8>)>)
    ensures
        spec_canonicalize(spec_canonicalize(hs)) == spec_canonicalize(hs),
{
    let m = hs.map_values(|h: (Seq<u8>, Seq<u8>)| canon_header(h));
    let c = sort_headers(m);
    assert(all_canonical(m)) by {
        assert forall|i: int| 0 <= i < m.len() implies canon_header(#[trigger] m[i]) == m[i] by {
            lemma_canon_header_idempotent(hs[i]);
        }
    }
    lemma_sort_headers_keeps_canonical(m);
    lemma_sort_headers_sorted(m);
    assert(c.map_values(|h: (Seq<u8>, Seq<u8>)| canon_header(h)) =~= c);
    lemma_sort_of_sorted(c);
}

proof fn lemma_insert_sorted_all(
    p: spec_fn((Seq<u8>, Seq<u8>)) -> bool,
    h: (Seq<u8>, Seq<u8>),
    hs: Seq<(Seq<u8>, Seq<u8>)>,
)
    requires
        p(h),
        forall|i: int| 0 <= i < hs.len() ==> p(#[trigger] hs[i]),
    ensures
        forall|i: int|
            0 <= i < insert_sorted(h, hs).len() ==> p(#[trigger] insert_sorted(h, hs)[i]),
    decreases hs.len(),
{
    lemma_insert_sorted_len(h, hs);
    if hs.len() == 0 {
    } else if le_bytes(h.0, hs[0].0) {
        let r = seq![h] + hs;
        assert forall|i: int| 0 <= i < r.len() implies p(#[trigger] r[i]) by {
            if i > 0 {
                assert(r[i] == hs[i - 1]);
            }
        }
    } else {
        let rest = hs.drop_first();
        assert(forall|i: int| 0 <= i < rest.len() ==> p(#[trigger] rest[i])) by {
            assert forall|i: int| 0 <= i < rest.len() implies p(#[trigger] rest[i]) by {
                assert(rest[i] == hs[i + 1]);
            }
        }
        lemma_insert_sorted_all(p, h, rest);
        let tail = insert_sorted(h, rest);
        let r = seq![hs[0]] + tail;
        assert forall|i: int| 0 <= i < r.len() implies p(#[trigger] r[i]) by {
            if i > 0 {
                assert(r[i] == tail[i - 1]);
            }
        }
    }
}

proof fn lemma_sort_headers_all(p: spec_fn((Seq<u8>, Seq<u8>)) -> bool, hs: Seq<(Seq<u8>, Seq<u8>)>)
    requires
        forall|i: int| 0 <= i < hs.len() ==> p(#[trigger] hs[i]),
    ensures
        forall|i: int| 0 <= i < sort_headers(hs).len() ==> p(#[trigger] sort_headers(hs)[i]),
    decreases hs.len(),
{
    if hs.len() > 0 {
        let rest = hs.drop_first();
        assert(forall|i: int| 0 <= i < rest.len() ==> p(#[trigger] rest[i])) by {
            assert forall|i: int| 0 <= i < rest.len() implies p(#[trigger] rest[i]) by {
                assert(rest[i] == hs[i + 1]);
            }
        }
        lemma_sort_headers_all(p, rest);
        lemma_insert_sorted_all(p, hs[0], sort_headers(rest));
    }
}

/// Every header of the canonical form is the canonical form of some
/// property: if `p` holds of the canonical form of each input header,
/// it holds of each header of the canonicalized list.
pub proof fn lemma_canonicalize_all(
    p: spec_fn((Seq<u8>, Seq<u8>)) -> bool,
    hs: Seq<(Seq<u8>, Seq<u8>)>,
)
    requires
        forall|i: int| 0 <= i < hs.len() ==> p(canon_header(#[trigger] hs[i])),
    ensures
        forall|i: int|
            0 <= i < spec_canonicalize(hs).len() ==> p(#[trigger] spec_canonicalize(hs)[i]),
{
    let m = hs.map_values(|h: (Seq<u8>, Seq<u8>)| canon_header(h));
    assert(forall|i: int| 0 <= i < m.len() ==> p(#[trigger] m[i]));
    lemma_sort_headers_all(p, m);
}

// ---------------------------------------------------------------------
// Executable canonicalization.
// ---------------------------------------------------------------------

/// Lower-cases a byte string.
pub fn lower_bytes_vec(s: &Vec<u8>) -> (r: Vec<u8>)
    ensures
        r@ == lower_bytes(s@),
{
    let mut r: Vec<u8> = Vec::new();
    let n = s.len();
    for i in 0..n
        invariant
            n == s@.len(),
            r@.len() == i,
            forall|j: int| 0 <= j < i ==> r@[j] == lower_byte(s@[j]),
    {
        let b = s[i];
        if 65 <= b && b <= 90 {
            r.push(b + 32);
        } else {
            r.push(b);
        }
    }
    assert(r@ =~= lower_bytes(s@));
    r
}

/// Removes leading and trailing blanks from a byte string.
pub fn trim_bytes_vec(s: &Vec<u8>) -> (r: Vec<u8>)
    ensures
        r@ == trim_bytes(s@),
{
    let n = s.len();
    let mut i: usize = 0;
    assert(s@.skip(0) == s@);
    while i < n && (s[i] == 32 || s[i] == 9)
        invariant
            n == s@.len(),
            i <= n,
            trim_front(s@) == trim_front(s@.skip(i as int)),
        decreases n - i,
    {
        assert(s@.skip(i as int)[0] == s@[i as int]);
        assert(s@.skip(i as int).drop_first() =~= s@.skip(i + 1));
        i = i + 1;
    }
    let ghost t = s@.skip(i as int);
    assert(trim_front(s@) == t);
    let mut j: usize = n;
    assert(t.take(n - i) =~= t);
    while j > i && (s[j - 1] == 32 || s[j - 1] == 9)
        invariant
            n == s@.len(),
            i <= j <= n,
            t == s@.skip(i as int),
            trim_back(t) == trim_back(t.take(j - i)),
        decreases j,
    {
        assert(t.take(j - i).last() == s@[j - 1]);
        assert(t.take(j - i).drop_last() =~= t.take(j - 1 - i));
        j = j - 1;
    }
    assert(trim_back(t) == t.take(j - i)) by {
        if j == i {
            assert(t.take(0) =~= Seq::<u8>::empty());
        } else {
            assert(t.take(j - i).last() == s@[j - 1]);
        }
    }
    let mut r: Vec<u8> = Vec::new();
    let mut k: usize = i;
    while k < j
        invariant
            i <= k <= j <= n,
            n == s@.len(),
            r@ =~= s@.subrange(i as int, k as int),
        decreases j - k,
    {
        r.push(s[k]);
        k = k + 1;
    }
    assert(r@ =~= t.take(j - i));
    r
}

/// Whether `a` comes no later than `b` in byte-wise lexicographic order.
pub fn le_bytes_vec(a: &Vec<u8>, b: &Vec<u8>) -> (r: bool)
    ensures
        r == le_bytes(a@, b@),
{
    let mut i: usize = 0;
    assert(a@.skip(0) == a@);
    assert(b@.skip(0) == b@);
    while i < a.len() && i < b.len() && a[i] == b[i]
        invariant
            i <= a@.len(),
            i <= b@.len(),
            le_bytes(a@, b@) == le_bytes(a@.skip(i as int), b@.skip(i as int)),
        decreases a@.len() - i,
    {
        assert(a@.skip(i as int)[0] == a@[i as int]);
        assert(b@.skip(i as int)[0] == b@[i as int]);
        assert(a@.skip(i as int).drop_first() =~= a@.skip(i + 1));
        assert(b@.skip(i as int).drop_first() =~= b@.skip(i + 1));
        i = i + 1;
    }
    if i == a.len() {
        assert(a@.skip(i as int) =~= Seq::<u8>::empty());
        true
    } else if i == b.len() {
        assert(b@.skip(i as int) =~= Seq::<u8>::empty());
        assert(a@.skip(i as int).len() > 0);
        false
    } else {
        assert(a@.skip(i as int)[0] == a@[i as int]);
        assert(b@.skip(i as int)[0] == b@[i as int]);
        a[i] < b[i]
    }
}

/// Inserts a header into a list sorted by name, before the headers of
/// equal name already there.
fn insert_by_name(h: HttpHeader, hs: Vec<HttpHeader>) -> (r: Vec<HttpHeader>)
    ensures
        header_views(r@) == insert_sorted(header_view(h), header_views(hs@)),
    decreases hs@.len(),
{
    if hs.len() == 0 {
        let mut r = hs;
        r.push(h);
        assert(header_views(r@) =~= insert_sorted(header_view(h), header_views(hs@)));
        r
    } else if le_bytes_vec(&h.name, &hs[0].name) {
        assert(header_views(hs@)[0] == header_view(hs@[0]));
        let ghost old_hs = hs@;
        let mut r = hs;
        r.insert(0, h);
        assert(header_views(r@) =~= seq![header_view(h)] + header_views(old_hs));
        r
    } else {
        assert(header_views(hs@)[0] == header_view(hs@[0]));
        let ghost old_hs = hs@;
        let mut hs = hs;
        let first = hs.remove(0);
        assert(header_views(hs@) =~= header_views(old_hs).drop_first());
        let mut r = insert_by_name(h, hs);
        let ghost tail = r@;
        r.insert(0, first);
        assert(header_views(r@) =~= seq![header_view(first)] + header_views(tail));
        assert(header_views(r@) =~= insert_sorted(header_view(h), header_views(old_hs)));
        r
    }
}

/// Sorts a header list by name, stably.
fn sort_by_name(hs: Vec<HttpHeader>) -> (r: Vec<HttpHeader>)
    ensures
        header_views(r@) == sort_headers(header_views(hs@)),
    decreases hs@.len(),
{
    if hs.len() == 0 {
        assert(header_views(hs@) =~= Seq::<(Seq<u8>, Seq<u8>)>::empty());
        assert(sort_headers(header_views(hs@)) =~= header_views(hs@));
        hs
    } else {
        let ghost old_hs = hs@;
        let mut hs = hs;
        let first = hs.remove(0);
        assert(header_views(hs@) =~= header_views(old_hs).drop_first());
        assert(header_view(first) == header_views(old_hs)[0]);
        let sorted_rest = sort_by_name(hs);
        insert_by_name(first, sorted_rest)
    }
}

/// Puts a header list into canonical form: each name lower-cased, each
/// value trimmed, the whole in stable order by name.
pub fn canonicalize_headers(hs: Vec<HttpHeader>) -> (r: Vec<HttpHeader>)
    ensures
        header_views(r@) == spec_canonicalize(header_views(hs@)),
{
    let ghost orig = hs@;
    let mut rest = hs;
    let mut canon: Vec<HttpHeader> = Vec::new();
    while rest.len() > 0
        invariant
            header_views(orig).map_values(|h: (Seq<u8>, Seq<u8>)| canon_header(h)) =~= header_views(
                canon@,
            ) + header_views(rest@).map_values(|h: (Seq<u8>, Seq<u8>)| canon_header(h)),
        decreases rest@.len(),
    {
        let ghost before_canon = canon@;
        let ghost before_rest = rest@;
        let h = rest.remove(0);
        assert(header_views(rest@) =~= header_views(before_rest).drop_first());
        assert(header_view(h) == header_views(before_rest)[0]);
        let name = lower_bytes_vec(&h.name);
        let value = trim_bytes_vec(&h.value);
        canon.push(HttpHeader { name, value });
        assert(header_views(canon@) =~= header_views(before_canon) + seq![
            canon_header(header_view(h)),
        ]);
        assert(header_views(orig).map_values(|h: (Seq<u8>, Seq<u8>)| canon_header(h))
            =~= header_views(canon@) + header_views(rest@).map_values(
            |h: (Seq<u8>, Seq<u8>)| canon_header(h),
        ));
    }
    assert(header_views(rest@).map_values(|h: (Seq<u8>, Seq<u8>)| canon_header(h)) =~= Seq::<
        (Seq<u8>, Seq<u8>),
    >::empty());
    assert(header_views(canon@) =~= header_views(orig).map_values(
        |h: (Seq<u8>, Seq<u8>)| canon_header(h),
    ));
    sort_by_name(canon)
}

} // verus!
