//! Character-level helpers on which the parsers of this crate are built.
//!
//! Contracts are stated over `Seq<char>`, the view of `str` and `String`.
//! Searching, trimming and splitting are verified here; only the Unicode
//! tables of the standard library (white space, letters and digits, lower
//! case) are taken on trust, each under a name of its own, and the
//! appending of a character to a `String`. Parsers that look for words work
//! on marked text, in which every character carries the table's answer, so
//! that what they do is stated without the tables.

use vstd::prelude::*;
use vstd::string::*;
use vstd::utf8::*;

verus! {

// ---------------------------------------------------------------------------
// Names for what the standard library's Unicode tables answer
// ---------------------------------------------------------------------------

/// Whether `c` is white space in the sense of `char::is_whitespace`.
pub uninterp spec fn unicode_whitespace(c: char) -> bool;

/// Whether `c` is a letter or a digit in the sense of `char::is_alphanumeric`.
pub uninterp spec fn unicode_alphanumeric(c: char) -> bool;

/// The lower-case form of a text, as `str::to_lowercase` produces it.
pub uninterp spec fn unicode_lowercase(s: Seq<char>) -> Seq<char>;

/// Calls `char::is_whitespace`. The contract only names the answer, which
/// depends on the character alone.
#[verifier::external_body]
pub(crate) fn char_is_whitespace(c: char) -> (r: bool)
    ensures
        r == unicode_whitespace(c),
{
    c.is_whitespace()
}

/// Calls `char::is_alphanumeric`. The contract only names the answer, which
/// depends on the character alone.
#[verifier::external_body]
pub(crate) fn char_is_alphanumeric(c: char) -> (r: bool)
    ensures
        r == unicode_alphanumeric(c),
{
    c.is_alphanumeric()
}

/// Calls `str::to_lowercase`. The contract only names the result, which
/// depends on the text alone.
#[verifier::external_body]
pub(crate) fn str_to_lowercase(s: &str) -> (r: String)
    ensures
        r@ == unicode_lowercase(s@),
{
    s.to_lowercase()
}

/// Calls `String::push`: the character is appended.
#[verifier::external_body]
pub(crate) fn string_push(s: &mut String, c: char)
    ensures
        final(s)@ == old(s)@.push(c),
{
    s.push(c)
}

// ---------------------------------------------------------------------------
// Conversions and comparisons
// ---------------------------------------------------------------------------

/// The text that holds the characters of `v`.
pub fn string_from_chars(v: &Vec<char>) -> (r: String)
    ensures
        r@ == v@,
{
    let mut r = String::new();
    let mut i: usize = 0;
    while i < v.len()
        invariant
            i <= v.len(),
            r@ == v@.take(i as int),
        decreases v.len() - i,
    {
        string_push(&mut r, v[i]);
        assert(v@.take(i + 1) =~= v@.take(i as int).push(v@[i as int]));
        i += 1;
    }
    assert(v@.take(v.len() as int) =~= v@);
    r
}

/// Collects the characters of `s` into a vector.
pub fn to_chars(s: &str) -> (v: Vec<char>)
    ensures
        v@ == s@,
{
    let mut v: Vec<char> = Vec::new();
    for c in it: s.chars()
        invariant
            v@ == it.seq().take(it.index() as int),
            it.seq() == s@,
    {
        v.push(c);
    }
    v
}

/// Two texts have the same UTF-8 bytes exactly when they are the same text.
pub proof fn lemma_same_bytes_same_text(a: Seq<char>, b: Seq<char>)
    ensures
        (encode_utf8(a) == encode_utf8(b)) <==> (a == b),
{
    encode_utf8_decode_utf8(a);
    encode_utf8_decode_utf8(b);
}

/// Equality of two string slices.
pub fn str_eq(a: &str, b: &str) -> (r: bool)
    ensures
        r == (a@ == b@),
{
    let x = a.as_bytes();
    let y = b.as_bytes();
    proof {
        lemma_same_bytes_same_text(a@, b@);
    }
    assert((x@ == y@) <==> (a@ == b@));
    if x.len() != y.len() {
        return false;
    }
    let mut i: usize = 0;
    while i < x.len()
        invariant
            i <= x.len(),
            x.len() == y.len(),
            forall|j: int| 0 <= j < i ==> x@[j] == y@[j],
            (x@ == y@) <==> (a@ == b@),
        decreases x.len() - i,
    {
        if x[i] != y[i] {
            return false;
        }
        i += 1;
    }
    assert(x@ =~= y@);
    true
}

/// Length of the longest common prefix of two byte strings.
pub open spec fn common_prefix_len(a: Seq<u8>, b: Seq<u8>) -> nat
    decreases a.len(),
{
    if a.len() > 0 && b.len() > 0 && a[0] == b[0] {
        1 + common_prefix_len(a.drop_first(), b.drop_first())
    } else {
        0
    }
}

/// `a` sorts strictly before `b` byte by byte: at the first place where they
/// part, `a` has ended or holds the smaller byte.
pub open spec fn bytes_before(a: Seq<u8>, b: Seq<u8>) -> bool {
    let k = common_prefix_len(a, b) as int;
    k < b.len() && (k == a.len() || a[k] < b[k])
}

/// The order in which texts sort: by their UTF-8 bytes, as string comparison
/// does for `str` and for text columns with binary collation.
pub open spec fn text_before(a: Seq<char>, b: Seq<char>) -> bool {
    bytes_before(encode_utf8(a), encode_utf8(b))
}

/// `common_prefix_len` is the one place `k` up to which the two agree and at
/// which they part.
pub proof fn lemma_common_prefix_len(a: Seq<u8>, b: Seq<u8>, k: int)
    requires
        0 <= k <= a.len(),
        k <= b.len(),
        forall|i: int| 0 <= i < k ==> a[i] == b[i],
        k == a.len() || k == b.len() || a[k] != b[k],
    ensures
        common_prefix_len(a, b) == k,
    decreases a.len(),
{
    if k > 0 {
        let a1 = a.drop_first();
        let b1 = b.drop_first();
        assert forall|i: int| 0 <= i < k - 1 implies a1[i] == b1[i] by {
            assert(a[i + 1] == b[i + 1]);
        }
        lemma_common_prefix_len(a1, b1, k - 1);
    }
}

/// What `common_prefix_len` satisfies.
pub proof fn lemma_common_prefix_props(a: Seq<u8>, b: Seq<u8>)
    ensures
        common_prefix_len(a, b) <= a.len(),
        common_prefix_len(a, b) <= b.len(),
        forall|i: int| 0 <= i < common_prefix_len(a, b) ==> a[i] == b[i],
        common_prefix_len(a, b) == a.len() || common_prefix_len(a, b) == b.len() || a[common_prefix_len(
            a,
            b,
        ) as int] != b[common_prefix_len(a, b) as int],
    decreases a.len(),
{
    if a.len() > 0 && b.len() > 0 && a[0] == b[0] {
        let a1 = a.drop_first();
        let b1 = b.drop_first();
        lemma_common_prefix_props(a1, b1);
        let k = common_prefix_len(a1, b1) as int;
        assert forall|i: int| 0 <= i < k + 1 implies a[i] == b[i] by {
            if i > 0 {
                assert(a1[i - 1] == b1[i - 1]);
            }
        }
        if k != a1.len() && k != b1.len() {
            assert(a1[k] == a[k + 1]);
            assert(b1[k] == b[k + 1]);
        }
    }
}

/// Whether `a` sorts strictly before `b` (byte order).
pub fn str_before(a: &str, b: &str) -> (r: bool)
    ensures
        r == text_before(a@, b@),
{
    let x = a.as_bytes();
    let y = b.as_bytes();
    let mut i: usize = 0;
    while i < x.len() && i < y.len() && x[i] == y[i]
        invariant
            i <= x.len(),
            i <= y.len(),
            forall|j: int| 0 <= j < i ==> x@[j] == y@[j],
        decreases x.len() - i,
    {
        i += 1;
    }
    proof {
        lemma_common_prefix_len(x@, y@, i as int);
    }
    i < y.len() && (i == x.len() || x[i] < y[i])
}

// ---------------------------------------------------------------------------
// Searching
// ---------------------------------------------------------------------------

/// `pat` stands in `s` at position `i`.
pub open spec fn occurs_at(s: Seq<char>, pat: Seq<char>, i: int) -> bool {
    0 <= i && i + pat.len() <= s.len() && s.subrange(i, i + pat.len()) == pat
}

/// `pat` stands somewhere in `s`.
pub open spec fn contains_text(s: Seq<char>, pat: Seq<char>) -> bool {
    exists|i: int| occurs_at(s, pat, i)
}

/// `i` is the first position at which `pat` stands in `s`.
pub open spec fn first_occurrence(s: Seq<char>, pat: Seq<char>, i: int) -> bool {
    occurs_at(s, pat, i) && forall|j: int| 0 <= j < i ==> !occurs_at(s, pat, j)
}

/// The first position of `pat` in `s`, if there is one.
pub open spec fn find_text(s: Seq<char>, pat: Seq<char>) -> Option<int> {
    if contains_text(s, pat) {
        Some(choose|i: int| first_occurrence(s, pat, i))
    } else {
        None
    }
}

/// `s` begins with `p`.
pub open spec fn starts_with(s: Seq<char>, p: Seq<char>) -> bool {
    occurs_at(s, p, 0)
}

/// A first occurrence is the one that `find_text` names.
pub proof fn lemma_find_text_is(s: Seq<char>, pat: Seq<char>, i: int)
    requires
        first_occurrence(s, pat, i),
    ensures
        find_text(s, pat) == Some(i),
{
    let c = choose|k: int| first_occurrence(s, pat, k);
    assert(first_occurrence(s, pat, c));
    if c < i {
        assert(!occurs_at(s, pat, c));
    }
    if i < c {
        assert(!occurs_at(s, pat, i));
    }
}

/// Without any occurrence `find_text` is `None`.
pub proof fn lemma_find_text_none(s: Seq<char>, pat: Seq<char>)
    requires
        forall|j: int| !occurs_at(s, pat, j),
    ensures
        find_text(s, pat) is None,
{
}

/// Whether `pat` stands in `s` at position `i`.
pub fn matches_at(s: &Vec<char>, pat: &Vec<char>, i: usize) -> (r: bool)
    ensures
        r == occurs_at(s@, pat@, i as int),
{
    if pat.len() > s.len() || i > s.len() - pat.len() {
        return false;
    }
    let mut k: usize = 0;
    while k < pat.len()
        invariant
            k <= pat.len(),
            i + pat.len() <= s.len(),
            forall|j: int| 0 <= j < k ==> s@[i + j] == pat@[j],
        decreases pat.len() - k,
    {
        if s[i + k] != pat[k] {
            assert(s@.subrange(i as int, i + pat.len())[k as int] == s@[i + k]);
            return false;
        }
        k += 1;
    }
    assert(s@.subrange(i as int, i + pat.len()) =~= pat@);
    true
}

/// The first position at or after `from` where `pat` stands in `s`.
pub fn find_from(s: &Vec<char>, pat: &Vec<char>, from: usize) -> (r: Option<usize>)
    ensures
        match r {
            Some(i) => from <= i && occurs_at(s@, pat@, i as int) && forall|j: int|
                from <= j < i ==> !occurs_at(s@, pat@, j),
            None => forall|j: int| from <= j ==> !occurs_at(s@, pat@, j),
        },
{
    let mut i: usize = from;
    while i < s.len()
        invariant
            from <= i,
            forall|j: int| from <= j < i ==> !occurs_at(s@, pat@, j),
        decreases s.len() - i,
    {
        if matches_at(s, pat, i) {
            return Some(i);
        }
        i += 1;
    }
    if i == s.len() && matches_at(s, pat, i) {
        return Some(i);
    }
    None
}

/// The first position where `pat` stands in `s`.
pub fn find(s: &Vec<char>, pat: &Vec<char>) -> (r: Option<usize>)
    ensures
        match r {
            Some(i) => find_text(s@, pat@) == Some(i as int) && i + pat.len() <= s.len(),
            None => find_text(s@, pat@) is None,
        },
{
    let r = find_from(s, pat, 0);
    proof {
        match r {
            Some(i) => {
                lemma_find_text_is(s@, pat@, i as int);
            },
            None => {
                lemma_find_text_none(s@, pat@);
            },
        }
    }
    r
}

/// Whether `pat` stands somewhere in `s`.
pub fn contains(s: &Vec<char>, pat: &Vec<char>) -> (r: bool)
    ensures
        r == contains_text(s@, pat@),
{
    find_from(s, pat, 0).is_some()
}

/// Whether the text `s` holds the text `pat`.
pub fn str_contains(s: &str, pat: &str) -> (r: bool)
    ensures
        r == contains_text(s@, pat@),
{
    let sv = to_chars(s);
    let pv = to_chars(pat);
    contains(&sv, &pv)
}

/// A copy of `s[from..to]`.
pub fn slice_chars(s: &Vec<char>, from: usize, to: usize) -> (r: Vec<char>)
    requires
        from <= to <= s.len(),
    ensures
        r@ == s@.subrange(from as int, to as int),
{
    let mut r: Vec<char> = Vec::new();
    let mut i: usize = from;
    while i < to
        invariant
            from <= i <= to,
            to <= s.len(),
            r@ == s@.subrange(from as int, i as int),
        decreases to - i,
    {
        r.push(s[i]);
        assert(s@.subrange(from as int, i + 1) =~= s@.subrange(from as int, i as int).push(s@[i as int]));
        i += 1;
    }
    r
}

// ---------------------------------------------------------------------------
// Trimming
// ---------------------------------------------------------------------------

/// The number of characters at the front of `s` that all satisfy `p`.
pub open spec fn leading_run(s: Seq<char>, p: spec_fn(char) -> bool) -> nat
    decreases s.len(),
{
    if s.len() > 0 && p(s[0]) {
        1 + leading_run(s.drop_first(), p)
    } else {
        0
    }
}

/// The number of characters at the back of `s` that all satisfy `p`.
pub open spec fn trailing_run(s: Seq<char>, p: spec_fn(char) -> bool) -> nat
    decreases s.len(),
{
    if s.len() > 0 && p(s.last()) {
        1 + trailing_run(s.drop_last(), p)
    } else {
        0
    }
}

/// `k` leading characters satisfy `p` and the next one, if any, does not.
pub proof fn lemma_leading_run(s: Seq<char>, p: spec_fn(char) -> bool, k: int)
    requires
        0 <= k <= s.len(),
        forall|i: int| 0 <= i < k ==> p(s[i]),
        k == s.len() || !p(s[k]),
    ensures
        leading_run(s, p) == k,
    decreases s.len(),
{
    if k > 0 {
        let t = s.drop_first();
        assert forall|i: int| 0 <= i < k - 1 implies p(t[i]) by {
            assert(t[i] == s[i + 1]);
        }
        if k - 1 < t.len() {
            assert(t[k - 1] == s[k]);
        }
        lemma_leading_run(t, p, k - 1);
    }
}

/// `k` trailing characters satisfy `p` and the one before them, if any, does not.
pub proof fn lemma_trailing_run(s: Seq<char>, p: spec_fn(char) -> bool, k: int)
    requires
        0 <= k <= s.len(),
        forall|i: int| s.len() - k <= i < s.len() ==> p(s[i]),
        k == s.len() || !p(s[s.len() - k - 1]),
    ensures
        trailing_run(s, p) == k,
    decreases s.len(),
{
    if k > 0 {
        let t = s.drop_last();
        assert forall|i: int| t.len() - (k - 1) <= i < t.len() implies p(t[i]) by {
            assert(t[i] == s[i]);
        }
        if k - 1 < t.len() {
            assert(t[t.len() - (k - 1) - 1] == s[s.len() - k - 1]);
        }
        lemma_trailing_run(t, p, k - 1);
    }
}

/// What `trailing_run` satisfies.
pub proof fn lemma_trailing_run_props(s: Seq<char>, p: spec_fn(char) -> bool)
    ensures
        trailing_run(s, p) <= s.len(),
        forall|i: int| s.len() - trailing_run(s, p) <= i < s.len() ==> p(s[i]),
        trailing_run(s, p) == s.len() || !p(s[s.len() - trailing_run(s, p) - 1]),
    decreases s.len(),
{
    if s.len() > 0 && p(s.last()) {
        let t = s.drop_last();
        lemma_trailing_run_props(t, p);
        let k = trailing_run(t, p) as int;
        assert forall|i: int| s.len() - (k + 1) <= i < s.len() implies p(s[i]) by {
            if i < t.len() {
                assert(t[i] == s[i]);
            }
        }
        if k < t.len() {
            assert(t[t.len() - k - 1] == s[s.len() - (k + 1) - 1]);
        }
    }
}

/// The test for white space.
pub open spec fn is_space() -> spec_fn(char) -> bool {
    |c: char| unicode_whitespace(c)
}

/// The test for being the character `c`.
pub open spec fn is_char(c: char) -> spec_fn(char) -> bool {
    |x: char| x == c
}

/// `s` without its leading white space.
pub open spec fn trim_start(s: Seq<char>) -> Seq<char> {
    s.skip(leading_run(s, is_space()) as int)
}

/// `s` without its trailing white space.
pub open spec fn trim_end(s: Seq<char>) -> Seq<char> {
    s.take(s.len() - trailing_run(s, is_space()))
}

/// `s` without leading and trailing white space.
pub open spec fn trim(s: Seq<char>) -> Seq<char> {
    trim_end(trim_start(s))
}

/// `s` without the run of `c` at its end.
pub open spec fn trim_end_char(s: Seq<char>, c: char) -> Seq<char> {
    s.take(s.len() - trailing_run(s, is_char(c)))
}

/// Number of white-space characters at the front of `s[from..]`.
fn whitespace_run_from(s: &Vec<char>, from: usize) -> (r: usize)
    requires
        from <= s.len(),
    ensures
        from + r <= s.len(),
        r == leading_run(s@.skip(from as int), is_space()),
{
    let mut i: usize = from;
    while i < s.len() && char_is_whitespace(s[i])
        invariant
            from <= i <= s.len(),
            forall|j: int| from <= j < i ==> unicode_whitespace(s@[j]),
        decreases s.len() - i,
    {
        i += 1;
    }
    proof {
        let t = s@.skip(from as int);
        lemma_leading_run(t, is_space(), i - from);
    }
    i - from
}

/// Number of white-space characters at the end of `s[..to]`.
fn whitespace_run_back(s: &Vec<char>, to: usize) -> (r: usize)
    requires
        to <= s.len(),
    ensures
        r <= to,
        r == trailing_run(s@.take(to as int), is_space()),
{
    let mut i: usize = to;
    while i > 0 && char_is_whitespace(s[i - 1])
        invariant
            i <= to <= s.len(),
            forall|j: int| i <= j < to ==> unicode_whitespace(s@[j]),
        decreases i,
    {
        i -= 1;
    }
    proof {
        let t = s@.take(to as int);
        lemma_trailing_run(t, is_space(), to - i);
    }
    to - i
}

/// Number of characters equal to `c` at the end of `s`.
fn char_run_back(s: &Vec<char>, c: char) -> (r: usize)
    ensures
        r <= s.len(),
        r == trailing_run(s@, is_char(c)),
{
    let mut i: usize = s.len();
    while i > 0 && s[i - 1] == c
        invariant
            i <= s.len(),
            forall|j: int| i <= j < s.len() ==> s@[j] == c,
        decreases i,
    {
        i -= 1;
    }
    proof {
        lemma_trailing_run(s@, is_char(c), s.len() - i);
    }
    s.len() - i
}

/// `s` without leading and trailing white space.
pub fn trim_chars(s: &Vec<char>) -> (r: Vec<char>)
    ensures
        r@ == trim(s@),
{
    let lead = whitespace_run_from(s, 0);
    assert(s@.skip(0) =~= s@);
    let rest = slice_chars(s, lead, s.len());
    assert(rest@ =~= trim_start(s@));
    let trail = whitespace_run_back(&rest, rest.len());
    assert(rest@.take(rest.len() as int) =~= rest@);
    let r = slice_chars(&rest, 0, rest.len() - trail);
    assert(r@ =~= trim(s@));
    r
}

/// `s` without the run of `c` at its end.
pub fn trim_end_char_chars(s: &Vec<char>, c: char) -> (r: Vec<char>)
    ensures
        r@ == trim_end_char(s@, c),
{
    let trail = char_run_back(s, c);
    let r = slice_chars(s, 0, s.len() - trail);
    assert(r@ =~= trim_end_char(s@, c));
    r
}

/// `s` after `p` has been taken from its front as often as it stands there.
pub open spec fn strip_prefix_repeated(s: Seq<char>, p: Seq<char>) -> Seq<char>
    decreases s.len(),
{
    if p.len() > 0 && starts_with(s, p) {
        strip_prefix_repeated(s.skip(p.len() as int), p)
    } else {
        s
    }
}

/// `s` after `p` has been taken from its front as often as it stands there.
pub fn strip_prefix_repeated_chars(s: &Vec<char>, p: &Vec<char>) -> (r: Vec<char>)
    ensures
        r@ == strip_prefix_repeated(s@, p@),
{
    let mut from: usize = 0;
    if p.len() > 0 {
        assert(s@.skip(0) =~= s@);
        while matches_at(s, p, from)
            invariant
                from <= s.len(),
                p.len() > 0,
                strip_prefix_repeated(s@, p@) == strip_prefix_repeated(s@.skip(from as int), p@),
            decreases s.len() - from,
        {
            proof {
                let t = s@.skip(from as int);
                assert(t.subrange(0, p.len() as int) =~= s@.subrange(from as int, from + p.len()));
                assert(t.skip(p.len() as int) =~= s@.skip(from + p.len()));
            }
            from = from + p.len();
        }
        proof {
            let t = s@.skip(from as int);
            if from + p.len() <= s.len() {
                assert(t.subrange(0, p.len() as int) =~= s@.subrange(from as int, from + p.len()));
            }
        }
    } else {
        assert(s@.skip(0) =~= s@);
    }
    let r = slice_chars(s, from, s.len());
    assert(r@ =~= s@.skip(from as int));
    r
}

// ---------------------------------------------------------------------------
// Marked text: each character with the word whether it is white space
// ---------------------------------------------------------------------------

/// Each character of `s` with the word whether it is white space.
pub open spec fn marked_space(s: Seq<char>) -> Seq<(char, bool)> {
    Seq::new(s.len(), |i: int| (s[i], unicode_whitespace(s[i])))
}

/// The characters of marked text.
pub open spec fn letters(m: Seq<(char, bool)>) -> Seq<char> {
    Seq::new(m.len(), |i: int| m[i].0)
}

/// The number of characters at the front of `m` whose mark is `mark`.
pub open spec fn marked_run(m: Seq<(char, bool)>, mark: bool) -> nat
    decreases m.len(),
{
    if m.len() > 0 && m[0].1 == mark {
        1 + marked_run(m.drop_first(), mark)
    } else {
        0
    }
}

/// The first word of marked text: after the white space at its front, the
/// characters up to the next white space.
pub open spec fn first_word_marked(m: Seq<(char, bool)>) -> Seq<char> {
    let t = m.skip(marked_run(m, true) as int);
    letters(t.take(marked_run(t, false) as int))
}

/// `k` leading characters carry the mark and the next one, if any, does
/// not.
pub proof fn lemma_marked_run(m: Seq<(char, bool)>, mark: bool, k: int)
    requires
        0 <= k <= m.len(),
        forall|i: int| 0 <= i < k ==> m[i].1 == mark,
        k == m.len() || m[k].1 != mark,
    ensures
        marked_run(m, mark) == k,
    decreases m.len(),
{
    if k > 0 {
        let t = m.drop_first();
        assert forall|i: int| 0 <= i < k - 1 implies t[i].1 == mark by {
            assert(t[i] == m[i + 1]);
        }
        if k - 1 < t.len() {
            assert(t[k - 1] == m[k]);
        }
        lemma_marked_run(t, mark, k - 1);
    }
}

/// The number of characters at the back of `m` whose mark is `mark`.
pub open spec fn marked_run_back(m: Seq<(char, bool)>, mark: bool) -> nat
    decreases m.len(),
{
    if m.len() > 0 && m.last().1 == mark {
        1 + marked_run_back(m.drop_last(), mark)
    } else {
        0
    }
}

/// Marked text without the white space at its front and at its back.
pub open spec fn trim_marked(m: Seq<(char, bool)>) -> Seq<(char, bool)> {
    let rest = m.skip(marked_run(m, true) as int);
    rest.take(rest.len() - marked_run_back(rest, true))
}

/// `k` trailing characters carry the mark and the one before them, if
/// any, does not.
pub proof fn lemma_marked_run_back(m: Seq<(char, bool)>, mark: bool, k: int)
    requires
        0 <= k <= m.len(),
        forall|i: int| m.len() - k <= i < m.len() ==> m[i].1 == mark,
        k == m.len() || m[m.len() - k - 1].1 != mark,
    ensures
        marked_run_back(m, mark) == k,
    decreases m.len(),
{
    if k > 0 {
        let t = m.drop_last();
        assert forall|i: int| t.len() - (k - 1) <= i < t.len() implies t[i].1 == mark by {
            assert(t[i] == m[i]);
        }
        if k - 1 < t.len() {
            assert(t[t.len() - (k - 1) - 1] == m[m.len() - k - 1]);
        }
        lemma_marked_run_back(t, mark, k - 1);
    }
}

/// Marks each character of `s` as white space or not.
pub fn mark_spaces(s: &Vec<char>) -> (r: Vec<(char, bool)>)
    ensures
        r@ == marked_space(s@),
{
    let mut r: Vec<(char, bool)> = Vec::new();
    let mut i: usize = 0;
    while i < s.len()
        invariant
            i <= s.len(),
            r@.len() == i,
            forall|j: int| 0 <= j < i ==> r@[j] == (s@[j], unicode_whitespace(s@[j])),
        decreases s.len() - i,
    {
        let c = s[i];
        r.push((c, char_is_whitespace(c)));
        i += 1;
    }
    assert(r@ =~= marked_space(s@));
    r
}

/// The characters of marked text.
pub fn letters_of(m: &Vec<(char, bool)>) -> (r: Vec<char>)
    ensures
        r@ == letters(m@),
{
    let mut r: Vec<char> = Vec::new();
    let mut i: usize = 0;
    while i < m.len()
        invariant
            i <= m.len(),
            r@.len() == i,
            forall|j: int| 0 <= j < i ==> r@[j] == m@[j].0,
        decreases m.len() - i,
    {
        r.push(m[i].0);
        i += 1;
    }
    assert(r@ =~= letters(m@));
    r
}

/// The number of characters of `m` from `from` on that carry `mark`.
fn marked_run_from(m: &Vec<(char, bool)>, from: usize, mark: bool) -> (r: usize)
    requires
        from <= m.len(),
    ensures
        r == marked_run(m@.skip(from as int), mark),
        from + r <= m.len(),
{
    let mut i: usize = from;
    while i < m.len() && m[i].1 == mark
        invariant
            from <= i <= m.len(),
            forall|j: int| from <= j < i ==> m@[j].1 == mark,
        decreases m.len() - i,
    {
        i += 1;
    }
    proof {
        let t = m@.skip(from as int);
        assert forall|j: int| 0 <= j < i - from implies t[j].1 == mark by {
            assert(t[j] == m@[from + j]);
        }
        lemma_marked_run(t, mark, i - from);
    }
    i - from
}

/// The marked text from `from` to `to`.
pub fn slice_marked(m: &Vec<(char, bool)>, from: usize, to: usize) -> (r: Vec<(char, bool)>)
    requires
        from <= to <= m.len(),
    ensures
        r@ == m@.subrange(from as int, to as int),
{
    let mut r: Vec<(char, bool)> = Vec::new();
    let mut i: usize = from;
    while i < to
        invariant
            from <= i <= to <= m.len(),
            r@.len() == i - from,
            forall|j: int| 0 <= j < i - from ==> r@[j] == m@[from + j],
        decreases to - i,
    {
        r.push(m[i]);
        i += 1;
    }
    assert(r@ =~= m@.subrange(from as int, to as int));
    r
}

/// Marked text without the white space at its front and at its back.
pub fn trim_marked_chars(m: &Vec<(char, bool)>) -> (r: Vec<(char, bool)>)
    ensures
        r@ == trim_marked(m@),
{
    let lead = marked_run_from(m, 0, true);
    assert(m@.skip(0) =~= m@);
    let mut end: usize = m.len();
    while end > lead && m[end - 1].1
        invariant
            lead <= end <= m.len(),
            forall|j: int| end <= j < m.len() ==> m@[j].1,
        decreases end,
    {
        end -= 1;
    }
    proof {
        let rest = m@.skip(lead as int);
        assert forall|i: int| rest.len() - (m.len() - end) <= i < rest.len() implies rest[i].1 == true by {
            assert(rest[i] == m@[lead + i]);
        }
        if m.len() - end < rest.len() {
            assert(rest[rest.len() - (m.len() - end) - 1] == m@[end - 1]);
        }
        lemma_marked_run_back(rest, true, m.len() - end);
    }
    let r = slice_marked(m, lead, end);
    assert(r@ =~= trim_marked(m@));
    r
}

/// The first word of the marked text `m` from `from` on.
pub fn first_word_from(m: &Vec<(char, bool)>, from: usize) -> (r: Vec<char>)
    requires
        from <= m.len(),
    ensures
        r@ == first_word_marked(m@.skip(from as int)),
{
    let lead = marked_run_from(m, from, true);
    let len = marked_run_from(m, from + lead, false);
    let mut r: Vec<char> = Vec::new();
    let mut i: usize = 0;
    while i < len
        invariant
            i <= len,
            from + lead + len <= m.len(),
            r@.len() == i,
            forall|j: int| 0 <= j < i ==> r@[j] == m@[from + lead + j].0,
        decreases len - i,
    {
        r.push(m[from + lead + i].0);
        i += 1;
    }
    proof {
        let rest = m@.skip(from as int);
        let t = rest.skip(lead as int);
        assert(t =~= m@.skip((from + lead) as int));
        assert(r@ =~= first_word_marked(rest));
    }
    r
}

// ---------------------------------------------------------------------------
// Splitting at a character
// ---------------------------------------------------------------------------

/// The part of `s` before the first `c`, or all of `s` where it holds none.
pub open spec fn before_first(s: Seq<char>, c: char) -> Seq<char> {
    s.take(leading_run(s, is_not_char(c)) as int)
}

/// The part of `s` after the last `c`, or all of `s` where it holds none.
pub open spec fn after_last(s: Seq<char>, c: char) -> Seq<char> {
    s.skip(s.len() - trailing_run(s, is_not_char(c)))
}

/// The test for being any character but `c`.
pub open spec fn is_not_char(c: char) -> spec_fn(char) -> bool {
    |x: char| x != c
}

/// The part of `s` before the first `c`, or all of `s` where it holds none.
pub fn before_first_chars(s: &Vec<char>, c: char) -> (r: Vec<char>)
    ensures
        r@ == before_first(s@, c),
{
    let mut i: usize = 0;
    while i < s.len() && s[i] != c
        invariant
            i <= s.len(),
            forall|j: int| 0 <= j < i ==> s@[j] != c,
        decreases s.len() - i,
    {
        i += 1;
    }
    proof {
        lemma_leading_run(s@, is_not_char(c), i as int);
    }
    let r = slice_chars(s, 0, i);
    assert(r@ =~= before_first(s@, c));
    r
}

/// The part of `s` after the last `c`, or all of `s` where it holds none.
pub fn after_last_chars(s: &Vec<char>, c: char) -> (r: Vec<char>)
    ensures
        r@ == after_last(s@, c),
{
    let mut i: usize = s.len();
    while i > 0 && s[i - 1] != c
        invariant
            i <= s.len(),
            forall|j: int| i <= j < s.len() ==> s@[j] != c,
        decreases i,
    {
        i -= 1;
    }
    proof {
        lemma_trailing_run(s@, is_not_char(c), s.len() - i);
    }
    let r = slice_chars(s, i, s.len());
    assert(r@ =~= after_last(s@, c));
    r
}

// ---------------------------------------------------------------------------
// Decimal numbers
// ---------------------------------------------------------------------------

/// The character for one decimal digit.
pub open spec fn digit_char(d: nat) -> char {
    if d == 0 {
        '0'
    } else if d == 1 {
        '1'
    } else if d == 2 {
        '2'
    } else if d == 3 {
        '3'
    } else if d == 4 {
        '4'
    } else if d == 5 {
        '5'
    } else if d == 6 {
        '6'
    } else if d == 7 {
        '7'
    } else if d == 8 {
        '8'
    } else {
        '9'
    }
}

/// The decimal numeral of `n`, without leading zeros.
pub open spec fn decimal_text(n: nat) -> Seq<char>
    decreases n,
{
    if n < 10 {
        seq![digit_char(n)]
    } else {
        decimal_text(n / 10).push(digit_char(n % 10))
    }
}

fn digit(d: u64) -> (c: char)
    requires
        d < 10,
    ensures
        c == digit_char(d as nat),
{
    if d == 0 {
        '0'
    } else if d == 1 {
        '1'
    } else if d == 2 {
        '2'
    } else if d == 3 {
        '3'
    } else if d == 4 {
        '4'
    } else if d == 5 {
        '5'
    } else if d == 6 {
        '6'
    } else if d == 7 {
        '7'
    } else if d == 8 {
        '8'
    } else {
        '9'
    }
}

/// Appends the decimal numeral of `n` to `out`.
pub fn push_decimal(out: &mut Vec<char>, n: u64)
    ensures
        final(out)@ == old(out)@ + decimal_text(n as nat),
    decreases n,
{
    if n >= 10 {
        push_decimal(out, n / 10);
    }
    out.push(digit(n % 10));
    assert(out@ =~= old(out)@ + decimal_text(n as nat));
}

/// Appends the characters of `v` to `out`.
pub fn push_chars(out: &mut Vec<char>, v: &Vec<char>)
    ensures
        final(out)@ == old(out)@ + v@,
{
    let mut i: usize = 0;
    while i < v.len()
        invariant
            i <= v.len(),
            out@ == old(out)@ + v@.take(i as int),
        decreases v.len() - i,
    {
        out.push(v[i]);
        assert(v@.take(i + 1) =~= v@.take(i as int).push(v@[i as int]));
        assert(out@ =~= old(out)@ + v@.take(i + 1));
        i += 1;
    }
    assert(v@.take(v.len() as int) =~= v@);
}

/// `s` without leading and trailing white space.
pub fn trimmed(s: &str) -> (r: String)
    ensures
        r@ == trim(s@),
{
    let v = to_chars(s);
    let t = trim_chars(&v);
    string_from_chars(&t)
}

// ---------------------------------------------------------------------------
// Lines
// ---------------------------------------------------------------------------

/// A line without the carriage return that stood before its line feed.
pub open spec fn strip_cr(line: Seq<char>) -> Seq<char> {
    if line.len() > 0 && line.last() == '\r' {
        line.drop_last()
    } else {
        line
    }
}

/// The lines of a text: it is split at every line feed, a carriage return
/// before a line feed goes with it, and a last line needs no line feed.
pub open spec fn lines(s: Seq<char>) -> Seq<Seq<char>>
    decreases s.len(),
{
    if s.len() == 0 {
        Seq::empty()
    } else {
        let k = leading_run(s, is_not_char('\n')) as int;
        if k >= s.len() {
            seq![s]
        } else {
            seq![strip_cr(s.take(k))] + lines(s.skip(k + 1))
        }
    }
}

/// The views of the lines.
pub open spec fn line_views(v: Seq<Vec<char>>) -> Seq<Seq<char>> {
    v.map_values(|l: Vec<char>| l@)
}

/// The lines of a text (see [`lines`]).
pub fn split_lines(s: &Vec<char>) -> (r: Vec<Vec<char>>)
    ensures
        line_views(r@) == lines(s@),
{
    let mut r: Vec<Vec<char>> = Vec::new();
    let mut from: usize = 0;
    assert(s@.skip(0) =~= s@);
    while from < s.len()
        invariant
            from <= s.len(),
            lines(s@) == line_views(r@) + lines(s@.skip(from as int)),
        decreases s.len() - from,
    {
        let ghost rest = s@.skip(from as int);
        let mut i: usize = from;
        while i < s.len() && s[i] != '\n'
            invariant
                from <= i <= s.len(),
                forall|j: int| from <= j < i ==> s@[j] != '\n',
            decreases s.len() - i,
        {
            i += 1;
        }
        proof {
            lemma_leading_run(rest, is_not_char('\n'), i - from);
        }
        if i == s.len() {
            let line = slice_chars(s, from, i);
            assert(line@ =~= rest);
            r.push(line);
            proof {
                assert(s@.skip(s.len() as int) =~= Seq::<char>::empty());
                assert(lines(s@.skip(s.len() as int)) =~= Seq::<Seq<char>>::empty());
                assert(line_views(r@) =~= line_views(r@.drop_last()) + seq![rest]);
                assert(lines(rest) =~= seq![rest]);
            }
            from = i;
        } else {
            let end = if i > from && s[i - 1] == '\r' {
                i - 1
            } else {
                i
            };
            let line = slice_chars(s, from, end);
            proof {
                let raw = rest.take(i - from);
                assert(raw =~= s@.subrange(from as int, i as int));
                if raw.len() > 0 {
                    assert(raw.last() == s@[i - 1]);
                }
                assert(line@ =~= strip_cr(raw));
                assert(rest.skip(i - from + 1) =~= s@.skip(i + 1));
            }
            r.push(line);
            proof {
                assert(line_views(r@) =~= line_views(r@.drop_last()) + seq![line@]);
            }
            from = i + 1;
        }
    }
    proof {
        assert(s@.skip(s.len() as int) =~= Seq::<char>::empty());
    }
    r
}

// ---------------------------------------------------------------------------
// Lists in one text
// ---------------------------------------------------------------------------

/// The parts of `s` between the occurrences of `c`; a text without `c` is
/// its own single part.
pub open spec fn split_at_char(s: Seq<char>, c: char) -> Seq<Seq<char>>
    decreases s.len(),
{
    let k = leading_run(s, is_not_char(c)) as int;
    if k >= s.len() {
        seq![s]
    } else {
        seq![s.take(k)] + split_at_char(s.skip(k + 1), c)
    }
}

/// The texts of `parts` in a row, with `sep` between each two.
pub open spec fn join_with(parts: Seq<Seq<char>>, sep: Seq<char>) -> Seq<char>
    decreases parts.len(),
{
    if parts.len() == 0 {
        Seq::empty()
    } else if parts.len() == 1 {
        parts[0]
    } else {
        join_with(parts.drop_last(), sep) + sep + parts.last()
    }
}

/// `s` with every `from` replaced by `to`.
pub open spec fn replace_char(s: Seq<char>, from: char, to: char) -> Seq<char> {
    s.map_values(
        |x: char|
            if x == from {
                to
            } else {
                x
            },
    )
}

/// The views of the texts.
pub open spec fn string_views(v: Seq<String>) -> Seq<Seq<char>> {
    v.map_values(|s: String| s@)
}

/// The view of an optional text.
pub open spec fn opt_text(s: Option<String>) -> Option<Seq<char>> {
    match s {
        Some(s) => Some(s@),
        None => None,
    }
}

/// The view of an optional text slice.
pub open spec fn opt_str(s: Option<&str>) -> Option<Seq<char>> {
    match s {
        Some(s) => Some(s@),
        None => None,
    }
}

/// The parts of `s` between the occurrences of `c`.
pub fn split_chars(s: &Vec<char>, c: char) -> (r: Vec<String>)
    ensures
        string_views(r@) == split_at_char(s@, c),
{
    let mut r: Vec<String> = Vec::new();
    let mut from: usize = 0;
    let mut done = false;
    assert(s@.skip(0) =~= s@);
    while !done
        invariant
            from <= s.len(),
            !done ==> split_at_char(s@, c) == string_views(r@) + split_at_char(
                s@.skip(from as int),
                c,
            ),
            done ==> split_at_char(s@, c) == string_views(r@),
        decreases s.len() - from + (if done { 0int } else { 1int }),
    {
        let ghost rest = s@.skip(from as int);
        let mut i: usize = from;
        while i < s.len() && s[i] != c
            invariant
                from <= i <= s.len(),
                forall|j: int| from <= j < i ==> s@[j] != c,
            decreases s.len() - i,
        {
            i += 1;
        }
        proof {
            lemma_leading_run(rest, is_not_char(c), i - from);
        }
        let part = slice_chars(s, from, i);
        let text = string_from_chars(&part);
        proof {
            assert(part@ =~= rest.take(i - from));
        }
        r.push(text);
        proof {
            assert(string_views(r@) =~= string_views(r@.drop_last()) + seq![part@]);
        }
        if i == s.len() {
            proof {
                assert(rest.take(i - from) =~= rest);
            }
            done = true;
        } else {
            proof {
                assert(rest.skip(i - from + 1) =~= s@.skip(i + 1));
            }
            from = i + 1;
        }
    }
    r
}

/// The texts of `parts` in a row, with `sep` between each two.
pub fn join(parts: &Vec<String>, sep: &str) -> (r: String)
    ensures
        r@ == join_with(string_views(parts@), sep@),
{
    let mut r = String::new();
    let mut i: usize = 0;
    let ghost all = string_views(parts@);
    assert(all.take(0) =~= Seq::<Seq<char>>::empty());
    while i < parts.len()
        invariant
            i <= parts.len(),
            all == string_views(parts@),
            r@ == join_with(all.take(i as int), sep@),
        decreases parts.len() - i,
    {
        proof {
            assert(all.take(i + 1).drop_last() =~= all.take(i as int));
            assert(all.take(i + 1).last() == parts@[i as int]@);
        }
        if i > 0 {
            r.append(sep);
        }
        r.append(parts[i].as_str());
        proof {
            if i == 0 {
                assert(r@ =~= parts@[0]@);
            }
        }
        i += 1;
    }
    assert(all.take(parts.len() as int) =~= all);
    r
}

/// `s` with every `from` replaced by `to`.
pub fn replace_chars(s: &Vec<char>, from: char, to: char) -> (r: Vec<char>)
    ensures
        r@ == replace_char(s@, from, to),
{
    let mut r: Vec<char> = Vec::new();
    let mut i: usize = 0;
    while i < s.len()
        invariant
            i <= s.len(),
            r@ == replace_char(s@.take(i as int), from, to),
        decreases s.len() - i,
    {
        let x = s[i];
        r.push(if x == from { to } else { x });
        assert(s@.take(i + 1) =~= s@.take(i as int).push(s@[i as int]));
        assert(r@ =~= replace_char(s@.take(i + 1), from, to));
        i += 1;
    }
    assert(s@.take(s.len() as int) =~= s@);
    r
}

// ---------------------------------------------------------------------------
// The order of texts is a strict total order
// ---------------------------------------------------------------------------

/// The common prefix of two byte strings does not depend on their order.
pub proof fn lemma_common_prefix_symmetric(a: Seq<u8>, b: Seq<u8>)
    ensures
        common_prefix_len(a, b) == common_prefix_len(b, a),
{
    lemma_common_prefix_props(a, b);
    lemma_common_prefix_len(b, a, common_prefix_len(a, b) as int);
}

/// No byte string sorts before itself.
pub proof fn lemma_bytes_before_irreflexive(a: Seq<u8>)
    ensures
        !bytes_before(a, a),
{
    lemma_common_prefix_len(a, a, a.len() as int);
}

/// Of two byte strings at most one sorts before the other.
pub proof fn lemma_bytes_before_asymmetric(a: Seq<u8>, b: Seq<u8>)
    ensures
        !(bytes_before(a, b) && bytes_before(b, a)),
{
    lemma_common_prefix_symmetric(a, b);
    lemma_common_prefix_props(a, b);
}

/// Of two different byte strings one sorts before the other.
pub proof fn lemma_bytes_before_total(a: Seq<u8>, b: Seq<u8>)
    ensures
        a == b || bytes_before(a, b) || bytes_before(b, a),
{
    lemma_common_prefix_symmetric(a, b);
    lemma_common_prefix_props(a, b);
    let k = common_prefix_len(a, b) as int;
    if k == a.len() && k == b.len() {
        assert(a =~= b);
    }
}

/// What sorts before something that sorts before a third sorts before the
/// third.
pub proof fn lemma_bytes_before_transitive(a: Seq<u8>, b: Seq<u8>, c: Seq<u8>)
    requires
        bytes_before(a, b),
        bytes_before(b, c),
    ensures
        bytes_before(a, c),
{
    lemma_common_prefix_props(a, b);
    lemma_common_prefix_props(b, c);
    let k1 = common_prefix_len(a, b) as int;
    let k2 = common_prefix_len(b, c) as int;
    let k = if k1 <= k2 {
        k1
    } else {
        k2
    };
    assert forall|i: int| 0 <= i < k implies a[i] == c[i] by {
        assert(a[i] == b[i]);
        assert(b[i] == c[i]);
    }
    if k1 < k2 {
        if k1 < a.len() {
            assert(b[k1] == c[k1]);
        }
    } else if k2 < k1 {
        assert(a[k2] == b[k2]);
    }
    lemma_common_prefix_len(a, c, k);
}

/// No text sorts before itself.
pub proof fn lemma_text_before_irreflexive(a: Seq<char>)
    ensures
        !text_before(a, a),
{
    lemma_bytes_before_irreflexive(encode_utf8(a));
}

/// Of two texts at most one sorts before the other.
pub proof fn lemma_text_before_asymmetric(a: Seq<char>, b: Seq<char>)
    ensures
        !(text_before(a, b) && text_before(b, a)),
{
    lemma_bytes_before_asymmetric(encode_utf8(a), encode_utf8(b));
}

/// Of two different texts one sorts before the other.
pub proof fn lemma_text_before_total(a: Seq<char>, b: Seq<char>)
    ensures
        a == b || text_before(a, b) || text_before(b, a),
{
    lemma_bytes_before_total(encode_utf8(a), encode_utf8(b));
    lemma_same_bytes_same_text(a, b);
}

/// What sorts before something that sorts before a third sorts before the
/// third.
pub proof fn lemma_text_before_transitive(a: Seq<char>, b: Seq<char>, c: Seq<char>)
    requires
        text_before(a, b),
        text_before(b, c),
    ensures
        text_before(a, c),
{
    lemma_bytes_before_transitive(encode_utf8(a), encode_utf8(b), encode_utf8(c));
}

/// What does not sort before something that does not sort before a third
/// does not sort before the third.
pub proof fn lemma_text_not_before_transitive(a: Seq<char>, b: Seq<char>, c: Seq<char>)
    requires
        !text_before(a, b),
        !text_before(b, c),
    ensures
        !text_before(a, c),
{
    lemma_text_before_total(a, b);
    lemma_text_before_total(b, c);
    if text_before(a, c) {
        if a == b {
        } else {
            lemma_text_before_transitive(b, a, c);
        }
    }
}

} // verus!
