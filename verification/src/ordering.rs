//! Ordering of records by their time stamps, and first-match lookups.
//!
//! Time stamps are texts and are compared as such (see
//! [`crate::text::text_before`]). Listings are newest first; records with
//! the same stamp keep the order in which they were stored.

use vstd::prelude::*;
use crate::text::{
    lemma_text_before_asymmetric, lemma_text_before_irreflexive, lemma_text_before_total,
    lemma_text_not_before_transitive, str_before, text_before,
};

verus! {

/// A record that is listed by a time stamp.
pub trait Dated {
    /// The stamp by which the record is listed.
    spec fn stamp(&self) -> Seq<char>;

    /// The stamp by which the record is listed.
    fn stamp_str(&self) -> (r: &str)
        ensures
            r@ == self.stamp(),
    ;
}

/// The number of records at the front of `s` that are strictly newer than `k`.
pub open spec fn newer_run<T: Dated>(s: Seq<T>, k: Seq<char>) -> nat
    decreases s.len(),
{
    if s.len() > 0 && text_before(k, s[0].stamp()) {
        1 + newer_run(s.drop_first(), k)
    } else {
        0
    }
}

/// `s` in the order of a listing: newest first, and records with the same
/// stamp in the order that they have in `s`.
pub open spec fn newest_first<T: Dated>(s: Seq<T>) -> Seq<T>
    decreases s.len(),
{
    if s.len() == 0 {
        s
    } else {
        let rest = newest_first(s.drop_first());
        rest.insert(newer_run(rest, s[0].stamp()) as int, s[0])
    }
}

/// `k` records at the front of `s` are newer than `key`, and the next is not.
pub proof fn lemma_newer_run<T: Dated>(s: Seq<T>, key: Seq<char>, k: int)
    requires
        0 <= k <= s.len(),
        forall|i: int| 0 <= i < k ==> text_before(key, #[trigger] s[i].stamp()),
        k == s.len() || !text_before(key, s[k].stamp()),
    ensures
        newer_run(s, key) == k,
    decreases s.len(),
{
    if k > 0 {
        let t = s.drop_first();
        assert forall|i: int| 0 <= i < k - 1 implies text_before(key, #[trigger] t[i].stamp()) by {
            assert(t[i] == s[i + 1]);
        }
        if k - 1 < t.len() {
            assert(t[k - 1] == s[k]);
        }
        lemma_newer_run(t, key, k - 1);
    }
}

/// A listing holds as many records as were given.
pub proof fn lemma_newest_first_len<T: Dated>(s: Seq<T>)
    ensures
        newest_first(s).len() == s.len(),
    decreases s.len(),
{
    if s.len() > 0 {
        lemma_newest_first_len(s.drop_first());
        lemma_newer_run_bound(newest_first(s.drop_first()), s[0].stamp());
    }
}

/// `newer_run` never exceeds the length.
pub proof fn lemma_newer_run_bound<T: Dated>(s: Seq<T>, key: Seq<char>)
    ensures
        newer_run(s, key) <= s.len(),
    decreases s.len(),
{
    if s.len() > 0 {
        lemma_newer_run_bound(s.drop_first(), key);
    }
}

/// A listing holds exactly the records that were given, each as often.
pub proof fn lemma_newest_first_permutes<T: Dated>(s: Seq<T>)
    ensures
        newest_first(s).to_multiset() =~= s.to_multiset(),
    decreases s.len(),
{
    broadcast use vstd::seq_lib::group_to_multiset_ensures;

    if s.len() > 0 {
        let rest = newest_first(s.drop_first());
        lemma_newest_first_permutes(s.drop_first());
        lemma_newer_run_bound(rest, s[0].stamp());
        let p = newer_run(rest, s[0].stamp()) as int;
        let out = rest.insert(p, s[0]);
        assert(out.remove(p) =~= rest);
        assert(out.to_multiset().remove(s[0]) =~= rest.to_multiset());
        assert(s.remove(0) =~= s.drop_first());
        assert(s.to_multiset().remove(s[0]) =~= s.drop_first().to_multiset());
        assert(out[p] == s[0]);
        assert(out.to_multiset().count(s[0]) > 0);
        assert(s.to_multiset().count(s[0]) > 0);
    }
}

/// Puts the records in the order of a listing.
pub fn sort_newest_first<T: Dated>(v: Vec<T>) -> (out: Vec<T>)
    ensures
        out@ == newest_first(v@),
{
    let mut v = v;
    let ghost orig = v@;
    let mut out: Vec<T> = Vec::new();
    assert(orig.skip(orig.len() as int) =~= Seq::<T>::empty());
    while v.len() > 0
        invariant
            v.len() <= orig.len(),
            v@ == orig.take(v.len() as int),
            out@ == newest_first(orig.skip(v.len() as int)),
        decreases v.len(),
    {
        let ghost n = v.len() as int;
        let x = v.pop().unwrap();
        assert(x == orig[n - 1]);
        let mut p: usize = 0;
        while p < out.len() && str_before(x.stamp_str(), out[p].stamp_str())
            invariant
                p <= out.len(),
                forall|i: int| 0 <= i < p ==> text_before(x.stamp(), #[trigger] out@[i].stamp()),
            decreases out.len() - p,
        {
            p += 1;
        }
        proof {
            lemma_newer_run(out@, x.stamp(), p as int);
            let tail = orig.skip(n - 1);
            assert(tail.drop_first() =~= orig.skip(n));
            assert(tail[0] == x);
            assert(v@ =~= orig.take(n - 1));
        }
        out.insert(p, x);
    }
    assert(orig.skip(0) =~= orig);
    out
}

// ---------------------------------------------------------------------------
// First match
// ---------------------------------------------------------------------------

/// The first position in `s` whose record satisfies `p`.
pub open spec fn first_index<T>(s: Seq<T>, p: spec_fn(T) -> bool) -> Option<int>
    decreases s.len(),
{
    if s.len() == 0 {
        None
    } else if p(s[0]) {
        Some(0)
    } else {
        match first_index(s.drop_first(), p) {
            Some(i) => Some(i + 1),
            None => None,
        }
    }
}

/// Whether some record of `s` satisfies `p`.
pub open spec fn any<T>(s: Seq<T>, p: spec_fn(T) -> bool) -> bool {
    exists|i: int| 0 <= i < s.len() && p(#[trigger] s[i])
}

/// The first record of `s` that satisfies `p`.
pub open spec fn first_match<T>(s: Seq<T>, p: spec_fn(T) -> bool) -> Option<T> {
    match first_index(s, p) {
        Some(i) => Some(s[i]),
        None => None,
    }
}

/// `i` is the first position whose record satisfies `p`.
pub proof fn lemma_first_index_is<T>(s: Seq<T>, p: spec_fn(T) -> bool, i: int)
    requires
        0 <= i < s.len(),
        p(s[i]),
        forall|j: int| 0 <= j < i ==> !p(#[trigger] s[j]),
    ensures
        first_index(s, p) == Some(i),
    decreases s.len(),
{
    if i > 0 {
        let t = s.drop_first();
        assert(!p(s[0]));
        assert forall|j: int| 0 <= j < i - 1 implies !p(#[trigger] t[j]) by {
            assert(t[j] == s[j + 1]);
        }
        assert(t[i - 1] == s[i]);
        lemma_first_index_is(t, p, i - 1);
    }
}

/// No record satisfies `p`.
pub proof fn lemma_first_index_none<T>(s: Seq<T>, p: spec_fn(T) -> bool)
    requires
        forall|j: int| 0 <= j < s.len() ==> !p(#[trigger] s[j]),
    ensures
        first_index(s, p) is None,
    decreases s.len(),
{
    if s.len() > 0 {
        let t = s.drop_first();
        assert(!p(s[0]));
        assert forall|j: int| 0 <= j < t.len() implies !p(#[trigger] t[j]) by {
            assert(t[j] == s[j + 1]);
        }
        lemma_first_index_none(t, p);
    }
}

/// What `first_index` satisfies.
pub proof fn lemma_first_index_props<T>(s: Seq<T>, p: spec_fn(T) -> bool)
    ensures
        match first_index(s, p) {
            Some(i) => 0 <= i < s.len() && p(s[i]) && forall|j: int|
                0 <= j < i ==> !p(#[trigger] s[j]),
            None => forall|j: int| 0 <= j < s.len() ==> !p(#[trigger] s[j]),
        },
    decreases s.len(),
{
    if s.len() > 0 && !p(s[0]) {
        let t = s.drop_first();
        lemma_first_index_props(t, p);
        match first_index(t, p) {
            Some(i) => {
                assert(t[i] == s[i + 1]);
                assert forall|j: int| 0 <= j < i + 1 implies !p(#[trigger] s[j]) by {
                    if j > 0 {
                        assert(t[j - 1] == s[j]);
                    }
                }
            },
            None => {
                assert forall|j: int| 0 <= j < s.len() implies !p(#[trigger] s[j]) by {
                    if j > 0 {
                        assert(t[j - 1] == s[j]);
                    }
                }
            },
        }
    }
}

// ---------------------------------------------------------------------------
// Copies and selections
// ---------------------------------------------------------------------------

/// A record that can be copied field by field.
pub trait Record: Sized {
    /// A copy that equals the record.
    fn duplicate(&self) -> (r: Self)
        ensures
            r == *self,
    ;
}

/// The records of `src` that `keep` accepts, in their order.
pub(crate) fn select<T: Record, F: Fn(&T) -> bool>(src: &Vec<T>, keep: F, Ghost(p): Ghost<spec_fn(T) -> bool>) -> (out:
    Vec<T>)
    requires
        forall|x: &T| #[trigger] keep.requires((x,)),
        forall|x: &T, b: bool| #[trigger] keep.ensures((x,), b) ==> b == p(*x),
    ensures
        out@ == src@.filter(p),
{
    let mut out: Vec<T> = Vec::new();
    let mut i: usize = 0;
    proof {
        reveal(Seq::filter);
        assert(src@.take(0) =~= Seq::<T>::empty());
    }
    while i < src.len()
        invariant
            i <= src.len(),
            out@ == src@.take(i as int).filter(p),
            forall|x: &T| #[trigger] keep.requires((x,)),
            forall|x: &T, b: bool| #[trigger] keep.ensures((x,), b) ==> b == p(*x),
        decreases src.len() - i,
    {
        proof {
            assert(src@.take(i + 1) =~= src@.take(i as int).push(src@[i as int]));
            src@.take(i as int).lemma_filter_push(src@[i as int], p);
        }
        if keep(&src[i]) {
            out.push(src[i].duplicate());
        }
        i += 1;
    }
    assert(src@.take(src.len() as int) =~= src@);
    out
}

/// The first position in `src` whose record `want` accepts.
pub(crate) fn position<T, F: Fn(&T) -> bool>(src: &Vec<T>, want: F, Ghost(p): Ghost<spec_fn(T) -> bool>) -> (r: Option<
    usize,
>)
    requires
        forall|x: &T| #[trigger] want.requires((x,)),
        forall|x: &T, b: bool| #[trigger] want.ensures((x,), b) ==> b == p(*x),
    ensures
        match r {
            Some(i) => first_index(src@, p) == Some(i as int) && i < src.len() && p(src@[i as int]),
            None => first_index(src@, p) is None,
        },
{
    let mut i: usize = 0;
    while i < src.len()
        invariant
            i <= src.len(),
            forall|j: int| 0 <= j < i ==> !p(#[trigger] src@[j]),
            forall|x: &T| #[trigger] want.requires((x,)),
            forall|x: &T, b: bool| #[trigger] want.ensures((x,), b) ==> b == p(*x),
        decreases src.len() - i,
    {
        if want(&src[i]) {
            proof {
                lemma_first_index_is(src@, p, i as int);
            }
            return Some(i);
        }
        i += 1;
    }
    proof {
        lemma_first_index_none(src@, p);
    }
    None
}

/// Whether `want` accepts some record of `src`.
pub(crate) fn exists_where<T, F: Fn(&T) -> bool>(src: &Vec<T>, want: F, Ghost(p): Ghost<spec_fn(T) -> bool>) -> (r: bool)
    requires
        forall|x: &T| #[trigger] want.requires((x,)),
        forall|x: &T, b: bool| #[trigger] want.ensures((x,), b) ==> b == p(*x),
    ensures
        r == any(src@, p),
{
    let mut i: usize = 0;
    while i < src.len()
        invariant
            i <= src.len(),
            forall|j: int| 0 <= j < i ==> !p(#[trigger] src@[j]),
            forall|x: &T| #[trigger] want.requires((x,)),
            forall|x: &T, b: bool| #[trigger] want.ensures((x,), b) ==> b == p(*x),
        decreases src.len() - i,
    {
        if want(&src[i]) {
            return true;
        }
        i += 1;
    }
    false
}

// ---------------------------------------------------------------------------
// Laws of listings
// ---------------------------------------------------------------------------

/// No record of `s` is newer than a record before it.
pub open spec fn is_newest_first<T: Dated>(s: Seq<T>) -> bool {
    forall|i: int, j: int|
        0 <= i < j < s.len() ==> !text_before((#[trigger] s[i]).stamp(), (#[trigger] s[j]).stamp())
}

/// No two records of `s` have the same stamp.
pub open spec fn distinct_stamps<T: Dated>(s: Seq<T>) -> bool {
    forall|i: int, j: int|
        0 <= i < j < s.len() ==> (#[trigger] s[i]).stamp() != (#[trigger] s[j]).stamp()
}

/// The test for a record that is strictly older than `stamp`.
pub open spec fn older_than<T: Dated>(stamp: Seq<char>) -> spec_fn(T) -> bool {
    |x: T| text_before(x.stamp(), stamp)
}

/// What `newer_run` satisfies.
pub proof fn lemma_newer_run_props<T: Dated>(s: Seq<T>, key: Seq<char>)
    ensures
        newer_run(s, key) <= s.len(),
        forall|i: int| 0 <= i < newer_run(s, key) ==> text_before(key, (#[trigger] s[i]).stamp()),
        newer_run(s, key) == s.len() || !text_before(key, s[newer_run(s, key) as int].stamp()),
    decreases s.len(),
{
    if s.len() > 0 && text_before(key, s[0].stamp()) {
        let t = s.drop_first();
        lemma_newer_run_props(t, key);
        let k = newer_run(t, key) as int;
        assert forall|i: int| 0 <= i < k + 1 implies text_before(key, (#[trigger] s[i]).stamp()) by {
            if i > 0 {
                assert(t[i - 1] == s[i]);
            }
        }
        if k < t.len() {
            assert(t[k] == s[k + 1]);
        }
    }
}

/// A listing is ordered: no record is newer than a record before it.
pub proof fn lemma_newest_first_is_ordered<T: Dated>(s: Seq<T>)
    ensures
        is_newest_first(newest_first(s)),
    decreases s.len(),
{
    if s.len() > 0 {
        let x = s[0];
        let rest = newest_first(s.drop_first());
        lemma_newest_first_is_ordered(s.drop_first());
        lemma_newer_run_props(rest, x.stamp());
        let p = newer_run(rest, x.stamp()) as int;
        let out = rest.insert(p, x);
        assert forall|i: int, j: int| 0 <= i < j < out.len() implies !text_before(
            (#[trigger] out[i]).stamp(),
            (#[trigger] out[j]).stamp(),
        ) by {
            if j < p {
                assert(out[i] == rest[i] && out[j] == rest[j]);
            } else if j == p {
                assert(out[i] == rest[i]);
                assert(text_before(x.stamp(), rest[i].stamp()));
                lemma_text_before_asymmetric(x.stamp(), rest[i].stamp());
            } else {
                assert(out[j] == rest[j - 1]);
                // Nothing from `p` on is newer than `x`.
                assert(!text_before(x.stamp(), rest[p].stamp()));
                if j - 1 > p {
                    assert(!text_before(rest[p].stamp(), rest[j - 1].stamp()));
                    lemma_text_not_before_transitive(x.stamp(), rest[p].stamp(), rest[j - 1].stamp());
                }
                if i < p {
                    assert(out[i] == rest[i]);
                    if i < j - 1 {
                        assert(!text_before(rest[i].stamp(), rest[j - 1].stamp()));
                    }
                } else if i == p {
                } else {
                    assert(out[i] == rest[i - 1]);
                    assert(!text_before(rest[i - 1].stamp(), rest[j - 1].stamp()));
                }
            }
        }
    }
}

/// Every record of a selection satisfies what every record of the table
/// satisfies.
pub proof fn lemma_filter_keeps_property<T>(s: Seq<T>, keep: spec_fn(T) -> bool, holds: spec_fn(T) -> bool)
    requires
        forall|i: int| 0 <= i < s.len() ==> holds(#[trigger] s[i]),
    ensures
        forall|i: int| 0 <= i < s.filter(keep).len() ==> holds(#[trigger] s.filter(keep)[i]),
{
    let f = s.filter(keep);
    assert forall|i: int| 0 <= i < f.len() implies holds(#[trigger] f[i]) by {
        assert(f.contains(f[i]));
        s.lemma_filter_contains_rev(keep, f[i]);
        let j = choose|j: int| 0 <= j < s.len() && s[j] == f[i];
        assert(holds(s[j]));
    }
}

/// A selection of records that all pass is the table itself.
pub proof fn lemma_filter_all_pass<T>(s: Seq<T>, keep: spec_fn(T) -> bool)
    requires
        forall|i: int| 0 <= i < s.len() ==> keep(#[trigger] s[i]),
    ensures
        s.filter(keep) == s,
    decreases s.len(),
{
    reveal(Seq::filter);
    if s.len() > 0 {
        let t = s.drop_last();
        assert forall|i: int| 0 <= i < t.len() implies keep(#[trigger] t[i]) by {
            assert(t[i] == s[i]);
        }
        lemma_filter_all_pass(t, keep);
        assert(keep(s.last()));
        assert(t.push(s.last()) =~= s);
    }
}

/// A selection of records that all fail is empty.
pub proof fn lemma_filter_none_pass<T>(s: Seq<T>, keep: spec_fn(T) -> bool)
    requires
        forall|i: int| 0 <= i < s.len() ==> !keep(#[trigger] s[i]),
    ensures
        s.filter(keep) == Seq::<T>::empty(),
    decreases s.len(),
{
    reveal(Seq::filter);
    if s.len() > 0 {
        let t = s.drop_last();
        assert forall|i: int| 0 <= i < t.len() implies !keep(#[trigger] t[i]) by {
            assert(t[i] == s[i]);
        }
        lemma_filter_none_pass(t, keep);
        assert(!keep(s.last()));
    } else {
        assert(s =~= Seq::<T>::empty());
    }
}

/// Two tests that agree on every record of a table select the same.
pub proof fn lemma_filter_same_test<T>(s: Seq<T>, p: spec_fn(T) -> bool, q: spec_fn(T) -> bool)
    requires
        forall|i: int| 0 <= i < s.len() ==> p(#[trigger] s[i]) == q(s[i]),
    ensures
        s.filter(p) == s.filter(q),
    decreases s.len(),
{
    reveal(Seq::filter);
    if s.len() > 0 {
        let t = s.drop_last();
        assert forall|i: int| 0 <= i < t.len() implies p(#[trigger] t[i]) == q(t[i]) by {
            assert(t[i] == s[i]);
        }
        lemma_filter_same_test(t, p, q);
        assert(p(s.last()) == q(s.last()));
    }
}

/// Selecting from a selection is selecting by both tests at once.
pub proof fn lemma_filter_twice<T>(s: Seq<T>, p: spec_fn(T) -> bool, q: spec_fn(T) -> bool)
    ensures
        s.filter(p).filter(q) == s.filter(|x: T| p(x) && q(x)),
    decreases s.len(),
{
    reveal(Seq::filter);
    let both = |x: T| p(x) && q(x);
    if s.len() > 0 {
        let t = s.drop_last();
        lemma_filter_twice(t, p, q);
        assert(t.filter(p).filter(q) == t.filter(both));
        if p(s.last()) {
            t.filter(p).lemma_filter_push(s.last(), q);
        }
    }
}

/// Where every record of `front` is newer than `key` and no record of
/// `back` is, the records of `front + back` that are newer than `key` are
/// those of `front`.
pub proof fn lemma_newer_run_of_parts<T: Dated>(front: Seq<T>, back: Seq<T>, key: Seq<char>)
    requires
        forall|i: int| 0 <= i < front.len() ==> text_before(key, (#[trigger] front[i]).stamp()),
        forall|i: int| 0 <= i < back.len() ==> !text_before(key, (#[trigger] back[i]).stamp()),
    ensures
        newer_run(front + back, key) == front.len(),
{
    let all = front + back;
    let n = front.len() as int;
    assert forall|i: int| 0 <= i < n implies text_before(key, (#[trigger] all[i]).stamp()) by {
        assert(all[i] == front[i]);
    }
    if n < all.len() {
        assert(all[n] == back[0]);
    }
    lemma_newer_run(all, key, n);
}

/// In a listing, the records from the place on where a record with the
/// stamp `key` would be put are not newer than `key`.
pub proof fn lemma_rest_not_newer<T: Dated>(rest: Seq<T>, key: Seq<char>)
    requires
        is_newest_first(rest),
    ensures
        forall|i: int|
            newer_run(rest, key) <= i < rest.len() ==> !text_before(key, (#[trigger] rest[i]).stamp()),
{
    lemma_newer_run_props(rest, key);
    let p = newer_run(rest, key) as int;
    assert forall|i: int| p <= i < rest.len() implies !text_before(
        key,
        (#[trigger] rest[i]).stamp(),
    ) by {
        if i > p {
            assert(!text_before(rest[p].stamp(), rest[i].stamp()));
            lemma_text_not_before_transitive(key, rest[p].stamp(), rest[i].stamp());
        }
    }
}

/// Selecting from a table into which a record was put: the record is put
/// into the selection after what was selected from before its place, or
/// left out.
pub proof fn lemma_filter_insert<T>(rest: Seq<T>, p: int, x: T, keep: spec_fn(T) -> bool)
    requires
        0 <= p <= rest.len(),
    ensures
        rest.filter(keep) == rest.take(p).filter(keep) + rest.skip(p).filter(keep),
        rest.insert(p, x).filter(keep) == if keep(x) {
            rest.filter(keep).insert(rest.take(p).filter(keep).len() as int, x)
        } else {
            rest.filter(keep)
        },
{
    let front = rest.take(p);
    let back = rest.skip(p);
    assert(rest.insert(p, x) =~= front + (seq![x] + back));
    assert(rest =~= front + back);
    back.lemma_filter_prepend(x, keep);
    Seq::filter_distributes_over_add(front, seq![x] + back, keep);
    Seq::filter_distributes_over_add(front, back, keep);
    let f = front.filter(keep);
    let b = back.filter(keep);
    if keep(x) {
        assert((f + b).insert(f.len() as int, x) =~= f + (seq![x] + b));
    } else {
        assert(Seq::<T>::empty() + b =~= b);
    }
}

/// In a listing, the place at which a record is put into a selection is
/// right after what was selected from the records that are newer than it.
pub proof fn lemma_selection_count<T: Dated>(rest: Seq<T>, keep: spec_fn(T) -> bool, x: T)
    requires
        is_newest_first(rest),
    ensures
        newer_run(rest.filter(keep), x.stamp()) == rest.take(
            newer_run(rest, x.stamp()) as int,
        ).filter(keep).len(),
{
    lemma_newer_run_props(rest, x.stamp());
    lemma_rest_not_newer(rest, x.stamp());
    let p = newer_run(rest, x.stamp()) as int;
    let front = rest.take(p);
    let back = rest.skip(p);
    assert forall|i: int| 0 <= i < front.len() implies text_before(
        x.stamp(),
        (#[trigger] front[i]).stamp(),
    ) by {
        assert(front[i] == rest[i]);
    }
    assert forall|i: int| 0 <= i < back.len() implies !text_before(
        x.stamp(),
        (#[trigger] back[i]).stamp(),
    ) by {
        assert(back[i] == rest[p + i]);
    }
    lemma_selection_splits(front, back, keep, x);
    assert(rest =~= front + back);
    Seq::filter_distributes_over_add(front, back, keep);
}

/// Listing and selecting can be done in either order: the listing of a
/// selection is the selection from the listing.
pub proof fn lemma_newest_first_of_selection<T: Dated>(s: Seq<T>, keep: spec_fn(T) -> bool)
    ensures
        newest_first(s.filter(keep)) == newest_first(s).filter(keep),
    decreases s.len(),
{
    if s.len() == 0 {
        reveal(Seq::filter);
        assert(s.filter(keep) =~= s);
    } else {
        let x = s[0];
        let t = s.drop_first();
        let rest = newest_first(t);
        let p = newer_run(rest, x.stamp()) as int;
        lemma_newest_first_of_selection(t, keep);
        lemma_newest_first_is_ordered(t);
        lemma_newer_run_bound(rest, x.stamp());
        lemma_filter_insert(rest, p, x, keep);
        assert(s =~= seq![x] + t);
        t.lemma_filter_prepend(x, keep);
        if keep(x) {
            let kept = t.filter(keep);
            let chosen = seq![x] + kept;
            assert(s.filter(keep) == chosen);
            assert(chosen.drop_first() =~= kept);
            assert(chosen[0] == x);
            lemma_selection_count(rest, keep, x);
        } else {
            assert(Seq::<T>::empty() + t.filter(keep) =~= t.filter(keep));
        }
    }
}

/// Where every record of `front` is newer than `x` and no record of `back`
/// is, `x` is put into the selection from `front + back` right after what
/// was selected from `front`.
proof fn lemma_selection_splits<T: Dated>(front: Seq<T>, back: Seq<T>, keep: spec_fn(T) -> bool, x: T)
    requires
        forall|i: int| 0 <= i < front.len() ==> text_before(x.stamp(), (#[trigger] front[i]).stamp()),
        forall|i: int| 0 <= i < back.len() ==> !text_before(x.stamp(), (#[trigger] back[i]).stamp()),
    ensures
        newer_run(front.filter(keep) + back.filter(keep), x.stamp()) == front.filter(keep).len(),
{
    let newer = |r: T| text_before(x.stamp(), r.stamp());
    let not_newer = |r: T| !text_before(x.stamp(), r.stamp());
    assert forall|i: int| 0 <= i < front.len() implies newer(#[trigger] front[i]) by {}
    assert forall|i: int| 0 <= i < back.len() implies not_newer(#[trigger] back[i]) by {}
    lemma_filter_keeps_property(front, keep, newer);
    lemma_filter_keeps_property(back, keep, not_newer);
    let f = front.filter(keep);
    let b = back.filter(keep);
    assert forall|i: int| 0 <= i < f.len() implies text_before(x.stamp(), (#[trigger] f[i]).stamp()) by {
        assert(newer(f[i]));
    }
    assert forall|i: int| 0 <= i < b.len() implies !text_before(x.stamp(), (#[trigger] b[i]).stamp()) by {
        assert(not_newer(b[i]));
    }
    lemma_newer_run_of_parts(f, b, x.stamp());
}

/// In a listing of records with different stamps, the records that are
/// older than the `k`-th are exactly those that follow it.
pub proof fn lemma_older_records_follow<T: Dated>(s: Seq<T>, k: int)
    requires
        is_newest_first(s),
        distinct_stamps(s),
        0 <= k < s.len(),
    ensures
        s.filter(older_than(s[k].stamp())) == s.skip(k + 1),
{
    let cursor = s[k].stamp();
    let older = older_than::<T>(cursor);
    let front = s.take(k + 1);
    let back = s.skip(k + 1);
    assert(s =~= front + back);
    assert forall|i: int| 0 <= i < front.len() implies !older(#[trigger] front[i]) by {
        assert(front[i] == s[i]);
        if i < k {
            assert(!text_before(s[i].stamp(), s[k].stamp()));
        } else {
            lemma_text_before_irreflexive(cursor);
        }
    }
    assert forall|i: int| 0 <= i < back.len() implies older(#[trigger] back[i]) by {
        let j = k + 1 + i;
        assert(back[i] == s[j]);
        assert(!text_before(s[k].stamp(), s[j].stamp()));
        assert(s[k].stamp() != s[j].stamp());
        lemma_text_before_total(s[j].stamp(), s[k].stamp());
    }
    lemma_filter_none_pass(front, older);
    lemma_filter_all_pass(back, older);
    Seq::filter_distributes_over_add(front, back, older);
    assert(Seq::<T>::empty() + back =~= back);
}

/// What follows in a listing is a listing, and keeps its different stamps.
pub proof fn lemma_rest_of_listing<T: Dated>(s: Seq<T>, k: int)
    requires
        0 <= k <= s.len(),
    ensures
        is_newest_first(s) ==> is_newest_first(s.skip(k)),
        distinct_stamps(s) ==> distinct_stamps(s.skip(k)),
{
    let r = s.skip(k);
    if is_newest_first(s) {
        assert forall|i: int, j: int| 0 <= i < j < r.len() implies !text_before(
            (#[trigger] r[i]).stamp(),
            (#[trigger] r[j]).stamp(),
        ) by {
            assert(r[i] == s[k + i] && r[j] == s[k + j]);
        }
    }
    if distinct_stamps(s) {
        assert forall|i: int, j: int| 0 <= i < j < r.len() implies (#[trigger] r[i]).stamp() != (
        #[trigger] r[j]).stamp() by {
            assert(r[i] == s[k + i] && r[j] == s[k + j]);
        }
    }
}

// ---------------------------------------------------------------------------
// Checks over whole tables
// ---------------------------------------------------------------------------

/// Every two records of `s` differ in the sense of `differ`.
pub open spec fn pairwise<T>(s: Seq<T>, differ: spec_fn(T, T) -> bool) -> bool {
    forall|i: int, j: int| 0 <= i < j < s.len() ==> differ(#[trigger] s[i], #[trigger] s[j])
}

/// Every record of `s` satisfies `p`.
pub open spec fn every<T>(s: Seq<T>, p: spec_fn(T) -> bool) -> bool {
    forall|i: int| 0 <= i < s.len() ==> p(#[trigger] s[i])
}

/// Whether every record of `src` passes `test`.
pub(crate) fn all_pass<T, F: Fn(&T) -> bool>(src: &Vec<T>, test: F, Ghost(p): Ghost<spec_fn(T) -> bool>) -> (r: bool)
    requires
        forall|x: &T| #[trigger] test.requires((x,)),
        forall|x: &T, b: bool| #[trigger] test.ensures((x,), b) ==> b == p(*x),
    ensures
        r == every(src@, p),
{
    let mut i: usize = 0;
    while i < src.len()
        invariant
            i <= src.len(),
            forall|j: int| 0 <= j < i ==> p(#[trigger] src@[j]),
            forall|x: &T| #[trigger] test.requires((x,)),
            forall|x: &T, b: bool| #[trigger] test.ensures((x,), b) ==> b == p(*x),
        decreases src.len() - i,
    {
        if !test(&src[i]) {
            return false;
        }
        i += 1;
    }
    true
}

/// Whether every two records of `src` differ in the sense of `test`.
pub(crate) fn all_differ<T, F: Fn(&T, &T) -> bool>(src: &Vec<T>, test: F, Ghost(d): Ghost<spec_fn(T, T) -> bool>) -> (r:
    bool)
    requires
        forall|x: &T, y: &T| #[trigger] test.requires((x, y)),
        forall|x: &T, y: &T, b: bool| #[trigger] test.ensures((x, y), b) ==> b == d(*x, *y),
    ensures
        r == pairwise(src@, d),
{
    let mut j: usize = 0;
    while j < src.len()
        invariant
            j <= src.len(),
            forall|a: int, b: int| 0 <= a < b < j ==> d(#[trigger] src@[a], #[trigger] src@[b]),
            forall|x: &T, y: &T| #[trigger] test.requires((x, y)),
            forall|x: &T, y: &T, b: bool| #[trigger] test.ensures((x, y), b) ==> b == d(*x, *y),
        decreases src.len() - j,
    {
        let mut i: usize = 0;
        while i < j
            invariant
                i <= j < src.len(),
                forall|a: int| 0 <= a < i ==> d(#[trigger] src@[a], src@[j as int]),
                forall|x: &T, y: &T| #[trigger] test.requires((x, y)),
                forall|x: &T, y: &T, b: bool| #[trigger] test.ensures((x, y), b) ==> b == d(*x, *y),
            decreases j - i,
        {
            if !test(&src[i], &src[j]) {
                return false;
            }
            i += 1;
        }
        j += 1;
    }
    true
}

} // verus!
