//! Orders used by the library: newest-first ordering of notifications (a
//! stable sort by timestamp, descending) and code-point order of strings.

use vstd::prelude::*;

use crate::notification::Notification;

verus! {

broadcast use vstd::seq::group_seq_axioms;

/// Code-point (equivalently, UTF-8 byte) lexicographic order of strings:
/// the order of Rust's `String`.
pub open spec fn text_lt(a: Seq<char>, b: Seq<char>) -> bool
    decreases a.len(),
{
    if a.len() == 0 {
        b.len() > 0
    } else if b.len() == 0 {
        false
    } else if a[0] != b[0] {
        (a[0] as int) < (b[0] as int)
    } else {
        text_lt(a.drop_first(), b.drop_first())
    }
}

/// No string precedes itself.
pub proof fn lemma_text_lt_irreflexive(a: Seq<char>)
    ensures
        !text_lt(a, a),
    decreases a.len(),
{
    if a.len() > 0 {
        lemma_text_lt_irreflexive(a.drop_first());
    }
}

/// Of two different strings, one precedes the other.
pub proof fn lemma_text_lt_total(a: Seq<char>, b: Seq<char>)
    requires
        a != b,
    ensures
        text_lt(a, b) || text_lt(b, a),
    decreases a.len(),
{
    if a.len() > 0 && b.len() > 0 && a[0] == b[0] {
        if a.drop_first() == b.drop_first() {
            assert(a =~= seq![a[0]] + a.drop_first());
            assert(b =~= seq![b[0]] + b.drop_first());
        }
        lemma_text_lt_total(a.drop_first(), b.drop_first());
    } else if a.len() > 0 && b.len() > 0 {
        assert((a[0] as int) != (b[0] as int));
    } else if a.len() == 0 && b.len() == 0 {
        assert(a =~= b);
    }
}

/// The order of strings is transitive.
pub proof fn lemma_text_lt_transitive(a: Seq<char>, b: Seq<char>, c: Seq<char>)
    requires
        text_lt(a, b),
        text_lt(b, c),
    ensures
        text_lt(a, c),
    decreases a.len(),
{
    if a.len() > 0 && b.len() > 0 && c.len() > 0 && a[0] == b[0] && b[0] == c[0] {
        lemma_text_lt_transitive(a.drop_first(), b.drop_first(), c.drop_first());
    }
}

/// Compares two strings in code-point order.
pub fn text_less(a: &str, b: &str) -> (r: bool)
    ensures
        r == text_lt(a@, b@),
{
    let x = crate::text::chars_of(a);
    let y = crate::text::chars_of(b);
    let mut i: usize = 0;
    assert(a@.skip(0) =~= a@);
    assert(b@.skip(0) =~= b@);
    while i < x.len() && i < y.len()
        invariant
            x@ == a@,
            y@ == b@,
            i <= x.len(),
            i <= y.len(),
            forall|k: int| 0 <= k < i ==> x@[k] == y@[k],
            text_lt(a@, b@) == text_lt(a@.skip(i as int), b@.skip(i as int)),
        decreases x.len() - i,
    {
        if x[i] != y[i] {
            let r = x[i] < y[i];
            assert(a@.skip(i as int)[0] == x@[i as int]);
            assert(b@.skip(i as int)[0] == y@[i as int]);
            return r;
        }
        assert(a@.skip(i as int).drop_first() =~= a@.skip(i + 1));
        assert(b@.skip(i as int).drop_first() =~= b@.skip(i + 1));
        i = i + 1;
    }
    i < y.len()
}

/// Inserts `x` into `s` just before the first element that is strictly
/// older than `x` (after every element at least as new).
pub open spec fn insert_newest_first(s: Seq<Notification>, x: Notification) -> Seq<Notification>
    decreases s.len(),
{
    if s.len() == 0 {
        seq![x]
    } else if s[0].timestamp >= x.timestamp {
        seq![s[0]] + insert_newest_first(s.drop_first(), x)
    } else {
        seq![x] + s
    }
}

/// The notifications sorted newest first; notifications with equal
/// timestamps keep their relative order (a stable sort).
pub open spec fn newest_first(s: Seq<Notification>) -> Seq<Notification>
    decreases s.len(),
{
    if s.len() == 0 {
        s
    } else {
        insert_newest_first(newest_first(s.drop_last()), s.last())
    }
}

/// Whether the notifications are ordered newest first.
pub open spec fn is_newest_first(s: Seq<Notification>) -> bool {
    forall|i: int, j: int| 0 <= i < j < s.len() ==> s[i].timestamp >= s[j].timestamp
}

/// Where `insert_newest_first` puts `x`: before the first strictly older element.
pub open spec fn is_insertion_point(s: Seq<Notification>, ts: i128, j: int) -> bool {
    &&& 0 <= j <= s.len()
    &&& forall|k: int| 0 <= k < j ==> s[k].timestamp >= ts
    &&& (j < s.len() ==> s[j].timestamp < ts)
}

/// Inserting at the insertion point is what `insert_newest_first` does.
pub proof fn lemma_insert_at_point(s: Seq<Notification>, x: Notification, j: int)
    requires
        is_insertion_point(s, x.timestamp, j),
    ensures
        insert_newest_first(s, x) == s.insert(j, x),
    decreases s.len(),
{
    if s.len() == 0 {
        assert(s.insert(j, x) =~= seq![x]);
    } else if j == 0 {
        assert(s.insert(0, x) =~= seq![x] + s);
    } else {
        let t = s.drop_first();
        assert(is_insertion_point(t, x.timestamp, j - 1)) by {
            assert forall|k: int| 0 <= k < j - 1 implies t[k].timestamp >= x.timestamp by {
                assert(t[k] == s[k + 1]);
            }
        }
        lemma_insert_at_point(t, x, j - 1);
        assert(s.insert(j, x) =~= seq![s[0]] + t.insert(j - 1, x));
    }
}

/// Inserting keeps the multiset of elements, adding `x`.
pub proof fn lemma_insert_newest_first_multiset(s: Seq<Notification>, x: Notification)
    ensures
        insert_newest_first(s, x).to_multiset() == s.to_multiset().insert(x),
    decreases s.len(),
{
    broadcast use vstd::seq_lib::group_to_multiset_ensures;
    if s.len() == 0 {
        assert(seq![x] =~= Seq::<Notification>::empty().push(x));
    } else if s[0].timestamp >= x.timestamp {
        lemma_insert_newest_first_multiset(s.drop_first(), x);
        vstd::seq_lib::lemma_multiset_commutative(seq![s[0]], insert_newest_first(s.drop_first(), x));
        vstd::seq_lib::lemma_multiset_commutative(seq![s[0]], s.drop_first());
        assert(s =~= seq![s[0]] + s.drop_first());
        assert(seq![s[0]] =~= Seq::<Notification>::empty().push(s[0]));
    } else {
        vstd::seq_lib::lemma_multiset_commutative(seq![x], s);
        assert(seq![x] =~= Seq::<Notification>::empty().push(x));
    }
}

/// Inserting into a newest-first sequence keeps it newest first.
pub proof fn lemma_insert_newest_first_sorted(s: Seq<Notification>, x: Notification)
    requires
        is_newest_first(s),
    ensures
        is_newest_first(insert_newest_first(s, x)),
        insert_newest_first(s, x).len() == s.len() + 1,
    decreases s.len(),
{
    if s.len() == 0 {
    } else if s[0].timestamp >= x.timestamp {
        let t = s.drop_first();
        lemma_insert_newest_first_sorted(t, x);
        lemma_insert_newest_first_multiset(t, x);
        let r = insert_newest_first(t, x);
        let full = seq![s[0]] + r;
        assert forall|i: int, j: int| 0 <= i < j < full.len() implies full[i].timestamp >= full[j].timestamp by {
            if i == 0 {
                let e = r[j - 1];
                assert(r.to_multiset().count(e) > 0) by {
                    assert(r.contains(e));
                    broadcast use vstd::seq_lib::group_to_multiset_ensures;
                }
                broadcast use vstd::seq_lib::group_to_multiset_ensures;
                assert(t.to_multiset().insert(x).count(e) > 0);
                if e != x {
                    assert(t.to_multiset().count(e) > 0);
                    assert(t.contains(e));
                    let k = choose|k: int| 0 <= k < t.len() && t[k] == e;
                    assert(s[k + 1] == e);
                }
            }
        }
    } else {
    }
}

/// The newest-first order holds a permutation of its argument, sorted.
pub proof fn lemma_newest_first_sorted_permutation(s: Seq<Notification>)
    ensures
        is_newest_first(newest_first(s)),
        newest_first(s).to_multiset() == s.to_multiset(),
        newest_first(s).len() == s.len(),
    decreases s.len(),
{
    broadcast use vstd::seq_lib::group_to_multiset_ensures;
    if s.len() > 0 {
        lemma_newest_first_sorted_permutation(s.drop_last());
        lemma_insert_newest_first_sorted(newest_first(s.drop_last()), s.last());
        lemma_insert_newest_first_multiset(newest_first(s.drop_last()), s.last());
        assert(s =~= s.drop_last().push(s.last()));
    }
}

/// The index at which a notification with timestamp `ts` is inserted.
pub fn insertion_point(s: &Vec<Notification>, ts: i128) -> (j: usize)
    ensures
        is_insertion_point(s@, ts, j as int),
{
    let mut j: usize = 0;
    while j < s.len()
        invariant
            j <= s.len(),
            forall|k: int| 0 <= k < j ==> s@[k].timestamp >= ts,
        decreases s.len() - j,
    {
        if s[j].timestamp < ts {
            return j;
        }
        j = j + 1;
    }
    j
}

/// Sorts notifications newest first, keeping the order of equal timestamps.
pub fn sort_newest_first(v: &Vec<Notification>) -> (r: Vec<Notification>)
    ensures
        r@ == newest_first(v@),
{
    let mut r: Vec<Notification> = Vec::new();
    let mut i: usize = 0;
    assert(v@.take(0) =~= Seq::<Notification>::empty());
    while i < v.len()
        invariant
            i <= v.len(),
            r@ == newest_first(v@.take(i as int)),
        decreases v.len() - i,
    {
        let x = v[i].duplicate();
        let j = insertion_point(&r, x.timestamp);
        proof {
            lemma_insert_at_point(r@, x, j as int);
            assert(v@.take(i + 1).drop_last() =~= v@.take(i as int));
        }
        r.insert(j, x);
        i = i + 1;
    }
    assert(v@.take(v.len() as int) =~= v@);
    r
}

} // verus!
