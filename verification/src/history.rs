//! Notification history: the in-memory store, its queries, and the limits
//! on its size and age. Reading and writing the history file is the
//! application's part; every operation here says whether the store changed.

use vstd::prelude::*;

use crate::clock::{
    cutoff_fits, cutoff_near, lemma_utc_day_of_split, local_day, now_and_cutoff, parse_uuid, parse_ymd_day, representable_nanos, split_nanos,
    utc_day, uuid_parse, ymd_day,
};
use crate::notification::{count_unread, duplicate_all, unread_in, Notification, Urgency};
use crate::order::{newest_first, sort_newest_first};
use crate::text::{contains_text, has_substring, lowercase, same_lowercase, to_lowercase};

verus! {

broadcast use vstd::seq::group_seq_axioms;

/// Notification history with a limit on its size and on the age of entries.
#[derive(Debug)]
pub struct HistoryStore {
    /// Path to the history file.
    path: String,
    /// The stored notifications, in the order they were stored.
    entries: Vec<Notification>,
    /// Maximum number of entries to retain.
    max_entries: u32,
    /// Days to keep entries before eviction.
    retention_days: u32,
}

/// The entries received at or after the cutoff, if there is one.
pub open spec fn retained(s: Seq<Notification>, cutoff: Option<i128>) -> Seq<Notification> {
    match cutoff {
        Some(c) => s.filter(|n: Notification| n.timestamp >= c),
        None => s,
    }
}

/// What the limits leave of `s`: the entries not older than the cutoff and,
/// where more than `max` are left, the `max` newest of them, newest first.
pub open spec fn apply_limits(s: Seq<Notification>, cutoff: Option<i128>, max: u32) -> Seq<Notification> {
    let kept = retained(s, cutoff);
    if kept.len() > max {
        newest_first(kept).take(max as int)
    } else {
        kept
    }
}

/// Whether the notification belongs to the application, ignoring case.
pub open spec fn app_matches(n: Notification, lower_app: Seq<char>) -> bool {
    lowercase(n.app_name@) == lower_app
}

/// The test of belonging to an application (lowercased name).
pub open spec fn of_app_named(lower_app: Seq<char>) -> spec_fn(Notification) -> bool {
    |n: Notification| app_matches(n, lower_app)
}

/// The test of not belonging to an application (lowercased name).
pub open spec fn not_of_app_named(lower_app: Seq<char>) -> spec_fn(Notification) -> bool {
    |n: Notification| !app_matches(n, lower_app)
}

/// The test of matching a lowercased query.
pub open spec fn matching_query(lower_query: Seq<char>) -> spec_fn(Notification) -> bool {
    |n: Notification| text_matches(n, lower_query)
}

/// Whether the notification's title or body contains the lowercased query,
/// ignoring case.
pub open spec fn text_matches(n: Notification, lower_query: Seq<char>) -> bool {
    has_substring(lowercase(n.title@), lower_query) || has_substring(lowercase(n.body@), lower_query)
}

/// The index of the first notification with the identifier, if any.
pub open spec fn first_with_id(s: Seq<Notification>, id: u128, j: int) -> bool {
    &&& 0 <= j < s.len()
    &&& s[j].id == id
    &&& forall|k: int| 0 <= k < j ==> s[k].id != id
}

/// Whether some notification has the identifier.
pub open spec fn has_id(s: Seq<Notification>, id: u128) -> bool {
    exists|k: int| 0 <= k < s.len() && #[trigger] s[k].id == id
}

/// The notifications with all marked read.
pub open spec fn all_read(s: Seq<Notification>) -> Seq<Notification> {
    s.map_values(|n: Notification| Notification { read: true, ..n })
}

/// How many notifications are not dismissed.
pub open spec fn active_in(s: Seq<Notification>) -> nat {
    s.filter(|n: Notification| !n.dismissed).len()
}

impl View for HistoryStore {
    type V = Seq<Notification>;

    closed spec fn view(&self) -> Seq<Notification> {
        self.entries@
    }
}

impl HistoryStore {
    /// The maximum number of entries kept.
    pub closed spec fn max(&self) -> u32 {
        self.max_entries
    }

    /// The number of days entries are kept.
    pub closed spec fn retention(&self) -> u32 {
        self.retention_days
    }

    /// The path of the history file.
    pub closed spec fn path_view(&self) -> Seq<char> {
        self.path@
    }

    /// Drops entries older than the cutoff, then keeps the `max_entries`
    /// newest if more are left.
    pub fn enforce_limits_with(&mut self, cutoff: Option<i128>)
        ensures
            final(self)@ == apply_limits(old(self)@, cutoff, old(self).max()),
            final(self).max() == old(self).max(),
            final(self).retention() == old(self).retention(),
            final(self).path_view() == old(self).path_view(),
    {
        let ghost s = self.entries@;
        if let Some(c) = cutoff {
            let mut kept: Vec<Notification> = Vec::new();
            let mut i: usize = 0;
            assert(s.take(0) =~= Seq::<Notification>::empty());
            while i < self.entries.len()
                invariant
                    self.entries@ == s,
                    i <= s.len(),
                    kept@ == s.take(i as int).filter(|n: Notification| n.timestamp >= c),
                decreases s.len() - i,
            {
                proof {
                    assert(s.take(i + 1) =~= s.take(i as int).push(s[i as int]));
                    s.take(i as int).lemma_filter_push(s[i as int], |n: Notification| n.timestamp >= c);
                }
                if self.entries[i].timestamp >= c {
                    kept.push(self.entries[i].duplicate());
                }
                i = i + 1;
            }
            assert(s.take(s.len() as int) =~= s);
            self.entries = kept;
        }
        let ghost kept = self.entries@;
        assert(kept == retained(s, cutoff));
        if self.entries.len() > self.max_entries as usize {
            let mut sorted = sort_newest_first(&self.entries);
            proof {
                crate::order::lemma_newest_first_sorted_permutation(kept);
            }
            sorted.truncate(self.max_entries as usize);
            self.entries = sorted;
        }
    }

    /// Enforces the limits as of now: the retention cutoff is read from the
    /// clock.
    fn enforce_limits(&mut self)
        ensures
            exists|now: i128, c: Option<i128>| cutoff_fits(now, c, old(self).retention()) && cutoff_near(now, c, old(self).retention())
                && final(self)@ == apply_limits(old(self)@, c, old(self).max()),
            final(self).max() == old(self).max(),
            final(self).retention() == old(self).retention(),
            final(self).path_view() == old(self).path_view(),
    {
        let (now, cutoff) = now_and_cutoff(self.retention_days);
        self.enforce_limits_with(cutoff);
        assert(cutoff_fits(now, cutoff, old(self).retention()) && cutoff_near(now, cutoff, old(self).retention()) && final(self)@ == apply_limits(old(self)@, cutoff, old(self).max()));
    }

    /// A store holding the given entries, with the limits applied as of the
    /// given retention cutoff.
    pub fn from_entries_with(path: &str, entries: Vec<Notification>, max_entries: u32, retention_days: u32, cutoff: Option<i128>) -> (store: HistoryStore)
        ensures
            store@ == apply_limits(entries@, cutoff, max_entries),
            store.max() == max_entries,
            store.retention() == retention_days,
            store.path_view() == path@,
    {
        let mut store = HistoryStore { path: String::from_str(path), entries, max_entries, retention_days };
        store.enforce_limits_with(cutoff);
        store
    }

    /// A store holding the given entries (as read from the history file),
    /// with the limits applied as of now.
    pub fn from_entries(path: &str, entries: Vec<Notification>, max_entries: u32, retention_days: u32) -> (store: HistoryStore)
        ensures
            exists|now: i128, c: Option<i128>| cutoff_fits(now, c, retention_days) && cutoff_near(now, c, retention_days)
                && store@ == apply_limits(entries@, c, max_entries),
            store.max() == max_entries,
            store.retention() == retention_days,
            store.path_view() == path@,
    {
        let (now, cutoff) = now_and_cutoff(retention_days);
        let store = HistoryStore::from_entries_with(path, entries, max_entries, retention_days, cutoff);
        assert(cutoff_fits(now, cutoff, retention_days) && cutoff_near(now, cutoff, retention_days) && store@ == apply_limits(entries@, cutoff, max_entries));
        store
    }

    /// Adds a notification, then applies the limits as of the given cutoff.
    pub fn push_with(&mut self, notification: Notification, cutoff: Option<i128>)
        ensures
            final(self)@ == apply_limits(old(self)@.push(notification), cutoff, old(self).max()),
            final(self).max() == old(self).max(),
            final(self).retention() == old(self).retention(),
            final(self).path_view() == old(self).path_view(),
    {
        self.entries.push(notification);
        self.enforce_limits_with(cutoff);
    }

    /// Add a notification to history, then apply the limits as of now.
    pub fn push(&mut self, notification: Notification)
        ensures
            exists|now: i128, c: Option<i128>| cutoff_fits(now, c, old(self).retention()) && cutoff_near(now, c, old(self).retention())
                && final(self)@ == apply_limits(old(self)@.push(notification), c, old(self).max()),
            final(self).max() == old(self).max(),
            final(self).retention() == old(self).retention(),
            final(self).path_view() == old(self).path_view(),
    {
        let (now, cutoff) = now_and_cutoff(self.retention_days);
        self.push_with(notification, cutoff);
        assert(cutoff_fits(now, cutoff, old(self).retention()) && cutoff_near(now, cutoff, old(self).retention())
            && final(self)@ == apply_limits(old(self)@.push(notification), cutoff, old(self).max()));
    }

    /// Get all notifications (newest first).
    pub fn all(&self) -> (r: Vec<Notification>)
        ensures
            r@ == newest_first(self@),
    {
        sort_newest_first(&self.entries)
    }

    /// Get the N most recent notifications.
    pub fn recent(&self, limit: usize) -> (r: Vec<Notification>)
        ensures
            r@ == newest_first(self@).take(if limit < self@.len() { limit as int } else { self@.len() as int }),
    {
        let mut all = self.all();
        proof {
            crate::order::lemma_newest_first_sorted_permutation(self@);
        }
        all.truncate(limit);
        all
    }

    /// Query notifications by app name (case-insensitive), newest first.
    pub fn by_app(&self, app_name: &str) -> (r: Vec<Notification>)
        ensures
            r@ == newest_first(self@).filter(of_app_named(lowercase(app_name@))),
    {
        let lower = to_lowercase(app_name);
        let all = self.all();
        let ghost s = all@;
        let ghost pred = of_app_named(lowercase(app_name@));
        let mut r: Vec<Notification> = Vec::new();
        let mut i: usize = 0;
        assert(s.take(0) =~= Seq::<Notification>::empty());
        while i < all.len()
            invariant
                all@ == s,
                lower@ == lowercase(app_name@),
                pred == of_app_named(lowercase(app_name@)),
                i <= s.len(),
                r@ == s.take(i as int).filter(pred),
            decreases s.len() - i,
        {
            proof {
                assert(s.take(i + 1) =~= s.take(i as int).push(s[i as int]));
                s.take(i as int).lemma_filter_push(s[i as int], pred);
            }
            if same_lowercase(all[i].app_name.as_str(), &lower) {
                r.push(all[i].duplicate());
            }
            i = i + 1;
        }
        assert(s.take(s.len() as int) =~= s);
        r
    }

    /// Query notifications by urgency level, newest first.
    pub fn by_urgency(&self, urgency: Urgency) -> (r: Vec<Notification>)
        ensures
            r@ == newest_first(self@).filter(|n: Notification| n.urgency == urgency),
    {
        let all = self.all();
        let ghost s = all@;
        let ghost pred = |n: Notification| n.urgency == urgency;
        let mut r: Vec<Notification> = Vec::new();
        let mut i: usize = 0;
        assert(s.take(0) =~= Seq::<Notification>::empty());
        while i < all.len()
            invariant
                all@ == s,
                pred == (|n: Notification| n.urgency == urgency),
                i <= s.len(),
                r@ == s.take(i as int).filter(pred),
            decreases s.len() - i,
        {
            proof {
                assert(s.take(i + 1) =~= s.take(i as int).push(s[i as int]));
                s.take(i as int).lemma_filter_push(s[i as int], pred);
            }
            if all[i].urgency == urgency {
                r.push(all[i].duplicate());
            }
            i = i + 1;
        }
        assert(s.take(s.len() as int) =~= s);
        r
    }

    /// Full-text search across title and body (case-insensitive), newest first.
    pub fn search(&self, query: &str) -> (r: Vec<Notification>)
        ensures
            r@ == newest_first(self@).filter(matching_query(lowercase(query@))),
    {
        let lower = to_lowercase(query);
        let all = self.all();
        let ghost s = all@;
        let ghost pred = matching_query(lowercase(query@));
        let mut r: Vec<Notification> = Vec::new();
        let mut i: usize = 0;
        assert(s.take(0) =~= Seq::<Notification>::empty());
        while i < all.len()
            invariant
                all@ == s,
                lower@ == lowercase(query@),
                pred == matching_query(lowercase(query@)),
                i <= s.len(),
                r@ == s.take(i as int).filter(pred),
            decreases s.len() - i,
        {
            proof {
                assert(s.take(i + 1) =~= s.take(i as int).push(s[i as int]));
                s.take(i as int).lemma_filter_push(s[i as int], pred);
            }
            let title = to_lowercase(all[i].title.as_str());
            let body = to_lowercase(all[i].body.as_str());
            if contains_text(title.as_str(), lower.as_str()) || contains_text(body.as_str(), lower.as_str()) {
                r.push(all[i].duplicate());
            }
            i = i + 1;
        }
        assert(s.take(s.len() as int) =~= s);
        r
    }

    /// Finds the first entry with the identifier.
    fn position_of(&self, id: u128) -> (r: Option<usize>)
        ensures
            r matches Some(j) ==> first_with_id(self@, id, j as int),
            r is None ==> !has_id(self@, id),
    {
        let mut j: usize = 0;
        while j < self.entries.len()
            invariant
                j <= self.entries.len(),
                forall|k: int| 0 <= k < j ==> self.entries@[k].id != id,
            decreases self.entries.len() - j,
        {
            if self.entries[j].id == id {
                return Some(j);
            }
            j = j + 1;
        }
        None
    }

    /// Mark a notification as read by ID; says whether one was found.
    pub fn mark_read(&mut self, id: u128) -> (found: bool)
        ensures
            found == has_id(old(self)@, id),
            found ==> exists|j: int| first_with_id(old(self)@, id, j) && final(self)@ == old(self)@.update(j, Notification { read: true, ..old(self)@[j] }),
            !found ==> final(self)@ == old(self)@,
            final(self).max() == old(self).max(),
            final(self).retention() == old(self).retention(),
            final(self).path_view() == old(self).path_view(),
    {
        match self.position_of(id) {
            Some(j) => {
                let mut n = self.entries[j].duplicate();
                n.read = true;
                self.entries.set(j, n);
                true
            }
            None => false,
        }
    }

    /// Mark all notifications as read; returns how many were unread.
    pub fn mark_all_read(&mut self) -> (count: usize)
        ensures
            count == unread_in(old(self)@),
            final(self)@ == all_read(old(self)@),
            final(self).max() == old(self).max(),
            final(self).retention() == old(self).retention(),
            final(self).path_view() == old(self).path_view(),
    {
        let ghost s = self.entries@;
        let count = count_unread(self.entries.as_slice());
        let mut i: usize = 0;
        while i < self.entries.len()
            invariant
                self.entries.len() == s.len(),
                self.max_entries == old(self).max_entries,
                self.retention_days == old(self).retention_days,
                self.path == old(self).path,
                i <= s.len(),
                forall|k: int| 0 <= k < i ==> #[trigger] self.entries@[k] == (Notification { read: true, ..s[k] }),
                forall|k: int| i <= k < s.len() ==> #[trigger] self.entries@[k] == s[k],
            decreases s.len() - i,
        {
            let mut n = self.entries[i].duplicate();
            n.read = true;
            self.entries.set(i, n);
            i = i + 1;
        }
        assert(self.entries@ =~= all_read(s));
        count
    }

    /// Dismiss a notification by ID; says whether one was found.
    pub fn dismiss(&mut self, id: u128) -> (found: bool)
        ensures
            found == has_id(old(self)@, id),
            found ==> exists|j: int| first_with_id(old(self)@, id, j) && final(self)@ == old(self)@.update(j, Notification { dismissed: true, ..old(self)@[j] }),
            !found ==> final(self)@ == old(self)@,
            final(self).max() == old(self).max(),
            final(self).retention() == old(self).retention(),
            final(self).path_view() == old(self).path_view(),
    {
        match self.position_of(id) {
            Some(j) => {
                let mut n = self.entries[j].duplicate();
                n.dismissed = true;
                self.entries.set(j, n);
                true
            }
            None => false,
        }
    }

    /// Remove every entry with the ID; says whether any was removed.
    pub fn remove(&mut self, id: u128) -> (removed: bool)
        ensures
            final(self)@ == old(self)@.filter(|n: Notification| n.id != id),
            removed == has_id(old(self)@, id),
            final(self).max() == old(self).max(),
            final(self).retention() == old(self).retention(),
            final(self).path_view() == old(self).path_view(),
    {
        let ghost s = self.entries@;
        let ghost pred = |n: Notification| n.id != id;
        let mut kept: Vec<Notification> = Vec::new();
        let mut removed = false;
        let mut i: usize = 0;
        assert(s.take(0) =~= Seq::<Notification>::empty());
        while i < self.entries.len()
            invariant
                self.entries@ == s,
                pred == (|n: Notification| n.id != id),
                i <= s.len(),
                kept@ == s.take(i as int).filter(pred),
                removed == has_id(s.take(i as int), id),
            decreases s.len() - i,
        {
            proof {
                assert(s.take(i + 1) =~= s.take(i as int).push(s[i as int]));
                s.take(i as int).lemma_filter_push(s[i as int], pred);
                if has_id(s.take(i as int), id) {
                    let k = choose|k: int| 0 <= k < s.take(i as int).len() && #[trigger] s.take(i as int)[k].id == id;
                    assert(s.take(i + 1)[k].id == id);
                }
                if s[i as int].id == id {
                    assert(s.take(i + 1)[i as int].id == id);
                }
                if has_id(s.take(i + 1), id) && s[i as int].id != id {
                    let k = choose|k: int| 0 <= k < s.take(i + 1).len() && #[trigger] s.take(i + 1)[k].id == id;
                    assert(s.take(i as int)[k].id == id);
                }
            }
            if self.entries[i].id != id {
                kept.push(self.entries[i].duplicate());
            } else {
                removed = true;
            }
            i = i + 1;
        }
        assert(s.take(s.len() as int) =~= s);
        self.entries = kept;
        removed
    }

    /// Clear all history entries.
    pub fn clear(&mut self)
        ensures
            final(self)@ == Seq::<Notification>::empty(),
            final(self).max() == old(self).max(),
            final(self).retention() == old(self).retention(),
            final(self).path_view() == old(self).path_view(),
    {
        self.entries.clear();
    }

    /// Clear history for a specific app (case-insensitive); returns how many
    /// entries were removed.
    pub fn clear_app(&mut self, app_name: &str) -> (removed: usize)
        ensures
            final(self)@ == old(self)@.filter(not_of_app_named(lowercase(app_name@))),
            removed == old(self)@.len() - final(self)@.len(),
            final(self).max() == old(self).max(),
            final(self).retention() == old(self).retention(),
            final(self).path_view() == old(self).path_view(),
    {
        let lower = to_lowercase(app_name);
        let ghost s = self.entries@;
        let ghost pred = not_of_app_named(lowercase(app_name@));
        let mut kept: Vec<Notification> = Vec::new();
        let mut i: usize = 0;
        assert(s.take(0) =~= Seq::<Notification>::empty());
        while i < self.entries.len()
            invariant
                self.entries@ == s,
                lower@ == lowercase(app_name@),
                pred == not_of_app_named(lowercase(app_name@)),
                i <= s.len(),
                kept@ == s.take(i as int).filter(pred),
                kept.len() <= i,
            decreases s.len() - i,
        {
            proof {
                assert(s.take(i + 1) =~= s.take(i as int).push(s[i as int]));
                s.take(i as int).lemma_filter_push(s[i as int], pred);
            }
            if !same_lowercase(self.entries[i].app_name.as_str(), &lower) {
                kept.push(self.entries[i].duplicate());
            }
            i = i + 1;
        }
        assert(s.take(s.len() as int) =~= s);
        let removed = self.entries.len() - kept.len();
        self.entries = kept;
        removed
    }

    /// Total entry count.
    pub fn len(&self) -> (n: usize)
        ensures
            n == self@.len(),
    {
        self.entries.len()
    }

    /// Whether the store is empty.
    pub fn is_empty(&self) -> (b: bool)
        ensures
            b == (self@.len() == 0),
    {
        self.entries.len() == 0
    }

    /// Count of unread notifications.
    pub fn unread_count(&self) -> (n: usize)
        ensures
            n == unread_in(self@),
    {
        count_unread(self.entries.as_slice())
    }

    /// Count of undismissed (active) notifications.
    pub fn active_count(&self) -> (c: usize)
        ensures
            c == active_in(self@),
    {
        let ghost s = self.entries@;
        let mut c: usize = 0;
        let mut i: usize = 0;
        assert(s.take(0) =~= Seq::<Notification>::empty());
        while i < self.entries.len()
            invariant
                self.entries@ == s,
                i <= s.len(),
                c == active_in(s.take(i as int)),
                c <= i,
            decreases s.len() - i,
        {
            proof {
                assert(s.take(i + 1) =~= s.take(i as int).push(s[i as int]));
                s.take(i as int).lemma_filter_push(s[i as int], |n: Notification| !n.dismissed);
            }
            if !self.entries[i].dismissed {
                c = c + 1;
            }
            i = i + 1;
        }
        assert(s.take(s.len() as int) =~= s);
        c
    }

    /// The number of days entries are kept.
    pub fn retention_days_value(&self) -> (d: u32)
        ensures
            d == self.retention(),
    {
        self.retention_days
    }

    /// Path to the history file.
    pub fn path(&self) -> (p: &str)
        ensures
            p@ == self.path_view(),
    {
        self.path.as_str()
    }

    /// The entries as stored, for writing to the history file.
    pub fn entries(&self) -> (r: Vec<Notification>)
        ensures
            r@ == self@,
    {
        duplicate_all(&self.entries)
    }
}

/// The notifications whose local day (given alongside, as a day number) is
/// on or after `since`, in their order.
pub open spec fn received_since(ns: Seq<Notification>, days: Seq<i32>, since: i32) -> Seq<Notification>
    decreases ns.len(),
{
    if ns.len() == 0 || days.len() == 0 {
        seq![]
    } else {
        (if days[0] >= since { seq![ns[0]] } else { seq![] }) + received_since(ns.drop_first(), days.drop_first(), since)
    }
}

/// A notification is among those received since a day exactly when it
/// stands in the sequence with a day number on or after that day.
proof fn lemma_received_since_contains(ns: Seq<Notification>, days: Seq<i32>, since: i32, x: Notification)
    requires
        days.len() == ns.len(),
    ensures
        received_since(ns, days, since).contains(x)
            <==> exists|j: int| 0 <= j < ns.len() && ns[j] == x && days[j] >= since,
    decreases ns.len(),
{
    if ns.len() > 0 {
        let head: Seq<Notification> = if days[0] >= since { seq![ns[0]] } else { seq![] };
        let rest = received_since(ns.drop_first(), days.drop_first(), since);
        lemma_received_since_contains(ns.drop_first(), days.drop_first(), since, x);
        assert(received_since(ns, days, since) == head + rest);
        if (head + rest).contains(x) {
            let k = choose|k: int| 0 <= k < (head + rest).len() && (head + rest)[k] == x;
            if k < head.len() {
                assert(ns[0] == x && days[0] >= since);
            } else {
                assert(rest[k - head.len()] == x);
                assert(rest.contains(x));
                let j = choose|j: int| 0 <= j < ns.drop_first().len() && ns.drop_first()[j] == x
                    && days.drop_first()[j] >= since;
                assert(ns[j + 1] == x && days[j + 1] >= since);
            }
        }
        if exists|j: int| 0 <= j < ns.len() && ns[j] == x && days[j] >= since {
            let j = choose|j: int| 0 <= j < ns.len() && ns[j] == x && days[j] >= since;
            if j == 0 {
                assert((head + rest)[0] == x);
            } else {
                assert(ns.drop_first()[j - 1] == x && days.drop_first()[j - 1] >= since);
                assert(rest.contains(x));
                let k = choose|k: int| 0 <= k < rest.len() && rest[k] == x;
                assert((head + rest)[head.len() + k] == x);
            }
            assert((head + rest).contains(x));
        }
    }
}

/// Whatever the machine's time zone, filtering by the day `since` keeps
/// every notification received on the UTC day after `since` or later, and
/// drops every one received two UTC days before `since` or earlier; in
/// between, the local day decides. The day numbers are those that
/// `history_page` promises.
pub proof fn law_since_by_utc_day(ns: Seq<Notification>, days: Seq<i32>, since: i32)
    requires
        days_near_utc(ns, days),
    ensures
        forall|i: int| 0 <= i < ns.len() && representable_nanos(ns[i].timestamp)
            && utc_day(ns[i].timestamp as int) >= since + 1
            ==> #[trigger] received_since(ns, days, since).contains(ns[i]),
        forall|i: int| 0 <= i < ns.len() && representable_nanos(ns[i].timestamp)
            && utc_day(ns[i].timestamp as int) <= since - 2
            ==> !#[trigger] received_since(ns, days, since).contains(ns[i]),
{
    assert forall|i: int| 0 <= i < ns.len() && representable_nanos(ns[i].timestamp)
        && utc_day(ns[i].timestamp as int) >= since + 1
        implies #[trigger] received_since(ns, days, since).contains(ns[i]) by {
        lemma_received_since_contains(ns, days, since, ns[i]);
    }
    assert forall|i: int| 0 <= i < ns.len() && representable_nanos(ns[i].timestamp)
        && utc_day(ns[i].timestamp as int) <= since - 2
        implies !#[trigger] received_since(ns, days, since).contains(ns[i]) by {
        lemma_received_since_contains(ns, days, since, ns[i]);
        if exists|j: int| 0 <= j < ns.len() && ns[j] == ns[i] && days[j] >= since {
            let j = choose|j: int| 0 <= j < ns.len() && ns[j] == ns[i] && days[j] >= since;
            assert(representable_nanos(ns[j].timestamp));
        }
    }
}

/// Keeps the notifications received on or after the day `since`; `days`
/// holds each notification's local day number.
pub fn on_or_after(ns: &[Notification], days: &[i32], since: i32) -> (r: Vec<Notification>)
    requires
        ns@.len() == days@.len(),
    ensures
        r@ == received_since(ns@, days@, since),
{
    let mut r: Vec<Notification> = Vec::new();
    let mut k: usize = 0;
    assert(ns@.skip(0) =~= ns@);
    assert(days@.skip(0) =~= days@);
    assert(r@ + received_since(ns@, days@, since) =~= received_since(ns@, days@, since));
    while k < ns.len()
        invariant
            k <= ns@.len(),
            ns@.len() == days@.len(),
            received_since(ns@, days@, since) == r@ + received_since(ns@.skip(k as int), days@.skip(k as int), since),
        decreases ns@.len() - k,
    {
        proof {
            let a = ns@.skip(k as int);
            let b = days@.skip(k as int);
            assert(a.drop_first() =~= ns@.skip(k + 1));
            assert(b.drop_first() =~= days@.skip(k + 1));
            assert(a[0] == ns@[k as int]);
            assert(b[0] == days@[k as int]);
        }
        let ghost before = r@;
        if days[k] >= since {
            r.push(ns[k].duplicate());
            proof {
                assert(before + received_since(ns@.skip(k as int), days@.skip(k as int), since)
                    =~= r@ + received_since(ns@.skip(k + 1), days@.skip(k + 1), since));
            }
        } else {
            proof {
                assert(before + received_since(ns@.skip(k as int), days@.skip(k as int), since)
                    =~= r@ + received_since(ns@.skip(k + 1), days@.skip(k + 1), since));
            }
        }
        k = k + 1;
    }
    proof {
        assert(ns@.skip(k as int).len() == 0);
        assert(r@ + received_since(ns@.skip(k as int), days@.skip(k as int), since) =~= r@);
    }
    r
}

/// A page of the history: the notifications of an application (ignoring
/// case) or all of them, newest first, at most `limit` of them.
pub open spec fn page_of(s: Seq<Notification>, app: Option<Seq<char>>, limit: usize) -> Seq<Notification> {
    let all = newest_first(s);
    let chosen = match app {
        Some(a) => all.filter(of_app_named(lowercase(a))),
        None => all,
    };
    chosen.take(if limit < chosen.len() { limit as int } else { chosen.len() as int })
}

/// The view of an optional text.
pub open spec fn opt_text(t: Option<&str>) -> Option<Seq<char>> {
    match t {
        Some(v) => Some(v@),
        None => None,
    }
}

/// A page of the history: an application's notifications or all of them,
/// newest first, at most `limit`.
pub fn page(store: &HistoryStore, app: Option<&str>, limit: usize) -> (r: Vec<Notification>)
    ensures
        r@ == page_of(store@, opt_text(app), limit),
{
    match app {
        Some(a) => {
            let mut v = store.by_app(a);
            let ghost before = v@;
            v.truncate(limit);
            proof {
                if limit < before.len() {
                    assert(v@ =~= before.take(limit as int));
                } else {
                    assert(v@ =~= before.take(before.len() as int));
                }
            }
            v
        },
        None => {
            proof {
                crate::order::lemma_newest_first_sorted_permutation(store@);
            }
            store.recent(limit)
        },
    }
}

/// What the history command shows without the daemon: an application's
/// notifications (ignoring case), or the `limit` most recent, or all when
/// the limit is 0; newest first.
pub open spec fn listing_of(s: Seq<Notification>, app: Option<Seq<char>>, limit: usize) -> Seq<Notification> {
    let all = newest_first(s);
    match app {
        Some(a) => all.filter(of_app_named(lowercase(a))),
        None => if limit > 0 {
            all.take(if limit < s.len() { limit as int } else { s.len() as int })
        } else {
            all
        },
    }
}

/// The notifications the history command shows without the daemon.
pub fn listing(store: &HistoryStore, app: Option<&str>, limit: usize) -> (r: Vec<Notification>)
    ensures
        r@ == listing_of(store@, opt_text(app), limit),
{
    match app {
        Some(a) => store.by_app(a),
        None => if limit > 0 {
            store.recent(limit)
        } else {
            store.all()
        },
    }
}

/// Each day number lies within a day of the UTC day of its notification,
/// wherever chrono can represent the notification's instant.
pub open spec fn days_near_utc(ns: Seq<Notification>, days: Seq<i32>) -> bool {
    &&& days.len() == ns.len()
    &&& forall|i: int| 0 <= i < ns.len() && #[trigger] representable_nanos(ns[i].timestamp)
        ==> utc_day(ns[i].timestamp as int) - 1 <= days[i] <= utc_day(ns[i].timestamp as int) + 1
}

/// A page of the history, and where `since` is a `YYYY-MM-DD` date, only
/// the notifications of the page received on that local day or later. The
/// local day of each notification is read in the machine's time zone, so
/// it is within a day of the notification's UTC day.
pub fn history_page(store: &HistoryStore, app: Option<&str>, limit: usize, since: Option<&str>) -> (r: Vec<Notification>)
    ensures
        (since matches Some(t) && ymd_day(t@) is Some) ==> exists|days: Seq<i32>|
            days_near_utc(page_of(store@, opt_text(app), limit), days)
                && r@ == received_since(page_of(store@, opt_text(app), limit), days, ymd_day(since->Some_0@)->Some_0),
        !(since matches Some(t) && ymd_day(t@) is Some) ==> r@ == page_of(store@, opt_text(app), limit),
{
    let p = page(store, app, limit);
    match since {
        None => p,
        Some(t) => match parse_ymd_day(t) {
            None => p,
            Some(d) => {
                let mut days: Vec<i32> = Vec::new();
                let mut i: usize = 0;
                while i < p.len()
                    invariant
                        i <= p.len(),
                        days@.len() == i,
                        forall|j: int| 0 <= j < i && #[trigger] representable_nanos(p@[j].timestamp)
                            ==> utc_day(p@[j].timestamp as int) - 1 <= days@[j] <= utc_day(p@[j].timestamp as int) + 1,
                    decreases p.len() - i,
                {
                    let day = match split_nanos(p[i].timestamp) {
                        Some((secs, nanos)) => {
                            proof {
                                lemma_utc_day_of_split(secs as int, nanos as int);
                            }
                            match local_day(secs, nanos) {
                                Some(v) => v,
                                None => i32::MIN,
                            }
                        },
                        None => i32::MIN,
                    };
                    days.push(day);
                    i = i + 1;
                }
                assert(days_near_utc(p@, days@));
                on_or_after(p.as_slice(), days.as_slice(), d)
            },
        },
    }
}

/// Dismisses the notification whose identifier is given as text.
pub fn dismiss_text(store: &mut HistoryStore, id: &str) -> (r: Result<bool, String>)
    ensures
        final(store).max() == old(store).max(),
        final(store).retention() == old(store).retention(),
        final(store).path_view() == old(store).path_view(),
        match uuid_parse(id@) {
            Err(e) => (r matches Err(m) && m@ == "Invalid UUID: "@ + e) && final(store)@ == old(store)@,
            Ok(u) => {
                &&& r == Ok::<bool, String>(has_id(old(store)@, u))
                &&& has_id(old(store)@, u) ==> exists|j: int| first_with_id(old(store)@, u, j)
                    && final(store)@ == old(store)@.update(j, Notification { dismissed: true, ..old(store)@[j] })
                &&& !has_id(old(store)@, u) ==> final(store)@ == old(store)@
            },
        },
{
    match parse_uuid(id) {
        Ok(u) => Ok(store.dismiss(u)),
        Err(e) => Err(String::from_str("Invalid UUID: ").concat(e.as_str())),
    }
}

/// The history never holds more than its maximum number of entries once the
/// limits are applied.
pub proof fn law_limits_bound_size(s: Seq<Notification>, cutoff: Option<i128>, max: u32)
    ensures
        apply_limits(s, cutoff, max).len() <= max,
{
    let kept = retained(s, cutoff);
    if kept.len() > max {
        crate::order::lemma_newest_first_sorted_permutation(kept);
    }
}

/// No entry older than the retention cutoff survives the limits.
pub proof fn law_limits_drop_old(s: Seq<Notification>, cutoff: i128, max: u32)
    ensures
        forall|i: int| 0 <= i < apply_limits(s, Some(cutoff), max).len()
            ==> #[trigger] apply_limits(s, Some(cutoff), max)[i].timestamp >= cutoff,
{
    broadcast use vstd::seq_lib::group_filter_ensures;
    broadcast use vstd::seq_lib::group_to_multiset_ensures;
    let kept = retained(s, Some(cutoff));
    let r = apply_limits(s, Some(cutoff), max);
    if kept.len() > max {
        crate::order::lemma_newest_first_sorted_permutation(kept);
        let sorted = newest_first(kept);
        assert forall|i: int| 0 <= i < r.len() implies #[trigger] r[i].timestamp >= cutoff by {
            assert(r[i] == sorted[i]);
            assert(sorted.to_multiset().count(sorted[i]) > 0);
            assert(kept.contains(sorted[i]));
        }
    }
}

/// Entries within the retention period are kept, up to the maximum; when
/// some must go, every kept entry is at least as new as every dropped one.
pub proof fn law_limits_keep_newest(s: Seq<Notification>, cutoff: Option<i128>, max: u32, x: Notification, y: Notification)
    requires
        apply_limits(s, cutoff, max).contains(x),
        retained(s, cutoff).contains(y),
        !apply_limits(s, cutoff, max).contains(y),
    ensures
        x.timestamp >= y.timestamp,
{
    broadcast use vstd::seq_lib::group_to_multiset_ensures;
    let kept = retained(s, cutoff);
    crate::order::lemma_newest_first_sorted_permutation(kept);
    let sorted = newest_first(kept);
    let r = apply_limits(s, cutoff, max);
    assert(kept.len() > max);
    let i = choose|i: int| 0 <= i < r.len() && r[i] == x;
    assert(kept.to_multiset().count(y) > 0);
    assert(sorted.contains(y));
    let j = choose|j: int| 0 <= j < sorted.len() && sorted[j] == y;
    if j < max {
        assert(r[j] == y);
    }
    assert(sorted[i] == x);
}

/// Marking everything read leaves nothing unread, and changes nothing but
/// the read flags.
pub proof fn law_all_read_leaves_none_unread(s: Seq<Notification>)
    ensures
        unread_in(all_read(s)) == 0,
        all_read(s).len() == s.len(),
        forall|i: int| 0 <= i < s.len() ==> (#[trigger] all_read(s)[i]) == (Notification { read: true, ..s[i] }),
{
    let r = all_read(s);
    let pred = |n: Notification| crate::notification::is_unread(n);
    assert forall|i: int| 0 <= i < r.len() implies !pred(#[trigger] r[i]) by {}
    r.lemma_all_neg_filter_empty(pred);
}

/// Removing an identifier leaves no entry with it and keeps every other
/// entry, in order.
pub proof fn law_remove_leaves_no_id(s: Seq<Notification>, id: u128)
    ensures
        !has_id(s.filter(|n: Notification| n.id != id), id),
        forall|x: Notification| #[trigger] s.contains(x) && x.id != id ==> s.filter(|n: Notification| n.id != id).contains(x),
{
    broadcast use vstd::seq_lib::group_filter_ensures;
    let r = s.filter(|n: Notification| n.id != id);
    assert forall|k: int| 0 <= k < r.len() implies #[trigger] r[k].id != id by {}
    assert forall|x: Notification| #[trigger] s.contains(x) && x.id != id implies r.contains(x) by {
        let k = choose|k: int| 0 <= k < s.len() && s[k] == x;
        assert(s[k].id != id);
    }
}

/// Clearing an application leaves none of its notifications (by name,
/// ignoring case) and keeps every other one.
pub proof fn law_clear_app_leaves_none(s: Seq<Notification>, lower_app: Seq<char>)
    ensures
        forall|k: int| 0 <= k < s.filter(not_of_app_named(lower_app)).len()
            ==> !app_matches(#[trigger] s.filter(not_of_app_named(lower_app))[k], lower_app),
        forall|x: Notification| #[trigger] s.contains(x) && !app_matches(x, lower_app)
            ==> s.filter(not_of_app_named(lower_app)).contains(x),
{
    broadcast use vstd::seq_lib::group_filter_ensures;
    let p = not_of_app_named(lower_app);
    let r = s.filter(p);
    assert forall|k: int| 0 <= k < r.len() implies !app_matches(#[trigger] r[k], lower_app) by {
        assert(p(r[k]));
    }
    assert forall|x: Notification| #[trigger] s.contains(x) && !app_matches(x, lower_app) implies r.contains(x) by {
        let k = choose|k: int| 0 <= k < s.len() && s[k] == x;
        assert(p(s[k]));
    }
}

/// Every listing of the history comes newest first and holds exactly the
/// stored entries.
pub proof fn law_listing_newest_first(s: Seq<Notification>)
    ensures
        crate::order::is_newest_first(newest_first(s)),
        newest_first(s).to_multiset() == s.to_multiset(),
{
    crate::order::lemma_newest_first_sorted_permutation(s);
}

/// Filtering a list whose every element passes leaves it as it is.
proof fn lemma_filter_keeps_all(s: Seq<Notification>, c: i128)
    requires
        forall|i: int| 0 <= i < s.len() ==> (#[trigger] s[i]).timestamp >= c,
    ensures
        s.filter(|n: Notification| n.timestamp >= c) == s,
    decreases s.len(),
{
    if s.len() > 0 {
        let t = s.drop_last();
        assert forall|i: int| 0 <= i < t.len() implies (#[trigger] t[i]).timestamp >= c by {
            assert(t[i] == s[i]);
        }
        lemma_filter_keeps_all(t, c);
        assert(s =~= t.push(s.last()));
        t.lemma_filter_push(s.last(), |n: Notification| n.timestamp >= c);
        assert(s.last() == s[s.len() - 1]);
    }
}

/// Applying the limits again, as of the same cutoff, changes nothing: a
/// history written out under its limits reads back the same.
pub proof fn law_limits_idempotent(s: Seq<Notification>, cutoff: Option<i128>, max: u32)
    ensures
        apply_limits(apply_limits(s, cutoff, max), cutoff, max) == apply_limits(s, cutoff, max),
{
    let r = apply_limits(s, cutoff, max);
    law_limits_bound_size(s, cutoff, max);
    match cutoff {
        Some(c) => {
            law_limits_drop_old(s, c, max);
            lemma_filter_keeps_all(r, c);
            assert(retained(r, cutoff) == r);
        },
        None => {},
    }
}

/// A notification newer than every entry, received at or after the
/// retention cutoff, survives the limits when at least one entry may stay.
proof fn lemma_newest_entry_kept(s: Seq<Notification>, n: Notification, cutoff: Option<i128>, max: u32)
    requires
        max >= 1,
        cutoff matches Some(c) ==> c <= n.timestamp,
        forall|i: int| 0 <= i < s.len() ==> (#[trigger] s[i]).timestamp < n.timestamp,
    ensures
        apply_limits(s.push(n), cutoff, max).contains(n),
{
    broadcast use vstd::seq_lib::group_filter_ensures;
    broadcast use vstd::seq_lib::group_to_multiset_ensures;
    let kept = retained(s.push(n), cutoff);
    let f = kept.drop_last();
    match cutoff {
        Some(c) => {
            s.lemma_filter_push(n, |m: Notification| m.timestamp >= c);
            assert(kept == s.filter(|m: Notification| m.timestamp >= c).push(n));
            assert forall|i: int| 0 <= i < f.len() implies (#[trigger] f[i]).timestamp < n.timestamp by {
                assert(f[i] == kept[i]);
                assert(s.filter(|m: Notification| m.timestamp >= c).contains(f[i]));
                s.lemma_filter_contains_rev(|m: Notification| m.timestamp >= c, f[i]);
            }
        },
        None => {
            assert forall|i: int| 0 <= i < f.len() implies (#[trigger] f[i]).timestamp < n.timestamp by {
                assert(f[i] == s[i]);
            }
        },
    }
    assert(kept.last() == n);
    assert(kept =~= f.push(n));
    assert(kept[kept.len() - 1] == n);
    if kept.len() > max {
        crate::order::lemma_newest_first_sorted_permutation(f);
        let t = newest_first(f);
        assert(f.drop_last() =~= f.drop_last());
        assert(kept.drop_last() =~= f);
        assert(newest_first(kept) == crate::order::insert_newest_first(t, n));
        if t.len() > 0 {
            assert(t.to_multiset().count(t[0]) > 0);
            assert(f.contains(t[0]));
            assert(newest_first(kept) =~= seq![n] + t);
        } else {
            assert(newest_first(kept) =~= seq![n]);
        }
        assert(apply_limits(s.push(n), cutoff, max)[0] == n);
    }
}

/// A notification added to the history stays there exactly when the history
/// may hold an entry at all and the notification is not older than the
/// retention cutoff, provided it is newer than every stored entry or the
/// history has room for it. This is what storing a received notification
/// (`push`) does once the limits are applied.
pub proof fn law_fresh_entry_kept(s: Seq<Notification>, n: Notification, cutoff: Option<i128>, max: u32)
    requires
        s.len() < max || forall|i: int| 0 <= i < s.len() ==> (#[trigger] s[i]).timestamp < n.timestamp,
    ensures
        apply_limits(s.push(n), cutoff, max).contains(n)
            <==> (max >= 1 && (cutoff matches Some(c) ==> c <= n.timestamp)),
{
    broadcast use vstd::seq_lib::group_filter_ensures;
    broadcast use vstd::seq_lib::group_to_multiset_ensures;
    let kept = retained(s.push(n), cutoff);
    let r = apply_limits(s.push(n), cutoff, max);
    if max >= 1 && (cutoff matches Some(c) ==> c <= n.timestamp) {
        if s.len() < max {
            match cutoff {
                Some(c) => {
                    s.lemma_filter_push(n, |m: Notification| m.timestamp >= c);
                    assert(kept == s.filter(|m: Notification| m.timestamp >= c).push(n));
                    assert(kept.len() <= s.len() + 1);
                },
                None => {},
            }
            assert(kept[kept.len() - 1] == n);
        } else {
            lemma_newest_entry_kept(s, n, cutoff, max);
        }
    } else if r.contains(n) {
        let k = choose|k: int| 0 <= k < r.len() && r[k] == n;
        if kept.len() > max {
            crate::order::lemma_newest_first_sorted_permutation(kept);
            assert(newest_first(kept)[k] == n);
            assert(newest_first(kept).to_multiset().count(n) > 0);
        }
        assert(kept.contains(n));
        if let Some(c) = cutoff {
            s.push(n).lemma_filter_contains_rev(|m: Notification| m.timestamp >= c, n);
        }
    }
}

/// The limits keep the newest entries within the retention period: of the
/// entries not older than the cutoff, all stay when there are at most `max`
/// of them, and otherwise exactly `max` of them stay, each at least as new as
/// every one that goes; nothing else is kept. Opening the history
/// (`from_entries`) and storing a notification (`push`) leave the store in
/// this state.
pub proof fn law_limits_keep_newest_retained(s: Seq<Notification>, cutoff: Option<i128>, max: u32)
    ensures
        retained(s, cutoff).len() <= max ==> apply_limits(s, cutoff, max) == retained(s, cutoff),
        apply_limits(s, cutoff, max).len()
            == if retained(s, cutoff).len() <= max { retained(s, cutoff).len() } else { max as nat },
        forall|x: Notification| #[trigger] apply_limits(s, cutoff, max).to_multiset().count(x)
            <= retained(s, cutoff).to_multiset().count(x),
        forall|x: Notification, y: Notification|
            #[trigger] apply_limits(s, cutoff, max).contains(x) && #[trigger] retained(s, cutoff).contains(y)
                && !apply_limits(s, cutoff, max).contains(y) ==> x.timestamp >= y.timestamp,
{
    broadcast use vstd::seq_lib::group_to_multiset_ensures;
    let kept = retained(s, cutoff);
    let r = apply_limits(s, cutoff, max);
    if kept.len() > max {
        crate::order::lemma_newest_first_sorted_permutation(kept);
        let sorted = newest_first(kept);
        assert(sorted =~= sorted.take(max as int) + sorted.skip(max as int));
        vstd::seq_lib::lemma_multiset_commutative(sorted.take(max as int), sorted.skip(max as int));
    }
    assert forall|x: Notification, y: Notification|
        #[trigger] r.contains(x) && #[trigger] kept.contains(y) && !r.contains(y) implies x.timestamp >= y.timestamp by {
        law_limits_keep_newest(s, cutoff, max, x, y);
    }
}

/// Membership in a reordering: the newest-first order holds the same
/// entries.
proof fn lemma_newest_first_contains(s: Seq<Notification>, x: Notification)
    ensures
        newest_first(s).contains(x) <==> s.contains(x),
{
    broadcast use vstd::seq_lib::group_to_multiset_ensures;
    crate::order::lemma_newest_first_sorted_permutation(s);
    assert(newest_first(s).to_multiset().count(x) == s.to_multiset().count(x));
}

/// Clearing an application removes exactly the entries whose application
/// name, lowercased, equals the lowercased name given: every other entry
/// stays, whatever the names have in common.
pub proof fn law_clear_app_removes_exactly_that_app(s: Seq<Notification>, lower_app: Seq<char>, x: Notification)
    ensures
        s.filter(not_of_app_named(lower_app)).contains(x)
            <==> (s.contains(x) && lowercase(x.app_name@) != lower_app),
{
    broadcast use vstd::seq_lib::group_filter_ensures;
    let p = not_of_app_named(lower_app);
    if s.filter(p).contains(x) {
        s.lemma_filter_contains_rev(p, x);
        let k = choose|k: int| 0 <= k < s.filter(p).len() && s.filter(p)[k] == x;
        assert(p(s.filter(p)[k]));
    }
    if s.contains(x) && lowercase(x.app_name@) != lower_app {
        let k = choose|k: int| 0 <= k < s.len() && s[k] == x;
        s.lemma_filter_contains(p, k);
    }
}

/// An application's notifications, newest first, are exactly the stored
/// entries whose application name, lowercased, equals the lowercased name
/// given; a name that merely contains it does not count.
pub proof fn law_by_app_is_exact_name(s: Seq<Notification>, lower_app: Seq<char>, x: Notification)
    ensures
        newest_first(s).filter(of_app_named(lower_app)).contains(x)
            <==> (s.contains(x) && lowercase(x.app_name@) == lower_app),
{
    broadcast use vstd::seq_lib::group_filter_ensures;
    let p = of_app_named(lower_app);
    let t = newest_first(s);
    lemma_newest_first_contains(s, x);
    if t.filter(p).contains(x) {
        t.lemma_filter_contains_rev(p, x);
        let k = choose|k: int| 0 <= k < t.filter(p).len() && t.filter(p)[k] == x;
        assert(p(t.filter(p)[k]));
    }
    if t.contains(x) && lowercase(x.app_name@) == lower_app {
        let k = choose|k: int| 0 <= k < t.len() && t[k] == x;
        t.lemma_filter_contains(p, k);
    }
}

/// A search returns exactly the stored entries whose lowercased title or
/// lowercased body contains the lowercased query; the application name plays
/// no part.
pub proof fn law_search_matches_title_or_body(s: Seq<Notification>, lower_query: Seq<char>, x: Notification)
    ensures
        newest_first(s).filter(matching_query(lower_query)).contains(x)
            <==> (s.contains(x) && (has_substring(lowercase(x.title@), lower_query)
                || has_substring(lowercase(x.body@), lower_query))),
{
    broadcast use vstd::seq_lib::group_filter_ensures;
    let p = matching_query(lower_query);
    let t = newest_first(s);
    lemma_newest_first_contains(s, x);
    if t.filter(p).contains(x) {
        t.lemma_filter_contains_rev(p, x);
        let k = choose|k: int| 0 <= k < t.filter(p).len() && t.filter(p)[k] == x;
        assert(p(t.filter(p)[k]));
    }
    if t.contains(x) && (has_substring(lowercase(x.title@), lower_query) || has_substring(lowercase(x.body@), lower_query)) {
        let k = choose|k: int| 0 <= k < t.len() && t[k] == x;
        t.lemma_filter_contains(p, k);
    }
}

/// Entries expire: with a retention cutoff read with the instant `now` for a
/// retention of `days` days, no entry older than `days + 2` days of 24 hours
/// before `now` survives the limits (the two extra days bound the local
/// offsets' effect).
pub proof fn law_expired_entries_dropped(s: Seq<Notification>, now: i128, c: i128, days: u32, max: u32)
    requires
        cutoff_near(now, Some(c), days),
    ensures
        forall|i: int| 0 <= i < apply_limits(s, Some(c), max).len()
            ==> #[trigger] apply_limits(s, Some(c), max)[i].timestamp > now - (days + 2) * 86_400_000_000_000,
        forall|x: Notification| s.contains(x) && x.timestamp <= now - (days + 2) * 86_400_000_000_000
            ==> !#[trigger] apply_limits(s, Some(c), max).contains(x),
{
    law_limits_drop_old(s, c, max);
    let r = apply_limits(s, Some(c), max);
    assert forall|x: Notification| s.contains(x) && x.timestamp <= now - (days + 2) * 86_400_000_000_000
        implies !#[trigger] r.contains(x) by {
        if r.contains(x) {
            let k = choose|k: int| 0 <= k < r.len() && r[k] == x;
            assert(r[k].timestamp >= c);
        }
    }
}

} // verus!
