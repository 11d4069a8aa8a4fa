//! Core notification data model with grouping support.

use vstd::prelude::*;
use vstd::multiset::Multiset;

use tsuuchi::Notification as TsuuchiNotification;

use crate::clock::{new_uuid, now_nanos};
use crate::source::{tsuuchi_body, tsuuchi_title, tsuuchi_urgency};
use crate::order::{newest_first, sort_newest_first, text_less, text_lt};
use crate::text::{ascii_lowercase, is_ascii_text, lowercase, to_lowercase};

verus! {

/// Notification urgency level.
#[derive(Debug, Clone, Copy, PartialEq, Eq, PartialOrd, Ord, Hash, Structural)]
pub enum Urgency {
    /// Informational, non-intrusive.
    Low,
    /// Standard notification.
    Normal,
    /// Requires immediate attention.
    Critical,
}

/// The text form of an urgency level.
pub open spec fn urgency_text(u: Urgency) -> Seq<char> {
    match u {
        Urgency::Low => "low"@,
        Urgency::Normal => "normal"@,
        Urgency::Critical => "critical"@,
    }
}

/// The urgency that a lowercased word names, if any.
pub open spec fn urgency_named(word: Seq<char>) -> Option<Urgency> {
    if word == "low"@ {
        Some(Urgency::Low)
    } else if word == "normal"@ {
        Some(Urgency::Normal)
    } else if word == "critical"@ || word == "high"@ {
        Some(Urgency::Critical)
    } else {
        None
    }
}

impl Urgency {
    /// The position of the level in the order `Low < Normal < Critical`.
    pub open spec fn rank(self) -> int {
        match self {
            Urgency::Low => 0,
            Urgency::Normal => 1,
            Urgency::Critical => 2,
        }
    }

    /// The default urgency level: `Normal`.
    pub fn default_level() -> (u: Urgency)
        ensures
            u == Urgency::Normal,
    {
        Urgency::Normal
    }

    /// The lowercase name of the level (`"low"`, `"normal"`, `"critical"`).
    pub fn to_string(&self) -> (s: String)
        ensures
            s@ == urgency_text(*self),
    {
        match self {
            Urgency::Low => String::from_str("low"),
            Urgency::Normal => String::from_str("normal"),
            Urgency::Critical => String::from_str("critical"),
        }
    }

    /// Parses an already lowercased word: `low`, `normal`, `critical` or `high`.
    pub fn from_lowercase(word: &str) -> (r: Result<Urgency, String>)
        ensures
            urgency_named(word@) matches Some(u) ==> r == Ok::<Urgency, String>(u),
            urgency_named(word@) is None ==> (r matches Err(msg) && msg@ == "unknown urgency: "@ + word@),
    {
        let w = String::from_str(word);
        if w == String::from_str("low") {
            Ok(Urgency::Low)
        } else if w == String::from_str("normal") {
            Ok(Urgency::Normal)
        } else if w == String::from_str("critical") || w == String::from_str("high") {
            Ok(Urgency::Critical)
        } else {
            Err(String::from_str("unknown urgency: ").concat(word))
        }
    }

    /// Parses an urgency level, ignoring case; `high` is read as `critical`.
    pub fn parse(s: &str) -> (r: Result<Urgency, String>)
        ensures
            urgency_named(lowercase(s@)) matches Some(u) ==> r == Ok::<Urgency, String>(u),
            urgency_named(lowercase(s@)) is None ==> (r matches Err(msg) && msg@ == "unknown urgency: "@ + lowercase(s@)),
            is_ascii_text(s@) ==> lowercase(s@) == ascii_lowercase(s@),
    {
        let lower = to_lowercase(s);
        Urgency::from_lowercase(lower.as_str())
    }
}

impl std::str::FromStr for Urgency {
    type Err = String;

    fn from_str(s: &str) -> (r: Result<Self, Self::Err>)
        ensures
            urgency_named(lowercase(s@)) matches Some(u) ==> r == Ok::<Urgency, String>(u),
            urgency_named(lowercase(s@)) is None ==> (r matches Err(msg) && msg@ == "unknown urgency: "@ + lowercase(s@)),
            is_ascii_text(s@) ==> lowercase(s@) == ascii_lowercase(s@),
    {
        Urgency::parse(s)
    }
}

/// A notification managed by shirase.
#[derive(Debug, Clone)]
pub struct Notification {
    /// Unique identifier: the 128 bits of a UUID.
    pub id: u128,
    /// Source application name.
    pub app_name: String,
    /// Notification title.
    pub title: String,
    /// Notification body text.
    pub body: String,
    /// Urgency level.
    pub urgency: Urgency,
    /// When the notification was received, in nanoseconds since the Unix epoch.
    pub timestamp: i128,
    /// Whether the notification has been read/seen.
    pub read: bool,
    /// Whether the notification has been dismissed.
    pub dismissed: bool,
}

/// The fields that the library reads from a notification posted by another
/// program through tsuuchi.
#[derive(Debug, Clone)]
pub struct SourceNotification {
    /// The notification title.
    pub title: String,
    /// The notification body.
    pub body: String,
    /// Its urgency level.
    pub urgency: Urgency,
}

impl Notification {
    /// An exact copy of the notification.
    pub fn duplicate(&self) -> (r: Notification)
        ensures
            r == *self,
    {
        Notification {
            id: self.id,
            app_name: self.app_name.clone(),
            title: self.title.clone(),
            body: self.body.clone(),
            urgency: self.urgency,
            timestamp: self.timestamp,
            read: self.read,
            dismissed: self.dismissed,
        }
    }

    /// A fresh, unread, undismissed notification of normal urgency with the
    /// given identifier and timestamp.
    pub fn with_id_and_time(id: u128, timestamp: i128, app_name: &str, title: &str, body: &str) -> (n: Notification)
        ensures
            n.id == id,
            n.timestamp == timestamp,
            n.app_name@ == app_name@,
            n.title@ == title@,
            n.body@ == body@,
            n.urgency == Urgency::Normal,
            !n.read,
            !n.dismissed,
    {
        Notification {
            id,
            app_name: String::from_str(app_name),
            title: String::from_str(title),
            body: String::from_str(body),
            urgency: Urgency::default_level(),
            timestamp,
            read: false,
            dismissed: false,
        }
    }

    /// Create a new notification with a generated UUID and the current time.
    pub fn new(app_name: &str, title: &str, body: &str) -> (n: Notification)
        ensures
            n.app_name@ == app_name@,
            n.title@ == title@,
            n.body@ == body@,
            n.urgency == Urgency::Normal,
            !n.read,
            !n.dismissed,
    {
        let id = new_uuid();
        let timestamp = now_nanos();
        Notification::with_id_and_time(id, timestamp, app_name, title, body)
    }

    /// Set the urgency level.
    pub fn with_urgency(self, urgency: Urgency) -> (n: Notification)
        ensures
            n == (Notification { urgency, ..self }),
    {
        let mut n = self;
        n.urgency = urgency;
        n
    }

    /// A notification from another program's fields, under the given
    /// application name, identifier and timestamp.
    pub fn from_source(source: &SourceNotification, app_name: &str, id: u128, timestamp: i128) -> (n: Notification)
        ensures
            n.id == id,
            n.timestamp == timestamp,
            n.app_name@ == app_name@,
            n.title == source.title,
            n.body == source.body,
            n.urgency == source.urgency,
            !n.read,
            !n.dismissed,
    {
        Notification {
            id,
            app_name: String::from_str(app_name),
            title: source.title.clone(),
            body: source.body.clone(),
            urgency: source.urgency,
            timestamp,
            read: false,
            dismissed: false,
        }
    }

    /// Create from a tsuuchi notification, adding shirase metadata: a fresh
    /// UUID, the current time, and the unread, undismissed state.
    pub fn from_tsuuchi(notif: &TsuuchiNotification, app_name: &str) -> (n: Notification)
        ensures
            n.app_name@ == app_name@,
            n.title@ == tsuuchi_title(*notif),
            n.body@ == tsuuchi_body(*notif),
            n.urgency == tsuuchi_urgency(*notif),
            !n.read,
            !n.dismissed,
    {
        let source = crate::source::read_tsuuchi(notif);
        let id = new_uuid();
        let timestamp = now_nanos();
        Notification::from_source(&source, app_name, id, timestamp)
    }
}

/// Whether a notification is unread.
pub open spec fn is_unread(n: Notification) -> bool {
    !n.read
}

/// How many of the notifications are unread.
pub open spec fn unread_in(s: Seq<Notification>) -> nat {
    s.filter(|n: Notification| is_unread(n)).len()
}

/// Counts the unread notifications of a slice.
pub fn count_unread(s: &[Notification]) -> (c: usize)
    ensures
        c == unread_in(s@),
{
    let mut c: usize = 0;
    let mut i: usize = 0;
    assert(s@.take(0) =~= Seq::<Notification>::empty());
    while i < s.len()
        invariant
            i <= s.len(),
            c == unread_in(s@.take(i as int)),
            c <= i,
        decreases s.len() - i,
    {
        proof {
            assert(s@.take(i + 1) =~= s@.take(i as int).push(s@[i as int]));
            s@.take(i as int).lemma_filter_push(s@[i as int], |n: Notification| is_unread(n));
        }
        if !s[i].read {
            c = c + 1;
        }
        i = i + 1;
    }
    assert(s@.take(s.len() as int) =~= s@);
    c
}

/// An exact copy of a list of notifications.
pub fn duplicate_all(v: &Vec<Notification>) -> (r: Vec<Notification>)
    ensures
        r@ == v@,
{
    let mut r: Vec<Notification> = Vec::new();
    let mut i: usize = 0;
    while i < v.len()
        invariant
            i <= v.len(),
            r@ == v@.take(i as int),
        decreases v.len() - i,
    {
        r.push(v[i].duplicate());
        i = i + 1;
        assert(r@ =~= v@.take(i as int));
    }
    assert(v@.take(v.len() as int) =~= v@);
    r
}

/// The notifications that are not dismissed, in their order.
pub open spec fn undismissed_in(s: Seq<Notification>) -> Seq<Notification> {
    s.filter(|n: Notification| !n.dismissed)
}

/// Copies of the notifications that are not dismissed, in their order.
pub fn undismissed(s: &[Notification]) -> (r: Vec<Notification>)
    ensures
        r@ == undismissed_in(s@),
{
    let ghost pred = |n: Notification| !n.dismissed;
    let mut r: Vec<Notification> = Vec::new();
    let mut i: usize = 0;
    assert(s@.take(0) =~= Seq::<Notification>::empty());
    while i < s.len()
        invariant
            i <= s.len(),
            pred == (|n: Notification| !n.dismissed),
            r@ == s@.take(i as int).filter(pred),
        decreases s.len() - i,
    {
        proof {
            assert(s@.take(i + 1) =~= s@.take(i as int).push(s@[i as int]));
            s@.take(i as int).lemma_filter_push(s@[i as int], pred);
        }
        if !s[i].dismissed {
            r.push(s[i].duplicate());
        }
        i = i + 1;
    }
    assert(s@.take(s.len() as int) =~= s@);
    r
}

/// A group of notifications from the same application.
#[derive(Debug, Clone)]
pub struct NotificationGroup {
    /// Application name for this group.
    pub app_name: String,
    /// Notifications in this group, newest first.
    pub notifications: Vec<Notification>,
}

impl NotificationGroup {
    /// An exact copy of the group.
    pub fn duplicate(&self) -> (r: NotificationGroup)
        ensures
            r.app_name == self.app_name,
            r.notifications@ == self.notifications@,
    {
        let notifications = duplicate_all(&self.notifications);
        proof {
            assert(notifications@ =~= self.notifications@);
        }
        NotificationGroup { app_name: self.app_name.clone(), notifications }
    }

    /// Count of unread notifications in this group.
    pub fn unread_count(&self) -> (c: usize)
        ensures
            c == unread_in(self.notifications@),
    {
        count_unread(self.notifications.as_slice())
    }

    /// Total notification count.
    pub fn count(&self) -> (c: usize)
        ensures
            c == self.notifications.len(),
    {
        self.notifications.len()
    }
}

/// The notifications of one application, in the order of `s`.
pub open spec fn of_app(s: Seq<Notification>, app: Seq<char>) -> Seq<Notification> {
    s.filter(|n: Notification| n.app_name@ == app)
}

/// The timestamp of a group's first (newest) notification.
pub open spec fn group_latest(g: NotificationGroup) -> i128 {
    g.notifications@[0].timestamp
}

/// Whether some group is that of the application `name`.
pub open spec fn has_group(groups: Seq<NotificationGroup>, name: Seq<char>) -> bool {
    exists|j: int| 0 <= j < groups.len() && #[trigger] groups[j].app_name@ == name
}

/// Whether group `a` is listed before group `b`: its newest notification is
/// newer, or equally new and its application name comes first.
pub open spec fn group_before(a: NotificationGroup, b: NotificationGroup) -> bool {
    ||| group_latest(a) > group_latest(b)
    ||| (group_latest(a) == group_latest(b) && text_lt(a.app_name@, b.app_name@))
}

/// The grouping of `s` by application that `group_by_app` returns: one group
/// per application, holding that application's notifications newest first,
/// groups ordered by their newest notification (newest first), ties by name.
pub open spec fn is_grouping_of(s: Seq<Notification>, groups: Seq<NotificationGroup>) -> bool {
    &&& forall|i: int| 0 <= i < groups.len() ==> #[trigger] groups[i].notifications@ == newest_first(of_app(s, groups[i].app_name@))
    &&& forall|i: int| 0 <= i < groups.len() ==> #[trigger] groups[i].notifications.len() > 0
    &&& forall|i: int, j: int| 0 <= i < j < groups.len() ==> group_before(#[trigger] groups[i], #[trigger] groups[j])
    &&& forall|i: int, j: int| 0 <= i < groups.len() && 0 <= j < groups.len() && i != j ==> #[trigger] groups[i].app_name@ != #[trigger] groups[j].app_name@
    &&& forall|k: int| 0 <= k < s.len() ==> #[trigger] has_group(groups, s[k].app_name@)
}

/// The order in which groups are listed is transitive.
pub proof fn lemma_group_before_transitive(a: NotificationGroup, b: NotificationGroup, c: NotificationGroup)
    requires
        group_before(a, b),
        group_before(b, c),
    ensures
        group_before(a, c),
{
    if group_latest(a) == group_latest(b) && group_latest(b) == group_latest(c) {
        crate::order::lemma_text_lt_transitive(a.app_name@, b.app_name@, c.app_name@);
    }
}

/// Of two groups of different applications, one is listed before the other.
pub proof fn lemma_group_before_total(a: NotificationGroup, b: NotificationGroup)
    requires
        a.app_name@ != b.app_name@,
    ensures
        group_before(a, b) || group_before(b, a),
{
    crate::order::lemma_text_lt_total(a.app_name@, b.app_name@);
}

/// Finds the group of an application.
fn find_group(groups: &Vec<NotificationGroup>, app: &String) -> (r: Option<usize>)
    ensures
        r matches Some(j) ==> j < groups.len() && groups@[j as int].app_name@ == app@,
        r is None ==> forall|k: int| 0 <= k < groups.len() ==> groups@[k].app_name@ != app@,
{
    let mut j: usize = 0;
    while j < groups.len()
        invariant
            j <= groups.len(),
            forall|k: int| 0 <= k < j ==> groups@[k].app_name@ != app@,
        decreases groups.len() - j,
    {
        if groups[j].app_name == *app {
            return Some(j);
        }
        j = j + 1;
    }
    None
}

/// Splits notifications into one bucket per application, in order of first
/// appearance, each holding that application's notifications in input order.
fn bucket_by_app(s: &[Notification]) -> (b: Vec<NotificationGroup>)
    ensures
        forall|j: int| 0 <= j < b.len() ==> #[trigger] b@[j].notifications@ == of_app(s@, b@[j].app_name@),
        forall|j: int| 0 <= j < b.len() ==> #[trigger] b@[j].notifications.len() > 0,
        forall|j: int, k: int| 0 <= j < b.len() && 0 <= k < b.len() && j != k ==> #[trigger] b@[j].app_name@ != #[trigger] b@[k].app_name@,
        forall|k: int| 0 <= k < s.len() ==> #[trigger] has_group(b@, s@[k].app_name@),
{
    let mut b: Vec<NotificationGroup> = Vec::new();
    let mut i: usize = 0;
    while i < s.len()
        invariant
            i <= s.len(),
            forall|j: int| 0 <= j < b.len() ==> #[trigger] b@[j].notifications@ == of_app(s@.take(i as int), b@[j].app_name@),
            forall|j: int| 0 <= j < b.len() ==> #[trigger] b@[j].notifications.len() > 0,
            forall|j: int, k: int| 0 <= j < b.len() && 0 <= k < b.len() && j != k ==> #[trigger] b@[j].app_name@ != #[trigger] b@[k].app_name@,
            forall|k: int| 0 <= k < i ==> #[trigger] has_group(b@, s@[k].app_name@),
        decreases s.len() - i,
    {
        let x = s[i].duplicate();
        let ghost p = s@.take(i as int);
        let ghost old_b = b@;
        proof {
            assert(s@.take(i + 1) =~= p.push(x));
            assert forall|name: Seq<char>| #[trigger] of_app(s@.take(i + 1), name) == if x.app_name@ == name {
                of_app(p, name).push(x)
            } else {
                of_app(p, name)
            } by {
                p.lemma_filter_push(x, |n: Notification| n.app_name@ == name);
            }
        }
        match find_group(&b, &x.app_name) {
            Some(j) => {
                let mut g = b.remove(j);
                g.notifications.push(x);
                b.insert(j, g);
                proof {
                    assert(b@ =~= old_b.update(j as int, g));
                    assert forall|m: int, n: int| 0 <= m < b.len() && 0 <= n < b.len() && m != n implies #[trigger] b@[m].app_name@ != #[trigger] b@[n].app_name@ by {
                        assert(old_b[m].app_name@ != old_b[n].app_name@);
                    }
                    assert forall|m: int| 0 <= m < b.len() implies #[trigger] b@[m].notifications@ == of_app(s@.take(i + 1), b@[m].app_name@) && b@[m].notifications.len() > 0 by {
                        if m != j {
                            assert(b@[m] == old_b[m]);
                            assert(old_b[m].app_name@ != old_b[j as int].app_name@);
                        } else {
                            assert(g.notifications@ =~= old_b[j as int].notifications@.push(x));
                        }
                    }
                    assert forall|k: int| 0 <= k < i + 1 implies has_group(b@, s@[k].app_name@) by {
                        if k < i {
                            assert(has_group(old_b, s@[k].app_name@));
                            let m = choose|m: int| 0 <= m < old_b.len() && #[trigger] old_b[m].app_name@ == s@[k].app_name@;
                            assert(b@[m].app_name@ == old_b[m].app_name@);
                        } else {
                            assert(b@[j as int].app_name@ == s@[k].app_name@);
                        }
                    }
                }
            }
            None => {
                proof {
                    assert(p.all(|n: Notification| !((|n: Notification| n.app_name@ == x.app_name@)(n)))) by {
                        assert forall|k: int| 0 <= k < p.len() implies !((|n: Notification| n.app_name@ == x.app_name@)(#[trigger] p[k])) by {
                            assert(has_group(old_b, s@[k].app_name@));
                            assert(p[k] == s@[k]);
                        }
                    }
                    p.lemma_all_neg_filter_empty(|n: Notification| n.app_name@ == x.app_name@);
                    assert(of_app(p, x.app_name@) =~= Seq::<Notification>::empty());
                }
                let name = x.app_name.clone();
                let mut v: Vec<Notification> = Vec::new();
                v.push(x);
                b.push(NotificationGroup { app_name: name, notifications: v });
                proof {
                    assert(b@ =~= old_b.push(b@[old_b.len() as int]));
                    assert forall|m: int, n: int| 0 <= m < b.len() && 0 <= n < b.len() && m != n implies #[trigger] b@[m].app_name@ != #[trigger] b@[n].app_name@ by {
                        if m < old_b.len() && n < old_b.len() {
                            assert(old_b[m].app_name@ != old_b[n].app_name@);
                        }
                    }
                    assert(v@ =~= Seq::<Notification>::empty().push(x));
                    assert forall|m: int| 0 <= m < b.len() implies #[trigger] b@[m].notifications@ == of_app(s@.take(i + 1), b@[m].app_name@) && b@[m].notifications.len() > 0 by {
                        if m < old_b.len() {
                            assert(b@[m] == old_b[m]);
                            assert(old_b[m].app_name@ != x.app_name@);
                        } else {
                            assert(of_app(p, x.app_name@).push(x) =~= v@);
                        }
                    }
                    assert forall|k: int| 0 <= k < i + 1 implies has_group(b@, s@[k].app_name@) by {
                        if k < i {
                            assert(has_group(old_b, s@[k].app_name@));
                            let m = choose|m: int| 0 <= m < old_b.len() && #[trigger] old_b[m].app_name@ == s@[k].app_name@;
                            assert(b@[m] == old_b[m]);
                        } else {
                            assert(b@[old_b.len() as int].app_name@ == s@[k].app_name@);
                        }
                    }
                }
            }
        }
        i = i + 1;
    }
    assert(s@.take(s.len() as int) =~= s@);
    assert forall|k: int| 0 <= k < s.len() implies has_group(b@, s@[k].app_name@) by {
        assert(k < i);
    }
    b
}

/// Whether group `a` is listed before group `b`, computed.
fn listed_before(a: &NotificationGroup, b: &NotificationGroup) -> (r: bool)
    requires
        a.notifications.len() > 0,
        b.notifications.len() > 0,
    ensures
        r == group_before(*a, *b),
{
    let ta = a.notifications[0].timestamp;
    let tb = b.notifications[0].timestamp;
    ta > tb || (ta == tb && text_less(a.app_name.as_str(), b.app_name.as_str()))
}

/// Where a group goes among groups already in listing order.
fn group_insertion_point(r: &Vec<NotificationGroup>, x: &NotificationGroup) -> (j: usize)
    requires
        x.notifications.len() > 0,
        forall|k: int| 0 <= k < r.len() ==> #[trigger] r@[k].notifications.len() > 0,
    ensures
        j <= r.len(),
        forall|k: int| 0 <= k < j ==> !group_before(*x, #[trigger] r@[k]),
        j < r.len() ==> group_before(*x, r@[j as int]),
{
    let mut j: usize = 0;
    while j < r.len()
        invariant
            j <= r.len(),
            x.notifications.len() > 0,
            forall|k: int| 0 <= k < r.len() ==> #[trigger] r@[k].notifications.len() > 0,
            forall|k: int| 0 <= k < j ==> !group_before(*x, #[trigger] r@[k]),
        decreases r.len() - j,
    {
        if listed_before(x, &r[j]) {
            return j;
        }
        j = j + 1;
    }
    j
}

/// Puts groups of distinct applications into listing order.
fn sort_groups(b0: Vec<NotificationGroup>) -> (r: Vec<NotificationGroup>)
    requires
        forall|j: int| 0 <= j < b0.len() ==> #[trigger] b0@[j].notifications.len() > 0,
        forall|j: int, k: int| 0 <= j < b0.len() && 0 <= k < b0.len() && j != k ==> #[trigger] b0@[j].app_name@ != #[trigger] b0@[k].app_name@,
    ensures
        r.len() == b0.len(),
        forall|k: int| 0 <= k < r.len() ==> b0@.contains(#[trigger] r@[k]),
        forall|m: int| 0 <= m < b0.len() ==> r@.contains(#[trigger] b0@[m]),
        forall|i: int, j: int| 0 <= i < j < r.len() ==> group_before(#[trigger] r@[i], #[trigger] r@[j]),
{
    let ghost b = b0@;
    assert(b.len() == b0.len());
    let mut rest = b0;
    let mut r: Vec<NotificationGroup> = Vec::new();
    let mut i: usize = 0;
    while rest.len() > 0
        invariant
            i <= b.len(),
            b.len() <= usize::MAX,
            rest@ == b.skip(i as int),
            r.len() == i,
            forall|j: int| 0 <= j < b.len() ==> #[trigger] b[j].notifications.len() > 0,
            forall|j: int, k: int| 0 <= j < b.len() && 0 <= k < b.len() && j != k ==> #[trigger] b[j].app_name@ != #[trigger] b[k].app_name@,
            forall|k: int| 0 <= k < r.len() ==> exists|m: int| 0 <= m < i && #[trigger] r@[k] == #[trigger] b[m],
            forall|m: int| 0 <= m < i ==> r@.contains(#[trigger] b[m]),
            forall|p: int, q: int| 0 <= p < q < r.len() ==> group_before(#[trigger] r@[p], #[trigger] r@[q]),
        decreases rest.len(),
    {
        let ghost old_r = r@;
        assert(i < b.len());
        assert(rest@[0] == b[i as int]);
        let x = rest.remove(0);
        assert(rest@ =~= b.skip(i + 1));
        proof {
            assert forall|k: int| 0 <= k < r.len() implies #[trigger] r@[k].notifications.len() > 0 by {
                let m = choose|m: int| 0 <= m < i && r@[k] == #[trigger] b[m];
            }
        }
        let pos = group_insertion_point(&r, &x);
        r.insert(pos, x);
        proof {
            let xg = b[i as int];
            assert(r@ =~= old_r.insert(pos as int, xg));
            assert forall|k: int| 0 <= k < old_r.len() implies (#[trigger] old_r[k]).app_name@ != xg.app_name@ by {
                let m = choose|m: int| 0 <= m < i && old_r[k] == #[trigger] b[m];
            }
            assert forall|p: int, q: int| 0 <= p < q < r.len() implies group_before(#[trigger] r@[p], #[trigger] r@[q]) by {
                if p < pos && q < pos {
                    assert(r@[p] == old_r[p] && r@[q] == old_r[q]);
                } else if p < pos && q == pos {
                    assert(r@[p] == old_r[p]);
                    lemma_group_before_total(old_r[p], xg);
                } else if p < pos && q > pos {
                    assert(r@[p] == old_r[p] && r@[q] == old_r[q - 1]);
                } else if p == pos {
                    assert(r@[q] == old_r[q - 1]);
                    if q - 1 > pos {
                        assert(group_before(old_r[pos as int], old_r[q - 1]));
                        lemma_group_before_transitive(xg, old_r[pos as int], old_r[q - 1]);
                    }
                } else {
                    assert(r@[p] == old_r[p - 1] && r@[q] == old_r[q - 1]);
                }
            }
            assert forall|k: int| 0 <= k < r.len() implies exists|m: int| 0 <= m < i + 1 && #[trigger] r@[k] == #[trigger] b[m] by {
                if k < pos {
                    assert(r@[k] == old_r[k]);
                    let m = choose|m: int| 0 <= m < i && old_r[k] == #[trigger] b[m];
                } else if k == pos {
                    assert(r@[k] == b[i as int]);
                } else {
                    assert(r@[k] == old_r[k - 1]);
                    let m = choose|m: int| 0 <= m < i && old_r[k - 1] == #[trigger] b[m];
                }
            }
            assert forall|m: int| 0 <= m < i + 1 implies r@.contains(#[trigger] b[m]) by {
                if m < i {
                    assert(old_r.contains(b[m]));
                    let k = choose|k: int| 0 <= k < old_r.len() && old_r[k] == b[m];
                    if k < pos {
                        assert(r@[k] == old_r[k]);
                    } else {
                        assert(r@[k + 1] == old_r[k]);
                    }
                } else {
                    assert(r@[pos as int] == b[m]);
                }
            }
        }
        i = i + 1;
    }
    proof {
        assert forall|k: int| 0 <= k < r.len() implies b.contains(#[trigger] r@[k]) by {
            let m = choose|m: int| 0 <= m < i && r@[k] == #[trigger] b[m];
        }
    }
    r
}

/// Sorts the notifications of each bucket newest first.
fn sort_members(s: &[Notification], b: Vec<NotificationGroup>) -> (r: Vec<NotificationGroup>)
    requires
        forall|j: int| 0 <= j < b.len() ==> #[trigger] b@[j].notifications@ == of_app(s@, b@[j].app_name@),
        forall|j: int| 0 <= j < b.len() ==> #[trigger] b@[j].notifications.len() > 0,
    ensures
        r.len() == b.len(),
        forall|j: int| 0 <= j < r.len() ==> #[trigger] r@[j].app_name == b@[j].app_name,
        forall|j: int| 0 <= j < r.len() ==> #[trigger] r@[j].notifications@ == newest_first(of_app(s@, r@[j].app_name@)),
        forall|j: int| 0 <= j < r.len() ==> #[trigger] r@[j].notifications.len() > 0,
{
    let mut r: Vec<NotificationGroup> = Vec::new();
    let mut i: usize = 0;
    while i < b.len()
        invariant
            i <= b.len(),
            r.len() == i,
            forall|j: int| 0 <= j < b.len() ==> #[trigger] b@[j].notifications@ == of_app(s@, b@[j].app_name@),
            forall|j: int| 0 <= j < b.len() ==> #[trigger] b@[j].notifications.len() > 0,
            forall|j: int| 0 <= j < i ==> #[trigger] r@[j].app_name == b@[j].app_name,
            forall|j: int| 0 <= j < i ==> #[trigger] r@[j].notifications@ == newest_first(of_app(s@, r@[j].app_name@)),
            forall|j: int| 0 <= j < i ==> #[trigger] r@[j].notifications.len() > 0,
        decreases b.len() - i,
    {
        let sorted = sort_newest_first(&b[i].notifications);
        proof {
            crate::order::lemma_newest_first_sorted_permutation(b@[i as int].notifications@);
            assert(b@[i as int].notifications.len() > 0);
            assert(sorted@.len() > 0);
        }
        r.push(NotificationGroup { app_name: b[i].app_name.clone(), notifications: sorted });
        i = i + 1;
    }
    r
}

/// Group a flat list of notifications by application name.
///
/// Returns one group per application, groups sorted by their most recent
/// notification (newest first; equally recent groups by application name).
/// Within each group, notifications are sorted newest first, notifications
/// received at the same instant keeping their order.
pub fn group_by_app(notifications: &[Notification]) -> (groups: Vec<NotificationGroup>)
    ensures
        is_grouping_of(notifications@, groups@),
{
    let buckets = bucket_by_app(notifications);
    let sorted = sort_members(notifications, buckets);
    let ghost mid = sorted@;
    let groups = sort_groups(sorted);
    proof {
        let s = notifications@;
        assert forall|i: int| 0 <= i < groups.len() implies #[trigger] groups@[i].notifications@ == newest_first(of_app(s, groups@[i].app_name@)) && groups@[i].notifications.len() > 0 by {
            assert(mid.contains(groups@[i]));
        }
        assert forall|i: int, j: int| 0 <= i < groups.len() && 0 <= j < groups.len() && i != j implies #[trigger] groups@[i].app_name@ != #[trigger] groups@[j].app_name@ by {
            if i < j {
                assert(group_before(groups@[i], groups@[j]));
            } else {
                assert(group_before(groups@[j], groups@[i]));
            }
            if groups@[i].app_name@ == groups@[j].app_name@ {
                assert(mid.contains(groups@[i]));
                assert(mid.contains(groups@[j]));
                let a = choose|a: int| 0 <= a < mid.len() && mid[a] == groups@[i];
                let b = choose|b: int| 0 <= b < mid.len() && mid[b] == groups@[j];
                assert(buckets@[a].app_name@ == buckets@[b].app_name@);
                crate::order::lemma_text_lt_irreflexive(groups@[i].app_name@);
            }
        }
        assert forall|k: int| 0 <= k < s.len() implies #[trigger] has_group(groups@, s[k].app_name@) by {
            assert(has_group(buckets@, s[k].app_name@));
            let m = choose|m: int| 0 <= m < buckets@.len() && #[trigger] buckets@[m].app_name@ == s[k].app_name@;
            assert(groups@.contains(mid[m]));
            let g = choose|g: int| 0 <= g < groups@.len() && groups@[g] == mid[m];
            assert(groups@[g].app_name@ == s[k].app_name@);
        }
    }
    groups
}

/// The number of notifications held by a list of groups.
pub open spec fn total_count(gs: Seq<NotificationGroup>) -> nat
    decreases gs.len(),
{
    if gs.len() == 0 {
        0
    } else {
        total_count(gs.drop_last()) + gs.last().notifications@.len()
    }
}

/// How many notifications of `s` belong to the applications of the groups.
pub open spec fn members_of_groups(s: Seq<Notification>, gs: Seq<NotificationGroup>) -> nat
    decreases gs.len(),
{
    if gs.len() == 0 {
        0
    } else {
        members_of_groups(s, gs.drop_last()) + of_app(s, gs.last().app_name@).len()
    }
}

/// How many groups carry the application name.
pub open spec fn groups_named(gs: Seq<NotificationGroup>, name: Seq<char>) -> nat
    decreases gs.len(),
{
    if gs.len() == 0 {
        0
    } else {
        groups_named(gs.drop_last(), name) + if gs.last().app_name@ == name { 1nat } else { 0nat }
    }
}

proof fn lemma_members_of_empty(gs: Seq<NotificationGroup>)
    ensures
        members_of_groups(Seq::<Notification>::empty(), gs) == 0,
    decreases gs.len(),
{
    if gs.len() > 0 {
        lemma_members_of_empty(gs.drop_last());
        assert(of_app(Seq::<Notification>::empty(), gs.last().app_name@) =~= Seq::<Notification>::empty());
    }
}

proof fn lemma_members_of_push(t: Seq<Notification>, x: Notification, gs: Seq<NotificationGroup>)
    ensures
        members_of_groups(t.push(x), gs) == members_of_groups(t, gs) + groups_named(gs, x.app_name@),
    decreases gs.len(),
{
    if gs.len() > 0 {
        lemma_members_of_push(t, x, gs.drop_last());
        assert forall|name: Seq<char>| #[trigger] of_app(t.push(x), name) == if x.app_name@ == name {
            of_app(t, name).push(x)
        } else {
            of_app(t, name)
        } by {
            t.lemma_filter_push(x, |n: Notification| n.app_name@ == name);
        }
        let a = gs.last().app_name@;
        assert(of_app(t.push(x), a) == if x.app_name@ == a { of_app(t, a).push(x) } else { of_app(t, a) });
    }
}

proof fn lemma_groups_named_absent(gs: Seq<NotificationGroup>, name: Seq<char>)
    requires
        forall|j: int| 0 <= j < gs.len() ==> #[trigger] gs[j].app_name@ != name,
    ensures
        groups_named(gs, name) == 0,
    decreases gs.len(),
{
    if gs.len() > 0 {
        let r = gs.drop_last();
        assert forall|j: int| 0 <= j < r.len() implies #[trigger] r[j].app_name@ != name by {
            assert(r[j] == gs[j]);
        }
        lemma_groups_named_absent(r, name);
        assert(gs.last() == gs[gs.len() - 1]);
    }
}

proof fn lemma_groups_named_once(gs: Seq<NotificationGroup>, name: Seq<char>)
    requires
        has_group(gs, name),
        forall|i: int, j: int| 0 <= i < gs.len() && 0 <= j < gs.len() && i != j ==> #[trigger] gs[i].app_name@ != #[trigger] gs[j].app_name@,
    ensures
        groups_named(gs, name) == 1,
    decreases gs.len(),
{
    let r = gs.drop_last();
    let l = gs.len() - 1;
    assert(gs.last() == gs[l]);
    if gs[l].app_name@ == name {
        assert forall|j: int| 0 <= j < r.len() implies #[trigger] r[j].app_name@ != name by {
            assert(r[j] == gs[j]);
            assert(gs[j].app_name@ != gs[l].app_name@);
        }
        lemma_groups_named_absent(r, name);
    } else {
        let w = choose|j: int| 0 <= j < gs.len() && #[trigger] gs[j].app_name@ == name;
        assert(r[w] == gs[w]);
        assert(has_group(r, name));
        assert forall|i: int, j: int| 0 <= i < r.len() && 0 <= j < r.len() && i != j implies #[trigger] r[i].app_name@ != #[trigger] r[j].app_name@ by {
            assert(r[i] == gs[i] && r[j] == gs[j]);
        }
        lemma_groups_named_once(r, name);
    }
}

proof fn lemma_members_cover(s: Seq<Notification>, gs: Seq<NotificationGroup>)
    requires
        forall|i: int, j: int| 0 <= i < gs.len() && 0 <= j < gs.len() && i != j ==> #[trigger] gs[i].app_name@ != #[trigger] gs[j].app_name@,
        forall|k: int| 0 <= k < s.len() ==> #[trigger] has_group(gs, s[k].app_name@),
    ensures
        members_of_groups(s, gs) == s.len(),
    decreases s.len(),
{
    if s.len() == 0 {
        assert(s =~= Seq::<Notification>::empty());
        lemma_members_of_empty(gs);
    } else {
        let t = s.drop_last();
        let x = s.last();
        assert forall|k: int| 0 <= k < t.len() implies #[trigger] has_group(gs, t[k].app_name@) by {
            assert(t[k] == s[k]);
        }
        lemma_members_cover(t, gs);
        assert(s =~= t.push(x));
        lemma_members_of_push(t, x, gs);
        assert(has_group(gs, s[s.len() - 1].app_name@));
        lemma_groups_named_once(gs, x.app_name@);
    }
}

proof fn lemma_total_is_members(s: Seq<Notification>, gs: Seq<NotificationGroup>)
    requires
        forall|i: int| 0 <= i < gs.len() ==> #[trigger] gs[i].notifications@.len() == of_app(s, gs[i].app_name@).len(),
    ensures
        total_count(gs) == members_of_groups(s, gs),
    decreases gs.len(),
{
    if gs.len() > 0 {
        let r = gs.drop_last();
        assert forall|i: int| 0 <= i < r.len() implies #[trigger] r[i].notifications@.len() == of_app(s, r[i].app_name@).len() by {
            assert(r[i] == gs[i]);
        }
        lemma_total_is_members(s, r);
        assert(gs.last() == gs[gs.len() - 1]);
    }
}

/// Grouping by application loses no notification and counts none twice: the
/// groups hold as many notifications as the list, and each notification
/// lies in the one group of its application.
pub proof fn law_grouping_is_partition(s: Seq<Notification>, gs: Seq<NotificationGroup>)
    requires
        is_grouping_of(s, gs),
    ensures
        total_count(gs) == s.len(),
        forall|k: int| 0 <= k < s.len() ==> groups_named(gs, #[trigger] s[k].app_name@) == 1,
        forall|k: int, i: int| 0 <= k < s.len() && 0 <= i < gs.len() && gs[i].app_name@ == s[k].app_name@
            ==> (#[trigger] gs[i].notifications@).contains(#[trigger] s[k]),
{
    broadcast use vstd::seq_lib::group_filter_ensures;
    broadcast use vstd::seq_lib::group_to_multiset_ensures;
    assert forall|i: int| 0 <= i < gs.len() implies #[trigger] gs[i].notifications@.len() == of_app(s, gs[i].app_name@).len() by {
        crate::order::lemma_newest_first_sorted_permutation(of_app(s, gs[i].app_name@));
    }
    lemma_total_is_members(s, gs);
    lemma_members_cover(s, gs);
    assert forall|k: int| 0 <= k < s.len() implies groups_named(gs, #[trigger] s[k].app_name@) == 1 by {
        lemma_groups_named_once(gs, s[k].app_name@);
    }
    assert forall|k: int, i: int| 0 <= k < s.len() && 0 <= i < gs.len() && gs[i].app_name@ == s[k].app_name@
        implies (#[trigger] gs[i].notifications@).contains(#[trigger] s[k]) by {
        let f = of_app(s, gs[i].app_name@);
        crate::order::lemma_newest_first_sorted_permutation(f);
        assert(f.contains(s[k]));
        assert(f.to_multiset().count(s[k]) > 0);
    }
}

/// Each urgency's text names it again, and is ASCII lowercase, so parsing
/// the text of a level (which lowercases it first) gives the level back; the
/// levels are ordered `Low < Normal < Critical`.
pub proof fn law_urgency_text_round_trip(u: Urgency)
    ensures
        urgency_named(urgency_text(u)) == Some(u),
        is_ascii_text(urgency_text(u)),
        ascii_lowercase(urgency_text(u)) == urgency_text(u),
        Urgency::Low.rank() < Urgency::Normal.rank() < Urgency::Critical.rank(),
{
    reveal_strlit("low");
    reveal_strlit("normal");
    reveal_strlit("critical");
    reveal_strlit("high");
    assert("low"@.len() != "normal"@.len());
    assert("low"@.len() != "critical"@.len());
    assert("normal"@.len() != "critical"@.len());
    assert("low"@[0] != "high"@[0]);
    assert("normal"@.len() != "high"@.len());
    let t = urgency_text(u);
    assert(ascii_lowercase(t) =~= t);
}

/// The notifications of the groups, group after group.
pub open spec fn group_members(gs: Seq<NotificationGroup>) -> Seq<Notification>
    decreases gs.len(),
{
    if gs.len() == 0 {
        seq![]
    } else {
        group_members(gs.drop_last()) + gs.last().notifications@
    }
}

/// The notifications of `s` that belong to the applications of the groups,
/// as a multiset: those of each group's application, in turn.
pub open spec fn members_multiset(s: Seq<Notification>, gs: Seq<NotificationGroup>) -> Multiset<Notification>
    decreases gs.len(),
{
    if gs.len() == 0 {
        Multiset::empty()
    } else {
        members_multiset(s, gs.drop_last()).add(of_app(s, gs.last().app_name@).to_multiset())
    }
}

/// `n` copies of `x`.
pub open spec fn copies(x: Notification, n: nat) -> Multiset<Notification>
    decreases n,
{
    if n == 0 { Multiset::empty() } else { copies(x, (n - 1) as nat).insert(x) }
}

proof fn lemma_members_multiset_empty(gs: Seq<NotificationGroup>)
    ensures
        members_multiset(Seq::<Notification>::empty(), gs) =~= Multiset::<Notification>::empty(),
    decreases gs.len(),
{
    broadcast use vstd::multiset::group_multiset_axioms;
    broadcast use vstd::seq_lib::group_to_multiset_ensures;
    if gs.len() > 0 {
        lemma_members_multiset_empty(gs.drop_last());
        assert(of_app(Seq::<Notification>::empty(), gs.last().app_name@) =~= Seq::<Notification>::empty());
        assert(Seq::<Notification>::empty().to_multiset() =~= Multiset::<Notification>::empty());
    }
}

proof fn lemma_members_multiset_push(t: Seq<Notification>, x: Notification, gs: Seq<NotificationGroup>)
    ensures
        members_multiset(t.push(x), gs) =~= members_multiset(t, gs).add(copies(x, groups_named(gs, x.app_name@))),
    decreases gs.len(),
{
    broadcast use vstd::multiset::group_multiset_axioms;
    broadcast use vstd::seq_lib::group_to_multiset_ensures;
    if gs.len() == 0 {
    } else {
        let r = gs.drop_last();
        lemma_members_multiset_push(t, x, r);
        assert forall|name: Seq<char>| #[trigger] of_app(t.push(x), name) == if x.app_name@ == name {
            of_app(t, name).push(x)
        } else {
            of_app(t, name)
        } by {
            t.lemma_filter_push(x, |n: Notification| n.app_name@ == name);
        }
        let a = gs.last().app_name@;
        let n = groups_named(r, x.app_name@);
        if x.app_name@ == a {
            assert(of_app(t.push(x), a).to_multiset() =~= of_app(t, a).to_multiset().insert(x));
            assert(copies(x, n + 1) =~= copies(x, n).insert(x));
        } else {
            assert(of_app(t.push(x), a) == of_app(t, a));
        }
    }
}

proof fn lemma_members_multiset_cover(s: Seq<Notification>, gs: Seq<NotificationGroup>)
    requires
        forall|i: int, j: int| 0 <= i < gs.len() && 0 <= j < gs.len() && i != j ==> #[trigger] gs[i].app_name@ != #[trigger] gs[j].app_name@,
        forall|k: int| 0 <= k < s.len() ==> #[trigger] has_group(gs, s[k].app_name@),
    ensures
        members_multiset(s, gs) =~= s.to_multiset(),
    decreases s.len(),
{
    broadcast use vstd::multiset::group_multiset_axioms;
    broadcast use vstd::seq_lib::group_to_multiset_ensures;
    if s.len() == 0 {
        assert(s =~= Seq::<Notification>::empty());
        lemma_members_multiset_empty(gs);
    } else {
        let t = s.drop_last();
        let x = s.last();
        assert forall|k: int| 0 <= k < t.len() implies #[trigger] has_group(gs, t[k].app_name@) by {
            assert(t[k] == s[k]);
        }
        lemma_members_multiset_cover(t, gs);
        assert(s =~= t.push(x));
        lemma_members_multiset_push(t, x, gs);
        assert(has_group(gs, s[s.len() - 1].app_name@));
        lemma_groups_named_once(gs, x.app_name@);
        reveal_with_fuel(copies, 2);
        assert(copies(x, 1) =~= Multiset::<Notification>::empty().insert(x));
    }
}

proof fn lemma_group_members_multiset(s: Seq<Notification>, gs: Seq<NotificationGroup>)
    requires
        forall|i: int| 0 <= i < gs.len() ==> (#[trigger] gs[i]).notifications@.to_multiset() == of_app(s, gs[i].app_name@).to_multiset(),
    ensures
        group_members(gs).to_multiset() =~= members_multiset(s, gs),
    decreases gs.len(),
{
    broadcast use vstd::seq_lib::group_to_multiset_ensures;
    if gs.len() > 0 {
        let r = gs.drop_last();
        assert forall|i: int| 0 <= i < r.len() implies (#[trigger] r[i]).notifications@.to_multiset() == of_app(s, r[i].app_name@).to_multiset() by {
            assert(r[i] == gs[i]);
        }
        lemma_group_members_multiset(s, r);
        assert(gs.last() == gs[gs.len() - 1]);
        vstd::seq_lib::lemma_multiset_commutative(group_members(r), gs.last().notifications@);
    }
}

/// Grouping by application rearranges the notifications: taken group after
/// group, the groups hold exactly the notifications of the list, each as
/// often as it occurs there.
pub proof fn law_grouping_is_permutation(s: Seq<Notification>, gs: Seq<NotificationGroup>)
    requires
        is_grouping_of(s, gs),
    ensures
        group_members(gs).to_multiset() == s.to_multiset(),
{
    assert forall|i: int| 0 <= i < gs.len() implies (#[trigger] gs[i]).notifications@.to_multiset() == of_app(s, gs[i].app_name@).to_multiset() by {
        crate::order::lemma_newest_first_sorted_permutation(of_app(s, gs[i].app_name@));
    }
    lemma_group_members_multiset(s, gs);
    lemma_members_multiset_cover(s, gs);
}

/// The application names of a list of notifications.
pub open spec fn app_names(s: Seq<Notification>) -> Seq<Seq<char>> {
    s.map_values(|n: Notification| n.app_name@)
}

/// The application names of a list of groups.
pub open spec fn group_names(gs: Seq<NotificationGroup>) -> Seq<Seq<char>> {
    gs.map_values(|g: NotificationGroup| g.app_name@)
}

/// Grouping by application gives one group for each distinct application
/// name of the list (none for an empty list).
pub proof fn law_one_group_per_app(s: Seq<Notification>, gs: Seq<NotificationGroup>)
    requires
        is_grouping_of(s, gs),
    ensures
        gs.len() == app_names(s).to_set().len(),
{
    broadcast use vstd::seq_lib::group_filter_ensures;
    broadcast use vstd::seq_lib::group_to_multiset_ensures;
    let names = group_names(gs);
    assert(names.no_duplicates()) by {
        assert forall|i: int, j: int| 0 <= i < names.len() && 0 <= j < names.len() && i != j implies names[i] != names[j] by {
            assert(names[i] == gs[i].app_name@);
            assert(names[j] == gs[j].app_name@);
        }
    }
    names.unique_seq_to_set();
    assert forall|name: Seq<char>| names.to_set().contains(name) <==> app_names(s).to_set().contains(name) by {
        if names.contains(name) {
            let i = choose|i: int| 0 <= i < names.len() && names[i] == name;
            assert(names[i] == gs[i].app_name@);
            let f = of_app(s, name);
            crate::order::lemma_newest_first_sorted_permutation(f);
            assert(gs[i].notifications.len() > 0);
            assert(f.len() > 0);
            assert(f[0].app_name@ == name);
            assert(f.contains(f[0]));
            s.lemma_filter_contains_rev(|n: Notification| n.app_name@ == name, f[0]);
            let k = choose|k: int| 0 <= k < s.len() && s[k] == f[0];
            assert(app_names(s)[k] == name);
        }
        if app_names(s).contains(name) {
            let k = choose|k: int| 0 <= k < app_names(s).len() && app_names(s)[k] == name;
            assert(s[k].app_name@ == name);
            assert(has_group(gs, s[k].app_name@));
            let i = choose|i: int| 0 <= i < gs.len() && #[trigger] gs[i].app_name@ == name;
            assert(names[i] == name);
        }
    }
    assert(names.to_set() =~= app_names(s).to_set());
}

} // verus!
