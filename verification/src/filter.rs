//! Notification filtering: blocked apps, priority apps, quiet hours, DND, urgency.
//!
//! The [`NotificationFilter`] evaluates incoming notifications against the
//! configured filter rules and Do-Not-Disturb state. Times are given as
//! nanoseconds since the Unix epoch; times of day as seconds since local
//! midnight.

use vstd::prelude::*;

use crate::clock::{hour_minute_parse, local_seconds_of_day, now_nanos, parse_hour_minute};
use crate::config::{FilterConfig, QuietHours};
use crate::notification::{Notification, Urgency};
use crate::text::{lowercase, same_lowercase, to_lowercase};

verus! {

broadcast use vstd::seq::group_seq_axioms;

/// Result of filtering a notification.
#[derive(Debug, Clone, PartialEq, Eq)]
pub enum FilterResult {
    /// Show the notification normally.
    Allow,
    /// Suppress the notification (still goes to history), with the reason.
    Suppress(String),
}

/// A filter result as a value: `None` to allow, `Some(reason)` to suppress.
pub open spec fn result_view(r: FilterResult) -> Option<Seq<char>> {
    match r {
        FilterResult::Allow => None,
        FilterResult::Suppress(reason) => Some(reason@),
    }
}

/// Parsed quiet hours schedule, in seconds since midnight.
#[derive(Debug, Clone, Copy, PartialEq, Eq, Structural)]
pub struct QuietHoursSchedule {
    /// Start of the quiet period.
    pub start: u32,
    /// End of the quiet period (exclusive).
    pub end: u32,
}

/// Whether a time of day lies within the quiet period; a period whose start
/// is after its end runs overnight.
pub open spec fn within_quiet_hours(s: QuietHoursSchedule, now: u32) -> bool {
    if s.start <= s.end {
        now >= s.start && now < s.end
    } else {
        now >= s.start || now < s.end
    }
}

/// What `QuietHoursSchedule::from_config` gives for two texts.
pub open spec fn schedule_from_texts(start: Seq<char>, end: Seq<char>) -> Result<QuietHoursSchedule, Seq<char>> {
    match hour_minute_parse(start) {
        Err(e) => Err("invalid quiet hours start: "@ + e),
        Ok(s) => match hour_minute_parse(end) {
            Err(e) => Err("invalid quiet hours end: "@ + e),
            Ok(t) => Ok(QuietHoursSchedule { start: s, end: t }),
        },
    }
}

impl QuietHoursSchedule {
    /// Parse from config strings (e.g., "22:00" and "07:00").
    pub fn from_config(config: &QuietHours) -> (r: Result<QuietHoursSchedule, String>)
        ensures
            schedule_from_texts(config.start@, config.end@) == (match r {
                Ok(s) => Ok::<QuietHoursSchedule, Seq<char>>(s),
                Err(e) => Err::<QuietHoursSchedule, Seq<char>>(e@),
            }),
    {
        let start = match parse_hour_minute(config.start.as_str()) {
            Ok(v) => v,
            Err(e) => {
                return Err(String::from_str("invalid quiet hours start: ").concat(e.as_str()));
            }
        };
        let end = match parse_hour_minute(config.end.as_str()) {
            Ok(v) => v,
            Err(e) => {
                return Err(String::from_str("invalid quiet hours end: ").concat(e.as_str()));
            }
        };
        Ok(QuietHoursSchedule { start, end })
    }

    /// Whether the given time of day is within quiet hours.
    pub fn is_active_at(&self, now: u32) -> (r: bool)
        ensures
            r == within_quiet_hours(*self, now),
    {
        if self.start <= self.end {
            now >= self.start && now < self.end
        } else {
            now >= self.start || now < self.end
        }
    }

    /// Check if the current time is within quiet hours.
    pub fn is_active(&self) -> (r: bool)
        ensures
            exists|secs: u32| secs < 86400 && r == within_quiet_hours(*self, secs),
            self.start == self.end ==> !r,
    {
        self.is_active_at(local_seconds_of_day())
    }
}

/// Do-Not-Disturb state with optional schedule.
#[derive(Debug, Clone, Copy, PartialEq, Eq, Structural)]
pub struct DndState {
    /// Whether DND is manually enabled.
    pub enabled: bool,
    /// When DND was manually enabled (for timed DND), in nanoseconds since the epoch.
    pub enabled_at: Option<i128>,
    /// Duration in minutes for timed DND (None = indefinite).
    pub duration_minutes: Option<u32>,
    /// Quiet hours schedule.
    pub quiet_hours: Option<QuietHoursSchedule>,
}

/// Whole minutes from `from` to `to` (nanoseconds), truncated toward zero.
pub open spec fn whole_minutes(from: i128, to: i128) -> int {
    let d = to - from;
    if d >= 0 { d / 60_000_000_000 } else { -((-d) / 60_000_000_000) }
}

/// Whether manual DND is active at the instant `now`: enabled, and not a
/// timed DND whose duration has run out.
pub open spec fn manually_active_at(d: DndState, now: i128) -> bool {
    d.enabled && !(d.enabled_at is Some && d.duration_minutes is Some
        && whole_minutes(d.enabled_at->Some_0, now) >= d.duration_minutes->Some_0)
}

/// Whether quiet hours are active at the time of day `secs`.
pub open spec fn quiet_at(d: DndState, secs: u32) -> bool {
    d.quiet_hours matches Some(q) && within_quiet_hours(q, secs)
}

/// Whether DND is active at the instant `now` whose time of day is `secs`.
pub open spec fn dnd_active_at(d: DndState, now: i128, secs: u32) -> bool {
    manually_active_at(d, now) || quiet_at(d, secs)
}

impl Default for DndState {
    fn default() -> (d: Self)
        ensures
            !d.enabled,
            d.enabled_at is None,
            d.duration_minutes is None,
            d.quiet_hours is None,
    {
        DndState { enabled: false, enabled_at: None, duration_minutes: None, quiet_hours: None }
    }
}

/// Whether fewer than `duration` whole minutes run from `from` to `to`.
fn within_minutes(from: i128, to: i128, duration: u32) -> (r: bool)
    ensures
        r == (whole_minutes(from, to) < duration),
{
    match to.checked_sub(from) {
        Some(d) => {
            if d >= 0 {
                d / 60_000_000_000 < duration as i128
            } else {
                duration > 0 || d <= -60_000_000_000
            }
        },
        None => {
            proof {
                let e = to - from;
                if e > 0 {
                    assert(e / 60_000_000_000 >= 0x1_0000_0000) by (nonlinear_arith)
                        requires e > 0x7fff_ffff_ffff_ffff_ffff_ffff_ffff_ffff;
                } else {
                    assert(-e >= 60_000_000_000);
                    assert((-e) / 60_000_000_000 >= 1) by (nonlinear_arith)
                        requires -e >= 60_000_000_000;
                }
            }
            to < from
        },
    }
}

impl DndState {
    /// Whether manual DND is active at the instant `now`.
    pub fn is_manually_active_at(&self, now: i128) -> (r: bool)
        ensures
            r == manually_active_at(*self, now),
    {
        if !self.enabled {
            return false;
        }
        match (self.enabled_at, self.duration_minutes) {
            (Some(at), Some(duration)) => {
                within_minutes(at, now, duration)
            }
            _ => true,
        }
    }

    /// Whether quiet hours are active at the time of day `secs`.
    pub fn is_quiet_hours_at(&self, secs: u32) -> (r: bool)
        ensures
            r == quiet_at(*self, secs),
    {
        match self.quiet_hours {
            Some(q) => q.is_active_at(secs),
            None => false,
        }
    }

    /// Whether DND is active (manually or by quiet hours) at the instant
    /// `now` whose time of day is `secs`.
    pub fn is_active_at(&self, now: i128, secs: u32) -> (r: bool)
        ensures
            r == dnd_active_at(*self, now, secs),
    {
        self.is_manually_active_at(now) || self.is_quiet_hours_at(secs)
    }

    /// Check if DND is currently active (manual or quiet hours).
    pub fn is_active(&self) -> (r: bool)
        ensures
            exists|now: i128, secs: u32| secs < 86400 && r == dnd_active_at(*self, now, secs),
            !self.enabled && self.quiet_hours is None ==> !r,
            self.enabled && (self.enabled_at is None || self.duration_minutes is None) ==> r,
    {
        let now = now_nanos();
        let secs = local_seconds_of_day();
        self.is_active_at(now, secs)
    }

    /// Check if manual DND is active (accounting for timed expiry).
    pub fn is_manually_active(&self) -> (r: bool)
        ensures
            exists|now: i128| r == manually_active_at(*self, now),
            !self.enabled ==> !r,
            self.enabled && (self.enabled_at is None || self.duration_minutes is None) ==> r,
    {
        self.is_manually_active_at(now_nanos())
    }

    /// Check if currently within quiet hours.
    pub fn is_quiet_hours(&self) -> (r: bool)
        ensures
            exists|secs: u32| secs < 86400 && r == quiet_at(*self, secs),
            self.quiet_hours is None ==> !r,
    {
        self.is_quiet_hours_at(local_seconds_of_day())
    }

    /// Enable DND indefinitely, from the instant `now`.
    pub fn enable_at(&mut self, now: i128)
        ensures
            *final(self) == (DndState { enabled: true, enabled_at: Some(now), duration_minutes: None, ..*old(self) }),
    {
        self.enabled = true;
        self.enabled_at = Some(now);
        self.duration_minutes = None;
    }

    /// Enable DND indefinitely.
    pub fn enable(&mut self)
        ensures
            final(self).enabled,
            final(self).enabled_at is Some,
            final(self).duration_minutes is None,
            final(self).quiet_hours == old(self).quiet_hours,
    {
        let now = now_nanos();
        self.enable_at(now);
    }

    /// Enable DND for `minutes`, from the instant `now`.
    pub fn enable_for_at(&mut self, minutes: u32, now: i128)
        ensures
            *final(self) == (DndState { enabled: true, enabled_at: Some(now), duration_minutes: Some(minutes), ..*old(self) }),
    {
        self.enabled = true;
        self.enabled_at = Some(now);
        self.duration_minutes = Some(minutes);
    }

    /// Enable DND for a duration.
    pub fn enable_for(&mut self, minutes: u32)
        ensures
            final(self).enabled,
            final(self).enabled_at is Some,
            final(self).duration_minutes == Some(minutes),
            final(self).quiet_hours == old(self).quiet_hours,
    {
        let now = now_nanos();
        self.enable_for_at(minutes, now);
    }

    /// Disable DND.
    pub fn disable(&mut self)
        ensures
            *final(self) == (DndState { enabled: false, enabled_at: None, duration_minutes: None, ..*old(self) }),
    {
        self.enabled = false;
        self.enabled_at = None;
        self.duration_minutes = None;
    }
}

/// Notification filter that applies rules, DND, and app filters.
pub struct NotificationFilter {
    /// Blocked application names (lowercase).
    blocked_apps: Vec<String>,
    /// Priority application names that bypass DND (lowercase).
    priority_apps: Vec<String>,
    /// Current DND state.
    dnd: DndState,
}

/// Whether a name is in a list of names.
pub open spec fn listed(names: Seq<Seq<char>>, name: Seq<char>) -> bool {
    names.contains(name)
}

/// The decision for a notification: `None` to allow it, `Some(reason)` to
/// suppress it. Blocked apps are always suppressed; critical notifications
/// and priority apps always pass; otherwise DND suppresses.
pub open spec fn decide(blocked: Seq<Seq<char>>, priority: Seq<Seq<char>>, dnd_active: bool, n: Notification) -> Option<Seq<char>> {
    let app = lowercase(n.app_name@);
    if listed(blocked, app) {
        Some("app '"@ + n.app_name@ + "' is blocked"@)
    } else if n.urgency == Urgency::Critical {
        None
    } else if listed(priority, app) {
        None
    } else if dnd_active {
        Some("do-not-disturb is active"@)
    } else {
        None
    }
}

/// The lowercased forms of a list of names.
pub open spec fn lowered(names: Seq<String>) -> Seq<Seq<char>> {
    names.map_values(|s: String| lowercase(s@))
}

/// Lowercases every name of a list.
fn lower_all(names: &Vec<String>) -> (r: Vec<String>)
    ensures
        r@.map_values(|s: String| s@) == lowered(names@),
{
    let mut r: Vec<String> = Vec::new();
    let mut i: usize = 0;
    while i < names.len()
        invariant
            i <= names.len(),
            r.len() == i,
            forall|k: int| 0 <= k < i ==> #[trigger] r@[k]@ == lowercase(names@[k]@),
        decreases names.len() - i,
    {
        r.push(to_lowercase(names[i].as_str()));
        i = i + 1;
    }
    assert(r@.map_values(|s: String| s@) =~= lowered(names@));
    r
}

/// Whether a lowercased name is in a list of lowercased names.
fn list_contains(names: &Vec<String>, name: &String) -> (r: bool)
    ensures
        r == listed(names@.map_values(|s: String| s@), name@),
{
    let ghost v = names@.map_values(|s: String| s@);
    let mut i: usize = 0;
    while i < names.len()
        invariant
            i <= names.len(),
            v == names@.map_values(|s: String| s@),
            forall|k: int| 0 <= k < i ==> v[k] != name@,
        decreases names.len() - i,
    {
        if names[i] == *name {
            assert(v[i as int] == name@);
            return true;
        }
        i = i + 1;
    }
    false
}

impl NotificationFilter {
    /// The blocked application names, lowercased.
    pub closed spec fn blocked(&self) -> Seq<Seq<char>> {
        self.blocked_apps@.map_values(|s: String| s@)
    }

    /// The priority application names, lowercased.
    pub closed spec fn priority(&self) -> Seq<Seq<char>> {
        self.priority_apps@.map_values(|s: String| s@)
    }

    /// The DND state.
    pub closed spec fn dnd_view(&self) -> DndState {
        self.dnd
    }

    /// Create a filter from config. Quiet hours that fail to parse are ignored.
    pub fn from_config(config: &FilterConfig, dnd_enabled: bool) -> (f: NotificationFilter)
        ensures
            f.blocked() == lowered(config.blocked_apps@),
            f.priority() == lowered(config.priority_apps@),
            f.dnd_view().enabled == dnd_enabled,
            f.dnd_view().enabled_at is None,
            f.dnd_view().duration_minutes is None,
            f.dnd_view().quiet_hours == (match config.quiet_hours {
                Some(q) => match schedule_from_texts(q.start@, q.end@) {
                    Ok(s) => Some(s),
                    Err(_) => None,
                },
                None => None,
            }),
    {
        let quiet_hours = match &config.quiet_hours {
            Some(qh) => match QuietHoursSchedule::from_config(qh) {
                Ok(s) => Some(s),
                Err(_) => None,
            },
            None => None,
        };
        let mut dnd = DndState::default();
        dnd.enabled = dnd_enabled;
        dnd.quiet_hours = quiet_hours;
        NotificationFilter {
            blocked_apps: lower_all(&config.blocked_apps),
            priority_apps: lower_all(&config.priority_apps),
            dnd,
        }
    }

    /// Evaluate a notification against all filter rules, at the instant
    /// `now` whose local time of day is `secs`.
    pub fn evaluate_at(&self, notification: &Notification, now: i128, secs: u32) -> (r: FilterResult)
        ensures
            result_view(r) == decide(self.blocked(), self.priority(), dnd_active_at(self.dnd_view(), now, secs), *notification),
    {
        let app_lower = to_lowercase(notification.app_name.as_str());
        if list_contains(&self.blocked_apps, &app_lower) {
            let reason = String::from_str("app '").concat(notification.app_name.as_str()).concat("' is blocked");
            return FilterResult::Suppress(reason);
        }
        if notification.urgency == Urgency::Critical {
            return FilterResult::Allow;
        }
        if list_contains(&self.priority_apps, &app_lower) {
            return FilterResult::Allow;
        }
        if self.dnd.is_active_at(now, secs) {
            return FilterResult::Suppress(String::from_str("do-not-disturb is active"));
        }
        FilterResult::Allow
    }

    /// Evaluate a notification against all filter rules, now.
    pub fn evaluate(&self, notification: &Notification) -> (r: FilterResult)
        ensures
            exists|now: i128, secs: u32| secs < 86400 && result_view(r) == decide(self.blocked(), self.priority(), dnd_active_at(self.dnd_view(), now, secs), *notification),
    {
        let now = now_nanos();
        let secs = local_seconds_of_day();
        self.evaluate_at(notification, now, secs)
    }

    /// Get a reference to the DND state.
    pub fn dnd(&self) -> (d: &DndState)
        ensures
            *d == self.dnd_view(),
    {
        &self.dnd
    }

    /// Get a mutable reference to the DND state.
    pub fn dnd_mut(&mut self) -> (d: &mut DndState)
        ensures
            *d == old(self).dnd_view(),
            final(self).dnd_view() == *final(d),
            final(self).blocked() == old(self).blocked(),
            final(self).priority() == old(self).priority(),
    {
        &mut self.dnd
    }

    /// Check if an app is blocked (case-insensitive).
    pub fn is_blocked(&self, app_name: &str) -> (r: bool)
        ensures
            r == listed(self.blocked(), lowercase(app_name@)),
    {
        let lower = to_lowercase(app_name);
        list_contains(&self.blocked_apps, &lower)
    }

    /// Check if an app is a priority app (case-insensitive).
    pub fn is_priority(&self, app_name: &str) -> (r: bool)
        ensures
            r == listed(self.priority(), lowercase(app_name@)),
    {
        let lower = to_lowercase(app_name);
        list_contains(&self.priority_apps, &lower)
    }
}

/// A blocked application is suppressed whatever the DND state, urgency or
/// priority list.
pub proof fn law_blocked_always_suppressed(blocked: Seq<Seq<char>>, priority: Seq<Seq<char>>, dnd_active: bool, n: Notification)
    requires
        listed(blocked, lowercase(n.app_name@)),
    ensures
        decide(blocked, priority, dnd_active, n) == Some("app '"@ + n.app_name@ + "' is blocked"@),
{
}

/// A critical notification from an application that is not blocked always
/// passes, DND or not.
pub proof fn law_critical_passes(blocked: Seq<Seq<char>>, priority: Seq<Seq<char>>, dnd_active: bool, n: Notification)
    requires
        !listed(blocked, lowercase(n.app_name@)),
        n.urgency == Urgency::Critical,
    ensures
        decide(blocked, priority, dnd_active, n) is None,
{
}

/// A priority application that is not blocked bypasses DND.
pub proof fn law_priority_bypasses_dnd(blocked: Seq<Seq<char>>, priority: Seq<Seq<char>>, dnd_active: bool, n: Notification)
    requires
        !listed(blocked, lowercase(n.app_name@)),
        listed(priority, lowercase(n.app_name@)),
    ensures
        decide(blocked, priority, dnd_active, n) is None,
{
}

/// Without DND, only blocking suppresses; with DND, an ordinary notification
/// from an ordinary application is suppressed.
pub proof fn law_dnd_is_the_only_other_reason(blocked: Seq<Seq<char>>, priority: Seq<Seq<char>>, dnd_active: bool, n: Notification)
    requires
        !listed(blocked, lowercase(n.app_name@)),
    ensures
        !dnd_active ==> decide(blocked, priority, dnd_active, n) is None,
        dnd_active && n.urgency != Urgency::Critical && !listed(priority, lowercase(n.app_name@))
            ==> decide(blocked, priority, dnd_active, n) == Some("do-not-disturb is active"@),
{
}

/// DND enabled for `minutes` at instant `t` stays on exactly while fewer
/// than `minutes` whole minutes have passed since `t`.
pub proof fn law_timed_dnd_expires(d: DndState, minutes: u32, t: i128, now: i128)
    requires
        t <= now,
    ensures
        manually_active_at(DndState { enabled: true, enabled_at: Some(t), duration_minutes: Some(minutes), ..d }, now)
            <==> (now - t) < minutes * 60_000_000_000,
{
    let e = now - t;
    assert(e / 60_000_000_000 < minutes <==> e < minutes * 60_000_000_000) by (nonlinear_arith)
        requires
            e >= 0,
            minutes >= 0;
}

/// DND enabled with no duration stays on at every later instant.
pub proof fn law_untimed_dnd_stays(d: DndState, t: i128, now: i128)
    ensures
        manually_active_at(DndState { enabled: true, enabled_at: Some(t), duration_minutes: None, ..d }, now),
{
}

/// After DND is disabled, only quiet hours can make it active.
pub proof fn law_disabled_dnd(d: DndState, now: i128, secs: u32)
    ensures
        !manually_active_at(DndState { enabled: false, enabled_at: None, duration_minutes: None, ..d }, now),
        dnd_active_at(DndState { enabled: false, enabled_at: None, duration_minutes: None, ..d }, now, secs) == quiet_at(d, secs),
{
}

/// DND that was never enabled and has no quiet hours is never active.
pub proof fn law_default_dnd_inactive(d: DndState, now: i128, secs: u32)
    requires
        !d.enabled,
        d.quiet_hours is None,
    ensures
        !dnd_active_at(d, now, secs),
{
}

} // verus!
