//! Daemon command handling: the decisions the daemon takes for each IPC
//! command, over its history and filter. Receiving commands, writing the
//! history file and encoding replies are the application's part; each
//! outcome says whether the history file must be written.

use vstd::prelude::*;

use crate::clock::{cutoff_fits, cutoff_near, local_seconds_of_day, new_uuid, now_and_cutoff, parse_uuid, uuid_parse};
use crate::filter::{decide, dnd_active_at, manually_active_at, quiet_at, result_view, FilterResult, NotificationFilter, DndState};
use crate::history::{active_in, all_read, apply_limits, first_with_id, has_id, HistoryStore};
use crate::notification::{group_by_app, is_grouping_of, undismissed, unread_in, urgency_named, Notification, NotificationGroup, Urgency};
use crate::order::newest_first;
use crate::text::{decimal, decimal_text, lowercase};

verus! {

broadcast use vstd::seq::group_seq_axioms;

/// IPC command sent to the daemon over the Unix socket.
#[derive(Debug, Clone)]
pub enum DaemonCommand {
    /// Send a notification to the daemon.
    Send { app_name: String, title: String, body: String, urgency: Option<String> },
    /// Dismiss a notification by ID.
    Dismiss { id: String },
    /// Dismiss all notifications.
    DismissAll,
    /// Get recent notifications.
    List { limit: Option<usize>, app: Option<String> },
    /// Search notification history.
    Search { query: String },
    /// Get current status (DND, counts).
    Status,
    /// Enable DND.
    DndOn { minutes: Option<u32> },
    /// Disable DND.
    DndOff,
    /// Clear history.
    Clear { app: Option<String> },
    /// Mark notification as read.
    MarkRead { id: String },
    /// Mark all as read.
    MarkAllRead,
    /// Health check.
    Health,
}

/// The structured data of a reply.
#[derive(Debug, Clone)]
pub enum ResponseData {
    /// A notification was received.
    Sent { id: u128, displayed: bool, reason: Option<String>, notification: Notification },
    /// A page of the history, and the history's size.
    Listed { notifications: Vec<Notification>, total: usize },
    /// Search results.
    Found { results: Vec<Notification> },
    /// The daemon's status (its uptime is added by the caller).
    Status {
        dnd: bool,
        dnd_manual: bool,
        dnd_quiet_hours: bool,
        total: usize,
        unread: usize,
        active: usize,
        groups: Vec<NotificationGroup>,
    },
    /// The daemon is healthy (the health report is built by the caller).
    Health,
}

/// IPC response from the daemon.
#[derive(Debug, Clone)]
pub enum DaemonResponse {
    /// Success, with a message or data.
    Success { message: Option<String>, data: Option<ResponseData> },
    /// Failure, with a message.
    Failure { message: String },
}

/// Whether the history file must be written after a command.
#[derive(Debug, Clone)]
pub enum Persist {
    /// The history did not change.
    Nothing,
    /// The history changed: write it; where writing fails and a prefix is
    /// given, the reply becomes an error of the prefix and the write error.
    Write { error_prefix: Option<String> },
    /// The history changed once per dismissed notification: write it that
    /// many times, and reply with `dismissed_reply` of the number of writes
    /// that succeed.
    WriteEach { writes: usize },
}

/// The reply to a command and whether the history must be written.
#[derive(Debug, Clone)]
pub struct CommandOutcome {
    /// The reply.
    pub response: DaemonResponse,
    /// Whether to write the history file.
    pub persist: Persist,
}

/// Whether a reply is a success carrying exactly the message `text`.
pub open spec fn is_ok_message(r: DaemonResponse, text: Seq<char>) -> bool {
    r matches DaemonResponse::Success { message: Some(m), data: None } && m@ == text
}

/// Whether a reply is an error with the message `text`.
pub open spec fn is_error(r: DaemonResponse, text: Seq<char>) -> bool {
    r matches DaemonResponse::Failure { message } && message@ == text
}

/// Whether the history must be written, with an error prefix `p` (`None`
/// where write errors are ignored).
pub open spec fn writes(p: Persist, prefix: Option<Seq<char>>) -> bool {
    p matches Persist::Write { error_prefix } && match (error_prefix, prefix) {
        (Some(a), Some(b)) => a@ == b,
        (None, None) => true,
        _ => false,
    }
}

/// The urgency of a `Send` command: its text parsed ignoring case, `Normal`
/// when absent or unknown.
pub open spec fn send_urgency(u: Option<String>) -> Urgency {
    match u {
        Some(t) => match urgency_named(lowercase(t@)) {
            Some(v) => v,
            None => Urgency::Normal,
        },
        None => Urgency::Normal,
    }
}

/// The history with the first entry of the identifier dismissed.
pub open spec fn dismiss_first(s: Seq<Notification>, id: u128) -> Seq<Notification> {
    if has_id(s, id) {
        let j = choose|j: int| first_with_id(s, id, j);
        s.update(j, Notification { dismissed: true, ..s[j] })
    } else {
        s
    }
}

/// The history after dismissing, in turn, the first entry of each identifier.
pub open spec fn dismiss_each(s: Seq<Notification>, ids: Seq<u128>) -> Seq<Notification>
    decreases ids.len(),
{
    if ids.len() == 0 {
        s
    } else {
        dismiss_each(dismiss_first(s, ids[0]), ids.drop_first())
    }
}

/// The identifiers of the undismissed notifications, newest first.
pub open spec fn active_ids(s: Seq<Notification>) -> Seq<u128> {
    newest_first(s).filter(|n: Notification| !n.dismissed).map_values(|n: Notification| n.id)
}

/// The number of entries that a `List` command returns at most.
pub open spec fn list_limit(limit: Option<usize>) -> int {
    match limit {
        Some(l) => l as int,
        None => 50,
    }
}


/// Whether two stores hold the same entries under the same settings.
pub open spec fn same_store(a: HistoryStore, b: HistoryStore) -> bool {
    &&& a@ == b@
    &&& a.max() == b.max()
    &&& a.retention() == b.retention()
    &&& a.path_view() == b.path_view()
}

/// Whether the store `b` holds `entries` under the settings of `a`.
pub open spec fn store_becomes(a: HistoryStore, b: HistoryStore, entries: Seq<Notification>) -> bool {
    &&& b@ == entries
    &&& a.max() == b.max()
    &&& a.retention() == b.retention()
    &&& a.path_view() == b.path_view()
}

/// Whether the filter `b` is `a` with the DND state `d`.
pub open spec fn filter_becomes(a: NotificationFilter, b: NotificationFilter, d: DndState) -> bool {
    &&& b.dnd_view() == d
    &&& b.blocked() == a.blocked()
    &&& b.priority() == a.priority()
}

/// The notification that a `Send` command creates.
pub open spec fn sent_notification(app: Seq<char>, title: Seq<char>, body: Seq<char>, urgency: Urgency, id: u128, now: i128, n: Notification) -> bool {
    &&& n.id == id
    &&& n.timestamp == now
    &&& n.app_name@ == app
    &&& n.title@ == title
    &&& n.body@ == body
    &&& n.urgency == urgency
    &&& !n.read
    &&& !n.dismissed
}

/// A view of a response's notifications.
pub open spec fn listed_view(v: Vec<Notification>) -> Seq<Notification> {
    v@
}

/// What handling `Send` does: the reply carries the notification `n` that
/// was created and stored (with the limits applied), and says whether the
/// filter lets it be shown.
pub open spec fn send_handled(pre: DaemonState, post: DaemonState, app: Seq<char>, title: Seq<char>, body: Seq<char>, u: Urgency, now: i128, secs: u32, new_id: u128, cutoff: Option<i128>, out: CommandOutcome) -> bool {
    &&& writes(out.persist, Some("failed to store: "@))
    &&& post.filter == pre.filter
    &&& out.response matches DaemonResponse::Success { message: Some(m), data: Some(ResponseData::Sent { id, displayed, reason, notification: n }) }
    &&& {
        let n = out.response->Success_data->Some_0->Sent_notification;
        let m = out.response->Success_message->Some_0;
        let displayed = out.response->Success_data->Some_0->Sent_displayed;
        let reason = out.response->Success_data->Some_0->Sent_reason;
        &&& out.response->Success_data->Some_0->Sent_id == new_id
        &&& sent_notification(app, title, body, u, new_id, now, n)
        &&& store_becomes(pre.history, post.history, apply_limits(pre.history@.push(n), cutoff, pre.history.max()))
        &&& match decide(pre.filter.blocked(), pre.filter.priority(), dnd_active_at(pre.filter.dnd_view(), now, secs), n) {
            None => m@ == "notification received"@ && displayed && reason is None,
            Some(why) => m@ == "notification suppressed: "@ + why && !displayed && (reason matches Some(r) && r@ == why),
        }
    }
}

/// What handling a command does, at the instant `now` (time of day `secs`),
/// with `new_id` as the identifier of a new notification and `cutoff` as
/// the history's retention cutoff: the state before (`pre`) and after
/// (`post`) and the outcome.
pub open spec fn handled(pre: DaemonState, post: DaemonState, cmd: DaemonCommand, now: i128, secs: u32, new_id: u128, cutoff: Option<i128>, out: CommandOutcome) -> bool {
    match cmd {
        DaemonCommand::Send { app_name, title, body, urgency } =>
            send_handled(pre, post, app_name@, title@, body@, send_urgency(urgency), now, secs, new_id, cutoff, out),
        DaemonCommand::Dismiss { id } => {
            &&& post.filter == pre.filter
            &&& match uuid_parse(id@) {
                Err(e) => same_store(pre.history, post.history) && is_error(out.response, "invalid ID: "@ + e) && out.persist is Nothing,
                Ok(u) => if has_id(pre.history@, u) {
                    &&& store_becomes(pre.history, post.history, dismiss_first(pre.history@, u))
                    &&& is_ok_message(out.response, "notification dismissed"@)
                    &&& writes(out.persist, Some("dismiss failed: "@))
                } else {
                    &&& same_store(pre.history, post.history)
                    &&& is_error(out.response, "notification not found"@)
                    &&& out.persist is Nothing
                },
            }
        },
        DaemonCommand::DismissAll => {
            &&& post.filter == pre.filter
            &&& store_becomes(pre.history, post.history, dismiss_each(pre.history@, active_ids(pre.history@)))
            &&& is_ok_message(out.response, decimal_text(active_ids(pre.history@).len()) + " notifications dismissed"@)
            &&& out.persist matches Persist::WriteEach { writes } && writes == active_ids(pre.history@).len()
        },
        DaemonCommand::List { limit, app } => {
            &&& post.filter == pre.filter
            &&& same_store(pre.history, post.history)
            &&& out.persist is Nothing
            &&& {
                let all = newest_first(pre.history@);
                let chosen = match app {
                    Some(a) => all.filter(crate::history::of_app_named(lowercase(a@))),
                    None => all,
                };
                let shown = chosen.take(if list_limit(limit) < chosen.len() { list_limit(limit) } else { chosen.len() as int });
                out.response matches DaemonResponse::Success { message: None, data: Some(ResponseData::Listed { notifications, total }) }
                    && listed_view(notifications) == shown && total == pre.history@.len()
            }
        },
        DaemonCommand::Search { query } => {
            &&& post.filter == pre.filter
            &&& same_store(pre.history, post.history)
            &&& out.persist is Nothing
            &&& out.response matches DaemonResponse::Success { message: None, data: Some(ResponseData::Found { results }) }
                && listed_view(results) == newest_first(pre.history@).filter(crate::history::matching_query(lowercase(query@)))
        },
        DaemonCommand::Status => {
            &&& post.filter == pre.filter
            &&& same_store(pre.history, post.history)
            &&& out.persist is Nothing
            &&& out.response matches DaemonResponse::Success { message: None, data: Some(ResponseData::Status { dnd, dnd_manual, dnd_quiet_hours, total, unread, active, groups }) }
                && dnd == dnd_active_at(pre.filter.dnd_view(), now, secs)
                && dnd_manual == manually_active_at(pre.filter.dnd_view(), now)
                && dnd_quiet_hours == quiet_at(pre.filter.dnd_view(), secs)
                && total == pre.history@.len()
                && unread == unread_in(pre.history@)
                && active == active_in(pre.history@)
                && is_grouping_of(newest_first(pre.history@).filter(|n: Notification| !n.dismissed), groups@)
        },
        DaemonCommand::DndOn { minutes } => {
            &&& same_store(pre.history, post.history)
            &&& out.persist is Nothing
            &&& match minutes {
                Some(m) => filter_becomes(pre.filter, post.filter, DndState { enabled: true, enabled_at: Some(now), duration_minutes: Some(m), ..pre.filter.dnd_view() })
                    && is_ok_message(out.response, "DND enabled for "@ + decimal_text(m as nat) + " minutes"@),
                None => filter_becomes(pre.filter, post.filter, DndState { enabled: true, enabled_at: Some(now), duration_minutes: None, ..pre.filter.dnd_view() })
                    && is_ok_message(out.response, "DND enabled"@),
            }
        },
        DaemonCommand::DndOff => {
            &&& same_store(pre.history, post.history)
            &&& out.persist is Nothing
            &&& filter_becomes(pre.filter, post.filter, DndState { enabled: false, enabled_at: None, duration_minutes: None, ..pre.filter.dnd_view() })
            &&& is_ok_message(out.response, "DND disabled"@)
        },
        DaemonCommand::Clear { app } => {
            &&& post.filter == pre.filter
            &&& match app {
                Some(a) => {
                    let kept = pre.history@.filter(crate::history::not_of_app_named(lowercase(a@)));
                    let removed = pre.history@.len() - kept.len();
                    &&& store_becomes(pre.history, post.history, kept)
                    &&& is_ok_message(out.response, decimal_text(removed as nat) + " entries cleared for "@ + a@)
                    &&& if removed > 0 { writes(out.persist, Some("clear failed: "@)) } else { out.persist is Nothing }
                },
                None => {
                    &&& store_becomes(pre.history, post.history, Seq::<Notification>::empty())
                    &&& is_ok_message(out.response, "all history cleared"@)
                    &&& writes(out.persist, Some("clear failed: "@))
                },
            }
        },
        DaemonCommand::MarkRead { id } => {
            &&& post.filter == pre.filter
            &&& match uuid_parse(id@) {
                Err(e) => same_store(pre.history, post.history) && is_error(out.response, "invalid ID: "@ + e) && out.persist is Nothing,
                Ok(u) => if has_id(pre.history@, u) {
                    &&& exists|j: int| first_with_id(pre.history@, u, j)
                        && store_becomes(pre.history, post.history, pre.history@.update(j, Notification { read: true, ..pre.history@[j] }))
                    &&& is_ok_message(out.response, "marked as read"@)
                    &&& writes(out.persist, Some("mark read failed: "@))
                } else {
                    &&& same_store(pre.history, post.history)
                    &&& is_error(out.response, "notification not found"@)
                    &&& out.persist is Nothing
                },
            }
        },
        DaemonCommand::MarkAllRead => {
            let count = unread_in(pre.history@);
            &&& post.filter == pre.filter
            &&& store_becomes(pre.history, post.history, all_read(pre.history@))
            &&& is_ok_message(out.response, decimal_text(count) + " notifications marked as read"@)
            &&& if count > 0 { writes(out.persist, Some("mark all read failed: "@)) } else { out.persist is Nothing }
        },
        DaemonCommand::Health => {
            &&& post.filter == pre.filter
            &&& same_store(pre.history, post.history)
            &&& out.persist is Nothing
            &&& out.response == (DaemonResponse::Success { message: None, data: Some(ResponseData::Health) })
        },
    }
}

/// Shared daemon state: the history and the filter.
pub struct DaemonState {
    /// The notification history.
    pub history: HistoryStore,
    /// The notification filter, with its DND state.
    pub filter: NotificationFilter,
}

/// A success reply with a message.
fn ok_message(message: String) -> (r: DaemonResponse)
    ensures
        is_ok_message(r, message@),
{
    DaemonResponse::Success { message: Some(message), data: None }
}

/// A success reply with data.
fn ok_data(data: ResponseData) -> (r: DaemonResponse)
    ensures
        r == (DaemonResponse::Success { message: None, data: Some(data) }),
{
    DaemonResponse::Success { message: None, data: Some(data) }
}

/// The reply to dismissing all: how many notifications were dismissed
/// (with their writes to the history file done).
pub fn dismissed_reply(count: usize) -> (r: DaemonResponse)
    ensures
        is_ok_message(r, decimal_text(count as nat) + " notifications dismissed"@),
{
    ok_message(decimal(count as u64).concat(" notifications dismissed"))
}

/// An error reply.
fn error(message: String) -> (r: DaemonResponse)
    ensures
        is_error(r, message@),
{
    DaemonResponse::Failure { message }
}

fn no_write() -> (p: Persist)
    ensures
        p is Nothing,
{
    Persist::Nothing
}

fn write_with(prefix: &str) -> (p: Persist)
    ensures
        writes(p, Some(prefix@)),
{
    Persist::Write { error_prefix: Some(String::from_str(prefix)) }
}

/// The urgency of a `Send` command.
fn urgency_of(u: &Option<String>) -> (r: Urgency)
    ensures
        r == send_urgency(*u),
{
    match u {
        Some(t) => match Urgency::parse(t.as_str()) {
            Ok(v) => v,
            Err(_) => Urgency::Normal,
        },
        None => Urgency::Normal,
    }
}

impl DaemonState {
    /// Dismisses every undismissed notification, newest first; returns how
    /// many were dismissed.
    fn dismiss_all(&mut self) -> (count: usize)
        ensures
            final(self).history@ == dismiss_each(old(self).history@, active_ids(old(self).history@)),
            count == active_ids(old(self).history@).len(),
            final(self).history.max() == old(self).history.max(),
            final(self).history.retention() == old(self).history.retention(),
            final(self).history.path_view() == old(self).history.path_view(),
            final(self).filter == old(self).filter,
    {
        let all = self.history.all();
        let ghost s0 = self.history@;
        let ghost ids = active_ids(s0);
        let mut active: Vec<u128> = Vec::new();
        let mut i: usize = 0;
        let ghost pred = |n: Notification| !n.dismissed;
        assert(all@.take(0) =~= Seq::<Notification>::empty());
        while i < all.len()
            invariant
                i <= all.len(),
                all@ == newest_first(s0),
                pred == (|n: Notification| !n.dismissed),
                active@ == all@.take(i as int).filter(pred).map_values(|n: Notification| n.id),
            decreases all.len() - i,
        {
            proof {
                assert(all@.take(i + 1) =~= all@.take(i as int).push(all@[i as int]));
                all@.take(i as int).lemma_filter_push(all@[i as int], pred);
            }
            if !all[i].dismissed {
                active.push(all[i].id);
                assert(active@ =~= all@.take(i + 1).filter(pred).map_values(|n: Notification| n.id));
            } else {
                assert(active@ =~= all@.take(i + 1).filter(pred).map_values(|n: Notification| n.id));
            }
            i = i + 1;
        }
        assert(all@.take(all.len() as int) =~= all@);
        assert(active@ == ids);
        proof {
            crate::order::lemma_newest_first_sorted_permutation(s0);
            assert(ids.skip(0) =~= ids);
            let f = newest_first(s0).filter(pred);
            assert forall|m: int| 0 <= m < ids.len() implies has_id(s0, #[trigger] ids[m]) by {
                broadcast use vstd::seq_lib::group_to_multiset_ensures;
                assert(f.contains(f[m]));
                newest_first(s0).lemma_filter_contains_rev(pred, f[m]);
                assert(newest_first(s0).to_multiset().count(f[m]) > 0);
                assert(s0.contains(f[m]));
                let w = choose|w: int| 0 <= w < s0.len() && s0[w] == f[m];
                assert(s0[w].id == ids[m]);
            }
        }
        let mut count: usize = 0;
        let mut k: usize = 0;
        while k < active.len()
            invariant
                k <= active.len(),
                active@ == ids,
                count == k,
                dismiss_each(s0, ids) == dismiss_each(self.history@, ids.skip(k as int)),
                forall|m: int| k <= m < ids.len() ==> has_id(self.history@, #[trigger] ids[m]),
                self.history.max() == old(self).history.max(),
                self.history.retention() == old(self).history.retention(),
                self.history.path_view() == old(self).history.path_view(),
                self.filter == old(self).filter,
            decreases active.len() - k,
        {
            let ghost before = self.history@;
            let found = self.history.dismiss(active[k]);
            proof {
                assert(ids.skip(k as int).drop_first() =~= ids.skip(k + 1));
                assert(ids.skip(k as int)[0] == ids[k as int]);
                assert(has_id(before, ids[k as int]));
                let j = choose|j: int| first_with_id(before, ids[k as int], j) && self.history@ == before.update(j, Notification { dismissed: true, ..before[j] });
                let j2 = choose|j: int| first_with_id(before, ids[k as int], j);
                assert(j == j2) by {
                    if j < j2 { assert(before[j].id != ids[k as int]); }
                    if j2 < j { assert(before[j2].id != ids[k as int]); }
                }
                assert(self.history@ == dismiss_first(before, ids[k as int]));
                assert forall|m: int| k + 1 <= m < ids.len() implies has_id(self.history@, #[trigger] ids[m]) by {
                    assert(has_id(before, ids[m]));
                    let w = choose|w: int| 0 <= w < before.len() && #[trigger] before[w].id == ids[m];
                    assert(self.history@[w].id == ids[m]);
                }
            }
            count = count + 1;
            k = k + 1;
        }
        assert(ids.skip(ids.len() as int) =~= Seq::<u128>::empty());
        count
    }

    fn handle_send(&mut self, app_name: String, title: String, body: String, urgency: Option<String>, now: i128, secs: u32, new_id: u128, cutoff: Option<i128>) -> (out: CommandOutcome)
        ensures
            handled(*old(self), *final(self), DaemonCommand::Send { app_name, title, body, urgency }, now, secs, new_id, cutoff, out),
    {
        let u = urgency_of(&urgency);
        let n = Notification::with_id_and_time(new_id, now, app_name.as_str(), title.as_str(), body.as_str()).with_urgency(u);
        let verdict = self.filter.evaluate_at(&n, now, secs);
        let kept = n.duplicate();
        self.history.push_with(n, cutoff);
        let persist = write_with("failed to store: ");
        let response = match verdict {
            FilterResult::Allow => DaemonResponse::Success {
                message: Some(String::from_str("notification received")),
                data: Some(ResponseData::Sent { id: new_id, displayed: true, reason: None, notification: kept }),
            },
            FilterResult::Suppress(reason) => {
                let message = String::from_str("notification suppressed: ").concat(reason.as_str());
                DaemonResponse::Success {
                    message: Some(message),
                    data: Some(ResponseData::Sent { id: new_id, displayed: false, reason: Some(reason), notification: kept }),
                }
            },
        };
        CommandOutcome { response, persist }
    }

    fn handle_dismiss(&mut self, id: String) -> (out: CommandOutcome)
        ensures
            forall|now: i128, secs: u32, new_id: u128, cutoff: Option<i128>|
                handled(*old(self), *final(self), DaemonCommand::Dismiss { id }, now, secs, new_id, cutoff, out),
    {
        match parse_uuid(id.as_str()) {
            Ok(u) => {
                let ghost before = self.history@;
                if self.history.dismiss(u) {
                    proof {
                        let j = choose|j: int| first_with_id(before, u, j) && self.history@ == before.update(j, Notification { dismissed: true, ..before[j] });
                        let j2 = choose|j: int| first_with_id(before, u, j);
                        assert(j == j2) by {
                            if j < j2 { assert(before[j].id != u); }
                            if j2 < j { assert(before[j2].id != u); }
                        }
                    }
                    CommandOutcome { response: ok_message(String::from_str("notification dismissed")), persist: write_with("dismiss failed: ") }
                } else {
                    CommandOutcome { response: error(String::from_str("notification not found")), persist: no_write() }
                }
            },
            Err(e) => CommandOutcome { response: error(String::from_str("invalid ID: ").concat(e.as_str())), persist: no_write() },
        }
    }

    fn handle_mark_read(&mut self, id: String) -> (out: CommandOutcome)
        ensures
            forall|now: i128, secs: u32, new_id: u128, cutoff: Option<i128>|
                handled(*old(self), *final(self), DaemonCommand::MarkRead { id }, now, secs, new_id, cutoff, out),
    {
        match parse_uuid(id.as_str()) {
            Ok(u) => {
                if self.history.mark_read(u) {
                    CommandOutcome { response: ok_message(String::from_str("marked as read")), persist: write_with("mark read failed: ") }
                } else {
                    CommandOutcome { response: error(String::from_str("notification not found")), persist: no_write() }
                }
            },
            Err(e) => CommandOutcome { response: error(String::from_str("invalid ID: ").concat(e.as_str())), persist: no_write() },
        }
    }

    fn handle_dismiss_all(&mut self) -> (out: CommandOutcome)
        ensures
            forall|now: i128, secs: u32, new_id: u128, cutoff: Option<i128>|
                handled(*old(self), *final(self), DaemonCommand::DismissAll, now, secs, new_id, cutoff, out),
    {
        let count = self.dismiss_all();
        CommandOutcome { response: dismissed_reply(count), persist: Persist::WriteEach { writes: count } }
    }

    fn handle_list(&self, limit: Option<usize>, app: Option<String>) -> (out: CommandOutcome)
        ensures
            forall|now: i128, secs: u32, new_id: u128, cutoff: Option<i128>|
                handled(*self, *self, DaemonCommand::List { limit, app }, now, secs, new_id, cutoff, out),
    {
        let lim: usize = match limit {
            Some(l) => l,
            None => 50,
        };
        let mut chosen = match &app {
            Some(a) => self.history.by_app(a.as_str()),
            None => self.history.recent(lim),
        };
        proof {
            crate::order::lemma_newest_first_sorted_permutation(self.history@);
        }
        let ghost before = chosen@;
        chosen.truncate(lim);
        proof {
            let all = newest_first(self.history@);
            match &app {
                Some(a) => {
                    assert(before == all.filter(crate::history::of_app_named(lowercase(a@))));
                },
                None => {
                    assert(before == all.take(if lim < all.len() { lim as int } else { all.len() as int }));
                },
            }
            if lim < before.len() {
                assert(chosen@ == before.take(lim as int));
            } else {
                assert(chosen@ == before);
            }
        }
        let total = self.history.len();
        proof {
            let all = newest_first(self.history@);
            let ch = match &app {
                Some(a) => all.filter(crate::history::of_app_named(lowercase(a@))),
                None => all,
            };
            let shown = ch.take(if list_limit(limit) < ch.len() { list_limit(limit) } else { ch.len() as int });
            assert(lim == list_limit(limit));
            assert(chosen@ =~= shown);
        }
        CommandOutcome { response: ok_data(ResponseData::Listed { notifications: chosen, total }), persist: no_write() }
    }

    fn handle_search(&self, query: String) -> (out: CommandOutcome)
        ensures
            forall|now: i128, secs: u32, new_id: u128, cutoff: Option<i128>|
                handled(*self, *self, DaemonCommand::Search { query }, now, secs, new_id, cutoff, out),
    {
        let results = self.history.search(query.as_str());
        CommandOutcome { response: ok_data(ResponseData::Found { results }), persist: no_write() }
    }

    fn handle_status(&self, now: i128, secs: u32) -> (out: CommandOutcome)
        ensures
            forall|new_id: u128, cutoff: Option<i128>|
                handled(*self, *self, DaemonCommand::Status, now, secs, new_id, cutoff, out),
    {
        let dnd = self.filter.dnd();
        let all = self.history.all();
        let active = undismissed(all.as_slice());
        let groups = group_by_app(active.as_slice());
        let data = ResponseData::Status {
            dnd: dnd.is_active_at(now, secs),
            dnd_manual: dnd.is_manually_active_at(now),
            dnd_quiet_hours: dnd.is_quiet_hours_at(secs),
            total: self.history.len(),
            unread: self.history.unread_count(),
            active: self.history.active_count(),
            groups,
        };
        CommandOutcome { response: ok_data(data), persist: no_write() }
    }

    fn handle_dnd_on(&mut self, minutes: Option<u32>, now: i128) -> (out: CommandOutcome)
        ensures
            forall|secs: u32, new_id: u128, cutoff: Option<i128>|
                handled(*old(self), *final(self), DaemonCommand::DndOn { minutes }, now, secs, new_id, cutoff, out),
    {
        match minutes {
            Some(m) => {
                self.filter.dnd_mut().enable_for_at(m, now);
                let message = String::from_str("DND enabled for ").concat(decimal(m as u64).as_str()).concat(" minutes");
                CommandOutcome { response: ok_message(message), persist: no_write() }
            },
            None => {
                self.filter.dnd_mut().enable_at(now);
                CommandOutcome { response: ok_message(String::from_str("DND enabled")), persist: no_write() }
            },
        }
    }

    fn handle_dnd_off(&mut self) -> (out: CommandOutcome)
        ensures
            forall|now: i128, secs: u32, new_id: u128, cutoff: Option<i128>|
                handled(*old(self), *final(self), DaemonCommand::DndOff, now, secs, new_id, cutoff, out),
    {
        self.filter.dnd_mut().disable();
        CommandOutcome { response: ok_message(String::from_str("DND disabled")), persist: no_write() }
    }

    fn handle_clear(&mut self, app: Option<String>) -> (out: CommandOutcome)
        ensures
            forall|now: i128, secs: u32, new_id: u128, cutoff: Option<i128>|
                handled(*old(self), *final(self), DaemonCommand::Clear { app }, now, secs, new_id, cutoff, out),
    {
        match &app {
            Some(a) => {
                let count = self.history.clear_app(a.as_str());
                let message = decimal(count as u64).concat(" entries cleared for ").concat(a.as_str());
                let persist = if count > 0 { write_with("clear failed: ") } else { no_write() };
                CommandOutcome { response: ok_message(message), persist }
            },
            None => {
                self.history.clear();
                CommandOutcome { response: ok_message(String::from_str("all history cleared")), persist: write_with("clear failed: ") }
            },
        }
    }

    fn handle_mark_all_read(&mut self) -> (out: CommandOutcome)
        ensures
            forall|now: i128, secs: u32, new_id: u128, cutoff: Option<i128>|
                handled(*old(self), *final(self), DaemonCommand::MarkAllRead, now, secs, new_id, cutoff, out),
    {
        let count = self.history.mark_all_read();
        let message = decimal(count as u64).concat(" notifications marked as read");
        let persist = if count > 0 { write_with("mark all read failed: ") } else { no_write() };
        CommandOutcome { response: ok_message(message), persist }
    }

    /// Process a daemon command at the instant `now` (local time of day
    /// `secs`), with `new_id` as the identifier of a notification it creates
    /// and `cutoff` as the history's retention cutoff.
    pub fn handle_command_at(&mut self, cmd: DaemonCommand, now: i128, secs: u32, new_id: u128, cutoff: Option<i128>) -> (out: CommandOutcome)
        ensures
            handled(*old(self), *final(self), cmd, now, secs, new_id, cutoff, out),
    {
        let ghost c = cmd;
        let ghost pre = *self;
        let out = match cmd {
            DaemonCommand::Send { app_name, title, body, urgency } => { let o = self.handle_send(app_name, title, body, urgency, now, secs, new_id, cutoff); assert(handled(pre, *self, c, now, secs, new_id, cutoff, o)); o },
            DaemonCommand::Dismiss { id } => { let o = self.handle_dismiss(id); assert(handled(pre, *self, c, now, secs, new_id, cutoff, o)); o },
            DaemonCommand::DismissAll => { let o = self.handle_dismiss_all(); assert(handled(pre, *self, c, now, secs, new_id, cutoff, o)); o },
            DaemonCommand::List { limit, app } => { let o = self.handle_list(limit, app); assert(handled(pre, *self, c, now, secs, new_id, cutoff, o)); o },
            DaemonCommand::Search { query } => { let ghost q = query; let o = self.handle_search(query); assert(c == DaemonCommand::Search { query: q }); assert(handled(pre, pre, DaemonCommand::Search { query: q }, now, secs, new_id, cutoff, o)); o },
            DaemonCommand::Status => { let o = self.handle_status(now, secs); assert(handled(pre, *self, c, now, secs, new_id, cutoff, o)); o },
            DaemonCommand::DndOn { minutes } => { let o = self.handle_dnd_on(minutes, now); assert(handled(pre, *self, c, now, secs, new_id, cutoff, o)); o },
            DaemonCommand::DndOff => { let o = self.handle_dnd_off(); assert(handled(pre, *self, c, now, secs, new_id, cutoff, o)); o },
            DaemonCommand::Clear { app } => { let o = self.handle_clear(app); assert(handled(pre, *self, c, now, secs, new_id, cutoff, o)); o },
            DaemonCommand::MarkRead { id } => { let o = self.handle_mark_read(id); assert(handled(pre, *self, c, now, secs, new_id, cutoff, o)); o },
            DaemonCommand::MarkAllRead => { let o = self.handle_mark_all_read(); assert(handled(pre, *self, c, now, secs, new_id, cutoff, o)); o },
            DaemonCommand::Health => { let o = CommandOutcome { response: ok_data(ResponseData::Health), persist: no_write() }; assert(handled(pre, *self, c, now, secs, new_id, cutoff, o)); o },
        };
        assert(handled(pre, *self, c, now, secs, new_id, cutoff, out));
        out
    }

    /// Process a daemon command now: the clock, a fresh UUID and the
    /// retention cutoff are read, then the command is handled as
    /// `handle_command_at` says.
    pub fn handle_command(&mut self, cmd: DaemonCommand) -> (out: CommandOutcome)
        ensures
            exists|now: i128, secs: u32, new_id: u128, cutoff: Option<i128>|
                secs < 86400 && cutoff_fits(now, cutoff, old(self).history.retention())
                    && cutoff_near(now, cutoff, old(self).history.retention())
                    && handled(*old(self), *final(self), cmd, now, secs, new_id, cutoff, out),
    {
        let (now, cutoff) = now_and_cutoff(self.history.retention_days_value());
        let secs = local_seconds_of_day();
        let new_id = new_uuid();
        let out = self.handle_command_at(cmd, now, secs, new_id, cutoff);
        assert(secs < 86400 && cutoff_fits(now, cutoff, old(self).history.retention())
            && cutoff_near(now, cutoff, old(self).history.retention())
            && handled(*old(self), *final(self), cmd, now, secs, new_id, cutoff, out));
        out
    }

}

/// The notification marked dismissed.
pub open spec fn as_dismissed(n: Notification) -> Notification {
    Notification { dismissed: true, ..n }
}

/// Whether every undismissed notification comes first among those with
/// its identifier.
pub open spec fn active_first_with_id(s: Seq<Notification>) -> bool {
    forall|m: int, k: int| 0 <= m < k < s.len() && !s[k].dismissed ==> #[trigger] s[m].id != #[trigger] s[k].id
}

/// A notification with the identifier comes first among those with it.
proof fn lemma_first_with_id_exists(s: Seq<Notification>, id: u128)
    requires
        has_id(s, id),
    ensures
        exists|j: int| first_with_id(s, id, j),
    decreases s.len(),
{
    let t = s.drop_last();
    if has_id(t, id) {
        lemma_first_with_id_exists(t, id);
        let j = choose|j: int| first_with_id(t, id, j);
        assert(s[j] == t[j]);
        assert forall|k: int| 0 <= k < j implies s[k].id != id by {
            assert(s[k] == t[k]);
        }
        assert(first_with_id(s, id, j));
    } else {
        let l = s.len() - 1;
        let w = choose|k: int| 0 <= k < s.len() && #[trigger] s[k].id == id;
        if w < l {
            assert(t[w] == s[w]);
        }
        assert forall|k: int| 0 <= k < l implies s[k].id != id by {
            assert(t[k] == s[k]);
        }
        assert(first_with_id(s, id, l));
    }
}

proof fn lemma_dismiss_each_all(s: Seq<Notification>, ids: Seq<u128>, orig: Seq<Notification>)
    requires
        s.len() == orig.len(),
        forall|k: int| 0 <= k < s.len() ==> #[trigger] s[k] == orig[k]
            || s[k] == as_dismissed(orig[k]),
        forall|k: int| 0 <= k < s.len() && !(#[trigger] s[k]).dismissed ==> ids.contains(s[k].id)
            && forall|m: int| 0 <= m < k ==> s[m].id != s[k].id,
    ensures
        dismiss_each(s, ids).len() == s.len(),
        forall|k: int| 0 <= k < s.len() ==> #[trigger] dismiss_each(s, ids)[k] == as_dismissed(orig[k]),
    decreases ids.len(),
{
    if ids.len() == 0 {
        assert forall|k: int| 0 <= k < s.len() implies #[trigger] s[k] == as_dismissed(orig[k]) by {
            assert(s[k].dismissed);
        }
    } else {
        let id = ids[0];
        let t = dismiss_first(s, id);
        let rest = ids.drop_first();
        if has_id(s, id) {
            lemma_first_with_id_exists(s, id);
            let j = choose|j: int| first_with_id(s, id, j);
            assert(t == s.update(j, as_dismissed(s[j])));
            assert forall|k: int| 0 <= k < t.len() implies #[trigger] t[k] == orig[k]
                || t[k] == as_dismissed(orig[k]) by {
                if k != j {
                    assert(t[k] == s[k]);
                } else {
                    assert(s[k] == orig[k] || s[k] == as_dismissed(orig[k]));
                }
            }
            assert forall|k: int| 0 <= k < t.len() && !(#[trigger] t[k]).dismissed implies rest.contains(t[k].id)
                && forall|m: int| 0 <= m < k ==> t[m].id != t[k].id by {
                assert(k != j);
                assert(t[k] == s[k]);
                assert forall|m: int| 0 <= m < k implies t[m].id != t[k].id by {
                    assert(t[m].id == s[m].id);
                }
                if s[k].id == id {
                    if j < k {
                        assert(s[j].id == s[k].id);
                    } else {
                        assert(s[k].id != id);
                    }
                }
                let q = choose|q: int| 0 <= q < ids.len() && ids[q] == s[k].id;
                assert(q != 0);
                assert(rest[q - 1] == ids[q]);
            }
        } else {
            assert forall|k: int| 0 <= k < t.len() && !(#[trigger] t[k]).dismissed implies rest.contains(t[k].id)
                && forall|m: int| 0 <= m < k ==> t[m].id != t[k].id by {
                let q = choose|q: int| 0 <= q < ids.len() && ids[q] == s[k].id;
                if q == 0 {
                    assert(s[k].id == id);
                    assert(has_id(s, id));
                }
                assert(rest[q - 1] == ids[q]);
            }
        }
        lemma_dismiss_each_all(t, rest, orig);
    }
}

/// Dismissing all dismisses every notification and changes nothing else,
/// so that none is left active, when each undismissed notification comes
/// first among those with its identifier (as it does where no two share
/// one).
pub proof fn law_dismiss_all_leaves_none_active(s: Seq<Notification>)
    requires
        active_first_with_id(s),
    ensures
        dismiss_each(s, active_ids(s)).len() == s.len(),
        forall|k: int| 0 <= k < s.len()
            ==> #[trigger] dismiss_each(s, active_ids(s))[k] == as_dismissed(s[k]),
        crate::history::active_in(dismiss_each(s, active_ids(s))) == 0,
{
    broadcast use vstd::seq_lib::group_filter_ensures;
    broadcast use vstd::seq_lib::group_to_multiset_ensures;
    let sorted = newest_first(s);
    crate::order::lemma_newest_first_sorted_permutation(s);
    let act = sorted.filter(|n: Notification| !n.dismissed);
    assert forall|k: int| 0 <= k < s.len() && !(#[trigger] s[k]).dismissed implies active_ids(s).contains(s[k].id)
        && forall|m: int| 0 <= m < k ==> s[m].id != s[k].id by {
        assert(s.contains(s[k]));
        assert(s.to_multiset().count(s[k]) > 0);
        assert(sorted.contains(s[k]));
        let p = choose|p: int| 0 <= p < sorted.len() && sorted[p] == s[k];
        sorted.lemma_filter_contains(|n: Notification| !n.dismissed, p);
        let q = choose|q: int| 0 <= q < act.len() && act[q] == s[k];
        assert(active_ids(s)[q] == s[k].id);
    }
    lemma_dismiss_each_all(s, active_ids(s), s);
    let r = dismiss_each(s, active_ids(s));
    let f = r.filter(|n: Notification| !n.dismissed);
    if f.len() > 0 {
        assert(f.contains(f[0]));
        r.lemma_filter_contains_rev(|n: Notification| !n.dismissed, f[0]);
        assert(!f[0].dismissed);
        let k = choose|k: int| 0 <= k < r.len() && r[k] == f[0];
        assert(r[k] == as_dismissed(s[k]));
    }
}

/// Reordering a sequence keeps how many of its elements pass a test.
proof fn lemma_filter_len_permutation(s: Seq<Notification>, t: Seq<Notification>, p: spec_fn(Notification) -> bool)
    requires
        s.to_multiset() == t.to_multiset(),
    ensures
        s.filter(p).len() == t.filter(p).len(),
    decreases s.len(),
{
    broadcast use vstd::seq_lib::group_to_multiset_ensures;
    if s.len() == 0 {
        vstd::seq_lib::to_multiset_len(s);
        vstd::seq_lib::to_multiset_len(t);
        assert(t =~= s);
    } else {
        let x = s.last();
        assert(s.to_multiset().count(x) > 0);
        assert(t.contains(x));
        let j = choose|j: int| 0 <= j < t.len() && t[j] == x;
        let rest = t.remove(j);
        assert(t =~= t.take(j) + seq![x] + t.skip(j + 1));
        assert(rest =~= t.take(j) + t.skip(j + 1));
        assert(s =~= s.drop_last().push(x));
        assert(s.drop_last().to_multiset() =~= s.to_multiset().remove(x));
        assert(rest.to_multiset() =~= t.to_multiset().remove(x));
        lemma_filter_len_permutation(s.drop_last(), rest, p);
        s.drop_last().lemma_filter_len_push(p, x);
        Seq::filter_distributes_over_add(t.take(j) + seq![x], t.skip(j + 1), p);
        Seq::filter_distributes_over_add(t.take(j), seq![x], p);
        Seq::filter_distributes_over_add(t.take(j), t.skip(j + 1), p);
        Seq::<Notification>::empty().lemma_filter_len_push(p, x);
        assert(Seq::<Notification>::empty().push(x) =~= seq![x]);
        assert(Seq::<Notification>::empty().filter(p).len() <= 0) by {
            Seq::<Notification>::empty().filter_lemma(p);
        }
    }
}

/// Dismissing all through the daemon dismisses every notification and
/// changes nothing else, reports how many were active, and leaves none
/// active, when each undismissed notification comes first among those with
/// its identifier.
pub proof fn law_dismiss_all_command(
    pre: DaemonState,
    post: DaemonState,
    now: i128,
    secs: u32,
    new_id: u128,
    cutoff: Option<i128>,
    out: CommandOutcome,
)
    requires
        handled(pre, post, DaemonCommand::DismissAll, now, secs, new_id, cutoff, out),
        active_first_with_id(pre.history@),
    ensures
        is_ok_message(out.response, decimal_text(active_in(pre.history@)) + " notifications dismissed"@),
        post.history@.len() == pre.history@.len(),
        forall|k: int| 0 <= k < pre.history@.len() ==> #[trigger] post.history@[k] == as_dismissed(pre.history@[k]),
        active_in(post.history@) == 0,
        post.filter == pre.filter,
{
    let s = pre.history@;
    law_dismiss_all_leaves_none_active(s);
    crate::order::lemma_newest_first_sorted_permutation(s);
    lemma_filter_len_permutation(newest_first(s), s, |n: Notification| !n.dismissed);
    assert(active_ids(s).len() == active_in(s));
}

/// A notification that is sent is stored, shown or suppressed alike, when
/// the history may hold an entry and either has room for one more or holds
/// only entries older than the send, and the retention cutoff was read with
/// the instant of the send (a retention of one day is left out: there the
/// cutoff may lie after the instant when the local offset changes).
pub proof fn law_send_stores_notification(
    pre: DaemonState,
    post: DaemonState,
    cmd: DaemonCommand,
    now: i128,
    secs: u32,
    new_id: u128,
    cutoff: Option<i128>,
    out: CommandOutcome,
)
    requires
        cmd is Send,
        handled(pre, post, cmd, now, secs, new_id, cutoff, out),
        cutoff_fits(now, cutoff, pre.history.retention()),
        pre.history.retention() != 1,
        pre.history.max() >= 1,
        pre.history@.len() < pre.history.max()
            || forall|i: int| 0 <= i < pre.history@.len() ==> (#[trigger] pre.history@[i]).timestamp < now,
    ensures
        out.response matches DaemonResponse::Success { data: Some(ResponseData::Sent { notification, .. }), .. }
            && post.history@.contains(notification),
{
    let n = out.response->Success_data->Some_0->Sent_notification;
    crate::history::law_fresh_entry_kept(pre.history@, n, cutoff, pre.history.max());
}

} // verus!
