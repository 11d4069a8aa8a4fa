use shirase::config::FilterConfig;
use shirase::daemon::{CommandOutcome, DaemonCommand, DaemonResponse, DaemonState, Persist, ResponseData};
use shirase::filter::NotificationFilter;
use shirase::history::HistoryStore;
use shirase::notification::{Notification, Urgency};

const NOW: i128 = 1_700_000_000_000_000_000;

fn state(entries: Vec<Notification>, blocked: &[&str], dnd: bool) -> DaemonState {
    let config = FilterConfig {
        blocked_apps: blocked.iter().map(|s| (*s).to_string()).collect(),
        priority_apps: vec![],
        quiet_hours: None,
    };
    DaemonState {
        history: HistoryStore::from_entries_with("h.json", entries, 100, 30, None),
        filter: NotificationFilter::from_config(&config, dnd),
    }
}

fn run(s: &mut DaemonState, cmd: DaemonCommand) -> CommandOutcome {
    s.handle_command_at(cmd, NOW, 12 * 3600, 42, None)
}

fn message(o: &CommandOutcome) -> String {
    match &o.response {
        DaemonResponse::Success { message: Some(m), .. } => m.clone(),
        DaemonResponse::Failure { message } => format!("error: {message}"),
        _ => String::from("<no message>"),
    }
}

fn send(app: &str, urgency: Option<&str>) -> DaemonCommand {
    DaemonCommand::Send {
        app_name: app.to_string(),
        title: "T".to_string(),
        body: "B".to_string(),
        urgency: urgency.map(|u| u.to_string()),
    }
}

fn uuid_text(id: u128) -> String {
    uuid::Uuid::from_u128(id).to_string()
}

#[test]
fn send_stores_and_displays() {
    let mut s = state(vec![], &[], false);
    let o = run(&mut s, send("Mail", Some("HIGH")));
    assert_eq!(message(&o), "notification received");
    match &o.response {
        DaemonResponse::Success { data: Some(ResponseData::Sent { id, displayed, reason, notification }), .. } => {
            assert_eq!(*id, 42);
            assert!(*displayed);
            assert!(reason.is_none());
            assert_eq!(notification.urgency, Urgency::Critical);
            assert_eq!(notification.timestamp, NOW);
        }
        other => panic!("unexpected {other:?}"),
    }
    assert!(matches!(o.persist, Persist::Write { error_prefix: Some(ref p) } if p == "failed to store: "));
    assert_eq!(s.history.len(), 1);
    assert_eq!(s.history.all()[0].id, 42);
}

#[test]
fn suppressed_send_is_still_stored() {
    let mut s = state(vec![], &["mail"], false);
    let o = run(&mut s, send("Mail", None));
    assert_eq!(message(&o), "notification suppressed: app 'Mail' is blocked");
    assert_eq!(s.history.len(), 1);
    let mut s = state(vec![], &[], true);
    let o = run(&mut s, send("Mail", Some("bogus")));
    assert_eq!(message(&o), "notification suppressed: do-not-disturb is active");
    assert_eq!(s.history.all()[0].urgency, Urgency::Normal);
}

#[test]
fn dismiss_by_text_id() {
    let mut s = state(vec![Notification::with_id_and_time(7, 1, "A", "t", "")], &[], false);
    let o = run(&mut s, DaemonCommand::Dismiss { id: uuid_text(7) });
    assert_eq!(message(&o), "notification dismissed");
    assert_eq!(s.history.active_count(), 0);
    let o = run(&mut s, DaemonCommand::Dismiss { id: uuid_text(8) });
    assert_eq!(message(&o), "error: notification not found");
    assert!(matches!(o.persist, Persist::Nothing));
    let o = run(&mut s, DaemonCommand::Dismiss { id: "not-a-uuid".to_string() });
    assert!(message(&o).starts_with("error: invalid ID: "));
}

#[test]
fn dismiss_all_counts_active() {
    let mut gone = Notification::with_id_and_time(1, 1, "A", "a", "");
    gone.dismissed = true;
    let entries = vec![gone, Notification::with_id_and_time(2, 2, "A", "b", ""), Notification::with_id_and_time(3, 3, "B", "c", "")];
    let mut s = state(entries, &[], false);
    let o = run(&mut s, DaemonCommand::DismissAll);
    assert_eq!(message(&o), "2 notifications dismissed");
    assert_eq!(s.history.active_count(), 0);
    let o = run(&mut s, DaemonCommand::DismissAll);
    assert_eq!(message(&o), "0 notifications dismissed");
}

#[test]
fn list_with_limit_and_app() {
    let entries = vec![
        Notification::with_id_and_time(1, 10, "Mail", "a", ""),
        Notification::with_id_and_time(2, 30, "Chat", "b", ""),
        Notification::with_id_and_time(3, 20, "mail", "c", ""),
    ];
    let mut s = state(entries, &[], false);
    let o = run(&mut s, DaemonCommand::List { limit: Some(1), app: Some("MAIL".to_string()) });
    match o.response {
        DaemonResponse::Success { data: Some(ResponseData::Listed { notifications, total }), .. } => {
            assert_eq!(total, 3);
            assert_eq!(notifications.len(), 1);
            assert_eq!(notifications[0].title, "c");
        }
        other => panic!("unexpected {other:?}"),
    }
    let o = run(&mut s, DaemonCommand::List { limit: None, app: None });
    match o.response {
        DaemonResponse::Success { data: Some(ResponseData::Listed { notifications, .. }), .. } => {
            let titles: Vec<String> = notifications.into_iter().map(|n| n.title).collect();
            assert_eq!(titles, vec!["b", "c", "a"]);
        }
        other => panic!("unexpected {other:?}"),
    }
}

#[test]
fn search_and_status() {
    let mut read = Notification::with_id_and_time(1, 10, "Mail", "Invoice", "");
    read.read = true;
    let entries = vec![read, Notification::with_id_and_time(2, 20, "Chat", "Hi", "invoice attached")];
    let mut s = state(entries, &[], true);
    let o = run(&mut s, DaemonCommand::Search { query: "INVOICE".to_string() });
    match o.response {
        DaemonResponse::Success { data: Some(ResponseData::Found { results }), .. } => assert_eq!(results.len(), 2),
        other => panic!("unexpected {other:?}"),
    }
    let o = run(&mut s, DaemonCommand::Status);
    match o.response {
        DaemonResponse::Success { data: Some(ResponseData::Status { dnd, dnd_manual, dnd_quiet_hours, total, unread, active, groups }), .. } => {
            assert!(dnd && dnd_manual && !dnd_quiet_hours);
            assert_eq!((total, unread, active), (2, 1, 2));
            assert_eq!(groups.len(), 2);
            assert_eq!(groups[0].app_name, "Chat");
        }
        other => panic!("unexpected {other:?}"),
    }
}

#[test]
fn dnd_commands() {
    let mut s = state(vec![], &[], false);
    assert_eq!(message(&run(&mut s, DaemonCommand::DndOn { minutes: Some(15) })), "DND enabled for 15 minutes");
    assert!(s.filter.dnd().is_manually_active_at(NOW + 14 * 60_000_000_000));
    assert!(!s.filter.dnd().is_manually_active_at(NOW + 15 * 60_000_000_000));
    assert_eq!(message(&run(&mut s, DaemonCommand::DndOn { minutes: None })), "DND enabled");
    assert_eq!(message(&run(&mut s, DaemonCommand::DndOff)), "DND disabled");
    assert!(!s.filter.dnd().enabled);
}

#[test]
fn clear_and_mark_read() {
    let entries = vec![
        Notification::with_id_and_time(1, 10, "Mail", "a", ""),
        Notification::with_id_and_time(2, 20, "Chat", "b", ""),
    ];
    let mut s = state(entries, &[], false);
    let o = run(&mut s, DaemonCommand::MarkRead { id: uuid_text(2) });
    assert_eq!(message(&o), "marked as read");
    assert_eq!(s.history.unread_count(), 1);
    let o = run(&mut s, DaemonCommand::MarkAllRead);
    assert_eq!(message(&o), "1 notifications marked as read");
    let o = run(&mut s, DaemonCommand::MarkAllRead);
    assert_eq!(message(&o), "0 notifications marked as read");
    assert!(matches!(o.persist, Persist::Nothing));
    let o = run(&mut s, DaemonCommand::Clear { app: Some("mail".to_string()) });
    assert_eq!(message(&o), "1 entries cleared for mail");
    let o = run(&mut s, DaemonCommand::Clear { app: Some("none".to_string()) });
    assert_eq!(message(&o), "0 entries cleared for none");
    assert!(matches!(o.persist, Persist::Nothing));
    let o = run(&mut s, DaemonCommand::Clear { app: None });
    assert_eq!(message(&o), "all history cleared");
    assert!(s.history.is_empty());
}

#[test]
fn health_and_clock_driven_handling() {
    let mut s = state(vec![], &[], false);
    let o = run(&mut s, DaemonCommand::Health);
    assert!(matches!(o.response, DaemonResponse::Success { message: None, data: Some(ResponseData::Health) }));
    let o = s.handle_command(send("App", None));
    assert_eq!(message(&o), "notification received");
    assert_eq!(s.history.len(), 1);
}

#[test]
fn dismiss_all_asks_one_write_per_dismissal() {
    let entries = vec![Notification::with_id_and_time(2, 2, "A", "b", ""), Notification::with_id_and_time(3, 3, "B", "c", "")];
    let mut s = state(entries, &[], false);
    let o = run(&mut s, DaemonCommand::DismissAll);
    assert!(matches!(o.persist, Persist::WriteEach { writes: 2 }));
    let partial = shirase::daemon::dismissed_reply(1);
    assert!(matches!(partial, DaemonResponse::Success { message: Some(ref m), data: None } if m == "1 notifications dismissed"));
}

#[test]
fn dismiss_all_with_a_repeated_identifier_keeps_other_fields() {
    let mut later = Notification::with_id_and_time(5, 9, "B", "copy", "x");
    later.dismissed = true;
    let first = Notification::with_id_and_time(5, 7, "A", "orig", "y");
    let mut s = state(vec![first, later], &[], false);
    let o = run(&mut s, DaemonCommand::DismissAll);
    assert_eq!(message(&o), "1 notifications dismissed");
    assert_eq!(s.history.active_count(), 0);
    assert_eq!(s.history.len(), 2);
    let all = s.history.all();
    let orig = all.iter().find(|n| n.timestamp == 7).unwrap();
    let copy = all.iter().find(|n| n.timestamp == 9).unwrap();
    assert_eq!((orig.id, orig.title.as_str(), orig.body.as_str(), orig.read), (5, "orig", "y", false));
    assert_eq!((copy.id, copy.title.as_str(), copy.body.as_str()), (5, "copy", "x"));
    assert!(orig.dismissed && copy.dismissed);
}

#[test]
fn send_into_a_history_with_room_stores_it() {
    let entries = vec![Notification::with_id_and_time(1, NOW, "A", "same instant", "")];
    let mut s = state(entries, &[], false);
    let o = run(&mut s, send("App", None));
    assert_eq!(message(&o), "notification received");
    assert_eq!(s.history.len(), 2);
    assert!(s.history.all().iter().any(|n| n.id == 42));
}
