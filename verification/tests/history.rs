use shirase::history::{dismiss_text, history_page, listing, on_or_after, page, HistoryStore};
use shirase::notification::{Notification, Urgency};
use shirase::paths::default_history_path;

fn temp_store() -> HistoryStore {
    HistoryStore::from_entries("history.json", Vec::new(), 100, 30)
}

fn at(id: u128, ts: i128, app: &str, title: &str) -> Notification {
    Notification::with_id_and_time(id, ts, app, title, "B")
}

#[test]
fn open_creates_new_store() {
    let store = temp_store();
    assert!(store.is_empty());
    assert_eq!(store.len(), 0);
}

#[test]
fn push_and_retrieve() {
    let mut store = temp_store();
    store.push(Notification::new("App", "Title", "Body"));
    assert_eq!(store.len(), 1);
    let recent = store.recent(10);
    assert_eq!(recent.len(), 1);
    assert_eq!(recent[0].title, "Title");
}

#[test]
fn by_app_filter() {
    let mut store = temp_store();
    store.push(Notification::new("Mail", "Email", "Body"));
    store.push(Notification::new("Slack", "Message", "Body"));
    store.push(Notification::new("Mail", "Email 2", "Body"));

    let mail = store.by_app("Mail");
    assert_eq!(mail.len(), 2);
    let slack = store.by_app("slack"); // case-insensitive
    assert_eq!(slack.len(), 1);
}

#[test]
fn by_urgency_filter() {
    let mut store = temp_store();
    store.push(Notification::new("App", "Low", "Body").with_urgency(Urgency::Low));
    store.push(Notification::new("App", "Critical", "Body").with_urgency(Urgency::Critical));
    store.push(Notification::new("App", "Normal", "Body"));

    assert_eq!(store.by_urgency(Urgency::Critical).len(), 1);
    assert_eq!(store.by_urgency(Urgency::Normal).len(), 1);
    assert_eq!(store.by_urgency(Urgency::Low).len(), 1);
}

#[test]
fn search_text() {
    let mut store = temp_store();
    store.push(Notification::new("App", "Meeting reminder", "Standup at 9"));
    store.push(Notification::new("App", "Build", "CI passed"));

    let results = store.search("meeting");
    assert_eq!(results.len(), 1);
    assert_eq!(results[0].title, "Meeting reminder");

    let results = store.search("PASSED"); // case-insensitive
    assert_eq!(results.len(), 1);
}

#[test]
fn mark_read() {
    let mut store = temp_store();
    store.push(Notification::new("App", "T", "B"));
    let id = store.all()[0].id;

    assert_eq!(store.unread_count(), 1);
    assert!(store.mark_read(id));
    assert_eq!(store.unread_count(), 0);
}

#[test]
fn mark_all_read() {
    let mut store = temp_store();
    store.push(Notification::new("App", "T1", "B"));
    store.push(Notification::new("App", "T2", "B"));

    assert_eq!(store.unread_count(), 2);
    let count = store.mark_all_read();
    assert_eq!(count, 2);
    assert_eq!(store.unread_count(), 0);
}

#[test]
fn dismiss_notification() {
    let mut store = temp_store();
    store.push(Notification::new("App", "T", "B"));
    let id = store.all()[0].id;

    assert_eq!(store.active_count(), 1);
    assert!(store.dismiss(id));
    assert_eq!(store.active_count(), 0);
}

#[test]
fn remove_notification() {
    let mut store = temp_store();
    store.push(Notification::new("App", "T", "B"));
    let id = store.all()[0].id;

    assert!(store.remove(id));
    assert!(store.is_empty());
}

#[test]
fn clear_all() {
    let mut store = temp_store();
    store.push(Notification::new("App", "T1", "B"));
    store.push(Notification::new("App", "T2", "B"));
    store.clear();
    assert!(store.is_empty());
}

#[test]
fn clear_app() {
    let mut store = temp_store();
    store.push(Notification::new("Mail", "T1", "B"));
    store.push(Notification::new("Slack", "T2", "B"));
    store.push(Notification::new("Mail", "T3", "B"));

    let removed = store.clear_app("Mail");
    assert_eq!(removed, 2);
    assert_eq!(store.len(), 1);
}

#[test]
fn max_entries_enforced() {
    let mut store = HistoryStore::from_entries("history.json", Vec::new(), 3, 30);
    for i in 0..5 {
        store.push(Notification::new("App", &format!("N{i}"), "B"));
    }
    assert_eq!(store.len(), 3);
}

#[test]
fn default_history_path_exists() {
    let path = default_history_path();
    assert!(path.contains("shirase"));
}

#[test]
fn limits_keep_the_newest() {
    let mut store = HistoryStore::from_entries_with("h.json", Vec::new(), 2, 30, None);
    store.push_with(at(1, 100, "A", "old"), None);
    store.push_with(at(2, 300, "A", "newest"), None);
    store.push_with(at(3, 200, "A", "middle"), None);
    let all = store.all();
    assert_eq!(all.len(), 2);
    assert_eq!(all[0].title, "newest");
    assert_eq!(all[1].title, "middle");
}

#[test]
fn limits_drop_entries_past_retention() {
    let entries = vec![at(1, 100, "A", "stale"), at(2, 500, "A", "fresh"), at(3, 499, "A", "edge")];
    let store = HistoryStore::from_entries_with("h.json", entries, 10, 30, Some(499));
    let all = store.all();
    assert_eq!(all.len(), 2);
    assert_eq!(all[0].title, "fresh");
    assert_eq!(all[1].title, "edge");
}

#[test]
fn listing_is_newest_first_and_recent_is_a_prefix() {
    let entries = vec![at(1, 10, "A", "a"), at(2, 30, "B", "b"), at(3, 20, "A", "c"), at(4, 30, "C", "d")];
    let store = HistoryStore::from_entries_with("h.json", entries, 10, 30, None);
    let titles: Vec<String> = store.all().into_iter().map(|n| n.title).collect();
    assert_eq!(titles, vec!["b", "d", "c", "a"]);
    let recent: Vec<String> = store.recent(2).into_iter().map(|n| n.title).collect();
    assert_eq!(recent, vec!["b", "d"]);
    assert_eq!(store.recent(0).len(), 0);
    assert_eq!(store.recent(99).len(), 4);
}

#[test]
fn mark_read_unknown_id_changes_nothing() {
    let mut store = HistoryStore::from_entries_with("h.json", vec![at(1, 10, "A", "a")], 10, 30, None);
    assert!(!store.mark_read(99));
    assert!(!store.dismiss(99));
    assert!(!store.remove(99));
    assert_eq!(store.unread_count(), 1);
    assert_eq!(store.active_count(), 1);
    assert_eq!(store.len(), 1);
}

#[test]
fn remove_drops_every_entry_with_the_id() {
    let entries = vec![at(7, 10, "A", "a"), at(8, 20, "A", "b"), at(7, 30, "A", "c")];
    let mut store = HistoryStore::from_entries_with("h.json", entries, 10, 30, None);
    assert!(store.remove(7));
    let all = store.all();
    assert_eq!(all.len(), 1);
    assert_eq!(all[0].id, 8);
}

#[test]
fn mark_read_marks_only_the_first_match() {
    let entries = vec![at(7, 10, "A", "a"), at(7, 30, "A", "c")];
    let mut store = HistoryStore::from_entries_with("h.json", entries, 10, 30, None);
    assert!(store.mark_read(7));
    assert_eq!(store.unread_count(), 1);
    let stored = store.entries();
    assert!(stored[0].read);
    assert!(!stored[1].read);
}

#[test]
fn clear_app_ignores_case_and_keeps_others() {
    let entries = vec![at(1, 10, "MAIL", "a"), at(2, 20, "Slack", "b"), at(3, 30, "mail", "c")];
    let mut store = HistoryStore::from_entries_with("h.json", entries, 10, 30, None);
    assert_eq!(store.clear_app("Mail"), 2);
    let all = store.all();
    assert_eq!(all.len(), 1);
    assert_eq!(all[0].app_name, "Slack");
}

#[test]
fn search_matches_body_too() {
    let entries = vec![at(1, 10, "A", "Build"), at(2, 20, "A", "Other")];
    let store = HistoryStore::from_entries_with("h.json", entries, 10, 30, None);
    assert_eq!(store.search("b").len(), 2);
    assert_eq!(store.search("uil").len(), 1);
    assert_eq!(store.search("").len(), 2);
    assert_eq!(store.search("zzz").len(), 0);
}

#[test]
fn store_keeps_its_settings() {
    let store = HistoryStore::from_entries("some/where.json", Vec::new(), 5, 12);
    assert_eq!(store.path(), "some/where.json");
    assert_eq!(store.retention_days_value(), 12);
}

#[test]
fn reopening_under_the_same_limits_changes_nothing() {
    let entries = vec![at(1, 100, "A", "a"), at(2, 300, "A", "b"), at(3, 200, "A", "c"), at(4, 50, "A", "d")];
    let store = HistoryStore::from_entries_with("h.json", entries, 2, 30, Some(60));
    let again = HistoryStore::from_entries_with("h.json", store.entries(), 2, 30, Some(60));
    let ids: Vec<u128> = store.entries().iter().map(|n| n.id).collect();
    let ids_again: Vec<u128> = again.entries().iter().map(|n| n.id).collect();
    assert_eq!(ids, ids_again);
    assert_eq!(ids, vec![2, 3]);
}

#[test]
fn on_or_after_keeps_later_days() {
    let ns = vec![at(1, 1, "A", "a"), at(2, 2, "A", "b"), at(3, 3, "A", "c")];
    let kept = on_or_after(&ns, &[10, 12, 11], 11);
    let ids: Vec<u128> = kept.iter().map(|n| n.id).collect();
    assert_eq!(ids, vec![2, 3]);
    assert!(on_or_after(&ns, &[1, 2, 3], 4).is_empty());
}

#[test]
fn history_pages() {
    let entries = vec![at(1, 10, "Mail", "a"), at(2, 30, "Chat", "b"), at(3, 20, "mail", "c")];
    let mut store = HistoryStore::from_entries_with("h.json", entries, 10, 30, None);
    let titles = |v: Vec<Notification>| v.into_iter().map(|n| n.title).collect::<Vec<_>>();
    assert_eq!(titles(page(&store, Some("MAIL"), 1)), vec!["c"]);
    assert_eq!(titles(page(&store, None, 2)), vec!["b", "c"]);
    assert_eq!(titles(history_page(&store, None, 50, Some("not a date"))), vec!["b", "c", "a"]);
    assert_eq!(titles(history_page(&store, None, 50, Some("1970-01-01"))), vec!["b", "c", "a"]);
    assert!(history_page(&store, None, 50, Some("9999-01-01")).is_empty());
    assert!(dismiss_text(&mut store, "nope").unwrap_err().starts_with("Invalid UUID: "));
    assert_eq!(dismiss_text(&mut store, &uuid::Uuid::from_u128(3).to_string()), Ok(true));
    assert_eq!(dismiss_text(&mut store, &uuid::Uuid::from_u128(9).to_string()), Ok(false));
    assert_eq!(store.active_count(), 2);
}

#[test]
fn push_keeps_a_fresh_notification_under_retention() {
    let mut store = HistoryStore::from_entries("h.json", Vec::new(), 1, 30);
    let now = chrono::Local::now().timestamp_nanos_opt().unwrap() as i128;
    store.push(at(1, now - 1_000_000, "A", "old"));
    store.push(at(2, now, "A", "new"));
    assert_eq!(store.len(), 1);
    assert_eq!(store.all()[0].title, "new");
}

#[test]
fn direct_listing_choices() {
    let entries = vec![at(1, 10, "Mail", "a"), at(2, 30, "Chat", "b"), at(3, 20, "mail", "c")];
    let store = HistoryStore::from_entries_with("h.json", entries, 10, 30, None);
    let titles = |v: Vec<Notification>| v.into_iter().map(|n| n.title).collect::<Vec<_>>();
    assert_eq!(titles(listing(&store, Some("Mail"), 1)), vec!["c", "a"]);
    assert_eq!(titles(listing(&store, None, 1)), vec!["b"]);
    assert_eq!(titles(listing(&store, None, 0)), vec!["b", "c", "a"]);
}

#[test]
fn since_keeps_days_after_and_drops_days_well_before() {
    // 2024-01-20 and 2024-01-01 at noon UTC, against the day 2024-01-10.
    let day: i128 = 86_400_000_000_000;
    let jan_20 = (19_742 * day) + day / 2;
    let jan_01 = (19_723 * day) + day / 2;
    let entries = vec![at(1, jan_01, "A", "early"), at(2, jan_20, "A", "late")];
    let store = HistoryStore::from_entries_with("h.json", entries, 10, 30, None);
    let kept = history_page(&store, None, 50, Some("2024-01-10"));
    let titles: Vec<String> = kept.into_iter().map(|n| n.title).collect();
    assert_eq!(titles, vec!["late"]);
}

#[test]
fn push_with_room_keeps_a_notification_of_the_same_instant() {
    let mut store = HistoryStore::from_entries("h.json", Vec::new(), 5, 30);
    let now = chrono::Local::now().timestamp_nanos_opt().unwrap() as i128;
    store.push(at(1, now, "A", "first"));
    store.push(at(2, now, "A", "second"));
    assert_eq!(store.len(), 2);
    assert!(store.all().iter().any(|n| n.title == "second"));
}

#[test]
fn limits_keep_the_newest_within_retention() {
    let entries = vec![at(1, 5, "A", "a"), at(2, 50, "A", "b"), at(3, 40, "A", "c"), at(4, 1, "A", "d")];
    let store = HistoryStore::from_entries_with("h.json", entries, 2, 30, Some(3));
    let mut titles: Vec<String> = store.all().into_iter().map(|n| n.title).collect();
    titles.sort();
    assert_eq!(titles, vec!["b", "c"]);
    let wide = HistoryStore::from_entries_with("h.json", vec![at(1, 5, "A", "a"), at(4, 1, "A", "d")], 2, 30, Some(3));
    assert_eq!(wide.len(), 1);
}
