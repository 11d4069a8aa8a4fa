use chrono::Timelike;
use shirase::config::{FilterConfig, QuietHours};
use shirase::filter::{DndState, FilterResult, NotificationFilter, QuietHoursSchedule};
use shirase::notification::{Notification, Urgency};

fn make_filter(blocked: &[&str], priority: &[&str], dnd: bool) -> NotificationFilter {
    let config = FilterConfig {
        blocked_apps: blocked.iter().map(|s| (*s).to_string()).collect(),
        priority_apps: priority.iter().map(|s| (*s).to_string()).collect(),
        quiet_hours: None,
    };
    NotificationFilter::from_config(&config, dnd)
}

#[test]
fn normal_notification_passes() {
    let filter = make_filter(&[], &[], false);
    let n = Notification::new("App", "Title", "Body");
    assert_eq!(filter.evaluate(&n), FilterResult::Allow);
}

#[test]
fn blocked_app_suppressed() {
    let filter = make_filter(&["Finder"], &[], false);
    let n = Notification::new("Finder", "Title", "Body");
    assert!(matches!(filter.evaluate(&n), FilterResult::Suppress(_)));
}

#[test]
fn blocked_app_case_insensitive() {
    let filter = make_filter(&["finder"], &[], false);
    let n = Notification::new("Finder", "Title", "Body");
    assert!(matches!(filter.evaluate(&n), FilterResult::Suppress(_)));
}

#[test]
fn dnd_suppresses_normal() {
    let filter = make_filter(&[], &[], true);
    let n = Notification::new("App", "Title", "Body");
    assert!(matches!(filter.evaluate(&n), FilterResult::Suppress(_)));
}

#[test]
fn dnd_allows_critical() {
    let filter = make_filter(&[], &[], true);
    let n = Notification::new("App", "Title", "Body").with_urgency(Urgency::Critical);
    assert_eq!(filter.evaluate(&n), FilterResult::Allow);
}

#[test]
fn priority_app_bypasses_dnd() {
    let filter = make_filter(&[], &["Messages"], true);
    let n = Notification::new("Messages", "Title", "Body");
    assert_eq!(filter.evaluate(&n), FilterResult::Allow);
}

#[test]
fn dnd_enable_disable() {
    let mut dnd = DndState::default();
    assert!(!dnd.is_active());

    dnd.enable();
    assert!(dnd.is_active());

    dnd.disable();
    assert!(!dnd.is_active());
}

#[test]
fn dnd_timed() {
    let mut dnd = DndState::default();
    dnd.enable_for(60);
    assert!(dnd.is_manually_active());
}

#[test]
fn quiet_hours_overnight() {
    let schedule = QuietHoursSchedule { start: 22 * 3600, end: 7 * 3600 };
    let now = chrono::Local::now().time();
    let hour = now.hour();
    // The schedule is active between 22:00 and 07:00
    let expected_active = hour >= 22 || hour < 7;
    assert_eq!(schedule.is_active(), expected_active);
}

#[test]
fn quiet_hours_from_config() {
    let qh = QuietHours { start: "22:00".to_string(), end: "07:00".to_string() };
    let schedule = QuietHoursSchedule::from_config(&qh).unwrap();
    assert_eq!(schedule.start, 22 * 3600);
    assert_eq!(schedule.end, 7 * 3600);
}

#[test]
fn quiet_hours_invalid_time() {
    let qh = QuietHours { start: "invalid".to_string(), end: "07:00".to_string() };
    assert!(QuietHoursSchedule::from_config(&qh).is_err());
}

#[test]
fn is_blocked_check() {
    let filter = make_filter(&["Chess", "Automator"], &[], false);
    assert!(filter.is_blocked("Chess"));
    assert!(filter.is_blocked("chess")); // case insensitive
    assert!(!filter.is_blocked("Mail"));
}

#[test]
fn is_priority_check() {
    let filter = make_filter(&[], &["Messages", "Calendar"], false);
    assert!(filter.is_priority("Messages"));
    assert!(filter.is_priority("messages")); // case insensitive
    assert!(!filter.is_priority("Slack"));
}

#[test]
fn quiet_hours_invalid_end_message() {
    let qh = QuietHours { start: "22:00".to_string(), end: "25:99".to_string() };
    let err = QuietHoursSchedule::from_config(&qh).unwrap_err();
    assert!(err.starts_with("invalid quiet hours end: "));
    let qh = QuietHours { start: "x".to_string(), end: "07:00".to_string() };
    let err = QuietHoursSchedule::from_config(&qh).unwrap_err();
    assert!(err.starts_with("invalid quiet hours start: "));
}

#[test]
fn quiet_hours_at_given_times() {
    let overnight = QuietHoursSchedule { start: 22 * 3600, end: 7 * 3600 };
    assert!(overnight.is_active_at(23 * 3600));
    assert!(overnight.is_active_at(3 * 3600));
    assert!(!overnight.is_active_at(7 * 3600));
    assert!(!overnight.is_active_at(12 * 3600));
    assert!(overnight.is_active_at(22 * 3600));
    let daytime = QuietHoursSchedule { start: 9 * 3600, end: 17 * 3600 };
    assert!(daytime.is_active_at(9 * 3600));
    assert!(!daytime.is_active_at(17 * 3600));
    assert!(!daytime.is_active_at(8 * 3600));
}

#[test]
fn blocked_reason_names_the_app() {
    let filter = make_filter(&["finder"], &["finder"], true);
    let n = Notification::new("Finder", "Title", "Body").with_urgency(Urgency::Critical);
    assert_eq!(filter.evaluate_at(&n, 0, 0), FilterResult::Suppress("app 'Finder' is blocked".to_string()));
}

#[test]
fn dnd_reason() {
    let filter = make_filter(&[], &[], true);
    let n = Notification::new("App", "Title", "Body");
    assert_eq!(filter.evaluate_at(&n, 0, 0), FilterResult::Suppress("do-not-disturb is active".to_string()));
}

#[test]
fn timed_dnd_expires_after_duration() {
    let mut dnd = DndState::default();
    let t: i128 = 1_700_000_000_000_000_000;
    dnd.enable_for_at(10, t);
    assert!(dnd.is_manually_active_at(t));
    assert!(dnd.is_manually_active_at(t + 9 * 60_000_000_000 + 59_999_999_999));
    assert!(!dnd.is_manually_active_at(t + 10 * 60_000_000_000));
    assert!(!dnd.is_active_at(t + 11 * 60_000_000_000, 12 * 3600));
}

#[test]
fn untimed_dnd_stays_on() {
    let mut dnd = DndState::default();
    dnd.enable_at(5);
    assert!(dnd.is_manually_active_at(5 + 1_000_000 * 60_000_000_000));
}

#[test]
fn quiet_hours_make_dnd_active() {
    let dnd = DndState {
        enabled: false,
        enabled_at: None,
        duration_minutes: None,
        quiet_hours: Some(QuietHoursSchedule { start: 22 * 3600, end: 7 * 3600 }),
    };
    assert!(dnd.is_active_at(0, 23 * 3600));
    assert!(dnd.is_quiet_hours_at(1));
    assert!(!dnd.is_active_at(0, 12 * 3600));
    assert!(!dnd.is_manually_active_at(0));
}

#[test]
fn disabled_dnd_keeps_quiet_hours() {
    let mut dnd = DndState {
        enabled: true,
        enabled_at: Some(0),
        duration_minutes: None,
        quiet_hours: Some(QuietHoursSchedule { start: 22 * 3600, end: 7 * 3600 }),
    };
    dnd.disable();
    assert!(!dnd.is_manually_active_at(1));
    assert!(dnd.is_active_at(1, 23 * 3600));
    assert!(dnd.quiet_hours.is_some());
}

#[test]
fn filter_from_config_reads_quiet_hours() {
    let config = FilterConfig {
        blocked_apps: vec![],
        priority_apps: vec![],
        quiet_hours: Some(QuietHours { start: "22:00".to_string(), end: "07:00".to_string() }),
    };
    let filter = NotificationFilter::from_config(&config, false);
    let n = Notification::new("App", "Title", "Body");
    assert!(matches!(filter.evaluate_at(&n, 0, 23 * 3600), FilterResult::Suppress(_)));
    assert_eq!(filter.evaluate_at(&n, 0, 12 * 3600), FilterResult::Allow);
}

#[test]
fn dnd_mut_changes_filter() {
    let mut filter = make_filter(&[], &[], false);
    let n = Notification::new("App", "Title", "Body");
    filter.dnd_mut().enable_at(0);
    assert!(filter.dnd().enabled);
    assert!(matches!(filter.evaluate_at(&n, 1, 0), FilterResult::Suppress(_)));
}

#[test]
fn timed_dnd_far_apart_instants() {
    let mut dnd = DndState::default();
    dnd.enable_for_at(10, i128::MIN);
    assert!(!dnd.is_manually_active_at(i128::MAX));
    dnd.enable_for_at(0, i128::MAX);
    assert!(dnd.is_manually_active_at(i128::MIN));
    dnd.enable_for_at(0, 0);
    assert!(!dnd.is_manually_active_at(0));
    assert!(dnd.is_manually_active_at(-60_000_000_000));
    assert!(!dnd.is_manually_active_at(-59_999_999_999));
}
