use shirase::notification::{group_by_app, Notification, NotificationGroup, Urgency};

#[test]
fn new_notification_defaults() {
    let n = Notification::new("TestApp", "Title", "Body");
    assert_eq!(n.app_name, "TestApp");
    assert_eq!(n.title, "Title");
    assert_eq!(n.body, "Body");
    assert_eq!(n.urgency, Urgency::Normal);
    assert!(!n.read);
    assert!(!n.dismissed);
}

#[test]
fn with_urgency() {
    let n = Notification::new("App", "T", "B").with_urgency(Urgency::Critical);
    assert_eq!(n.urgency, Urgency::Critical);
}

#[test]
fn urgency_ordering() {
    assert!(Urgency::Low < Urgency::Normal);
    assert!(Urgency::Normal < Urgency::Critical);
}

#[test]
fn urgency_parse() {
    assert_eq!("low".parse::<Urgency>().unwrap(), Urgency::Low);
    assert_eq!("normal".parse::<Urgency>().unwrap(), Urgency::Normal);
    assert_eq!("critical".parse::<Urgency>().unwrap(), Urgency::Critical);
    assert_eq!("high".parse::<Urgency>().unwrap(), Urgency::Critical);
    assert!("bogus".parse::<Urgency>().is_err());
}

#[test]
fn urgency_display() {
    assert_eq!(Urgency::Low.to_string(), "low");
    assert_eq!(Urgency::Normal.to_string(), "normal");
    assert_eq!(Urgency::Critical.to_string(), "critical");
}

#[test]
fn group_by_app_basic() {
    let notifs = vec![
        Notification::new("Mail", "Subject 1", "Body 1"),
        Notification::new("Slack", "Message", "Hello"),
        Notification::new("Mail", "Subject 2", "Body 2"),
    ];
    let groups = group_by_app(&notifs);
    assert_eq!(groups.len(), 2);
    // Mail has 2 notifications
    let mail = groups.iter().find(|g| g.app_name == "Mail").unwrap();
    assert_eq!(mail.count(), 2);
    let slack = groups.iter().find(|g| g.app_name == "Slack").unwrap();
    assert_eq!(slack.count(), 1);
}

#[test]
fn group_unread_count() {
    let mut n1 = Notification::new("App", "T1", "B1");
    let n2 = Notification::new("App", "T2", "B2");
    n1.read = true;
    let group = NotificationGroup { app_name: "App".to_string(), notifications: vec![n1, n2] };
    assert_eq!(group.unread_count(), 1);
    assert_eq!(group.count(), 2);
}

#[test]
fn from_tsuuchi_conversion() {
    let t = tsuuchi::Notification::new("Alert", "Disk full").urgency(tsuuchi::Urgency::Critical);
    let n = Notification::from_tsuuchi(&t, "System");
    assert_eq!(n.app_name, "System");
    assert_eq!(n.title, "Alert");
    assert_eq!(n.body, "Disk full");
    assert_eq!(n.urgency, Urgency::Critical);
}

#[test]
fn urgency_parse_ignores_case_and_reports_the_word() {
    assert_eq!(Urgency::parse("HIGH").unwrap(), Urgency::Critical);
    assert_eq!(Urgency::parse("Low").unwrap(), Urgency::Low);
    assert_eq!(Urgency::parse("Bogus").unwrap_err(), "unknown urgency: bogus");
    assert_eq!(Urgency::from_lowercase("LOW").unwrap_err(), "unknown urgency: LOW");
}

#[test]
fn urgency_text_round_trips() {
    for u in [Urgency::Low, Urgency::Normal, Urgency::Critical] {
        assert_eq!(Urgency::parse(&u.to_string()).unwrap(), u);
    }
}

#[test]
fn groups_are_ordered_newest_first_with_members_newest_first() {
    let notifs = vec![
        Notification::with_id_and_time(1, 10, "Mail", "m1", ""),
        Notification::with_id_and_time(2, 50, "Slack", "s1", ""),
        Notification::with_id_and_time(3, 30, "Mail", "m2", ""),
        Notification::with_id_and_time(4, 50, "Chat", "c1", ""),
    ];
    let groups = group_by_app(&notifs);
    let names: Vec<&str> = groups.iter().map(|g| g.app_name.as_str()).collect();
    // Chat and Slack tie on their newest notification; names break the tie.
    assert_eq!(names, vec!["Chat", "Slack", "Mail"]);
    let mail: Vec<&str> = groups[2].notifications.iter().map(|n| n.title.as_str()).collect();
    assert_eq!(mail, vec!["m2", "m1"]);
    let total: usize = groups.iter().map(|g| g.count()).sum();
    assert_eq!(total, notifs.len());
}

#[test]
fn group_by_app_of_nothing() {
    assert!(group_by_app(&[]).is_empty());
}

#[test]
fn new_notifications_get_fresh_ids() {
    let a = Notification::new("A", "T", "B");
    let b = Notification::new("A", "T", "B");
    assert_ne!(a.id, b.id);
    assert!(a.timestamp > 0);
}

#[test]
fn grouping_keeps_every_notification_once() {
    let notifs = vec![
        Notification::with_id_and_time(1, 10, "Mail", "m1", ""),
        Notification::with_id_and_time(2, 50, "Slack", "s1", ""),
        Notification::with_id_and_time(3, 30, "Mail", "m2", ""),
        Notification::with_id_and_time(4, 50, "mail", "x", ""),
    ];
    let groups = group_by_app(&notifs);
    // Names are told apart by case, so "mail" is an application of its own.
    assert_eq!(groups.len(), 3);
    let mut ids: Vec<u128> = groups.iter().flat_map(|g| g.notifications.iter().map(|n| n.id)).collect();
    ids.sort();
    assert_eq!(ids, vec![1, 2, 3, 4]);
}
