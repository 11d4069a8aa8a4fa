use shirase::platform::{MacOSNotificationSource, NotificationAction, SystemNotification, Urgency};

#[test]
fn macos_source_is_stateless() {
    assert_eq!(MacOSNotificationSource::new(), MacOSNotificationSource);
}

#[test]
fn system_notification_holds_its_fields() {
    let n = SystemNotification {
        id: "1".to_string(),
        app_name: "A".to_string(),
        title: "T".to_string(),
        body: "B".to_string(),
        timestamp: 5,
        urgency: Urgency::Critical,
        actions: vec![NotificationAction { id: "ok".to_string(), label: "OK".to_string() }],
    };
    let c = n.clone();
    assert_eq!(c.actions[0].label, "OK");
    assert_eq!(c.urgency, Urgency::Critical);
}
