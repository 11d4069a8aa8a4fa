//! The platform's view of a notification, before it enters the history.
//!
//! Timestamps are nanoseconds since the Unix epoch.

use vstd::prelude::*;

verus! {

/// Notification urgency level, as the platform reports it.
#[derive(Debug, Clone, Copy, PartialEq, Eq, Structural)]
pub enum Urgency {
    /// Low priority notification.
    Low,
    /// Normal priority notification.
    Normal,
    /// Critical/high priority notification.
    Critical,
}

/// An action button on a notification.
#[derive(Debug, Clone)]
pub struct NotificationAction {
    /// Action identifier.
    pub id: String,
    /// Human-readable label.
    pub label: String,
}

/// A notification received from the system.
#[derive(Debug, Clone)]
pub struct SystemNotification {
    /// Unique notification identifier.
    pub id: String,
    /// Source application name.
    pub app_name: String,
    /// Notification title.
    pub title: String,
    /// Notification body text.
    pub body: String,
    /// When the notification was received, in nanoseconds since the epoch.
    pub timestamp: i128,
    /// Notification urgency.
    pub urgency: Urgency,
    /// Available actions for this notification.
    pub actions: Vec<NotificationAction>,
}

/// macOS notification source.
#[derive(Debug, Clone, Copy, PartialEq, Eq, Structural)]
pub struct MacOSNotificationSource;

impl MacOSNotificationSource {
    /// A new source; it holds no state.
    pub fn new() -> (r: Self)
        ensures
            r == MacOSNotificationSource,
    {
        MacOSNotificationSource
    }
}

} // verus!
