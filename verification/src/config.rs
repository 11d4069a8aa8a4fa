//! Shirase configuration: the settings that the library's logic reads.

use vstd::prelude::*;

verus! {

/// Notification behavior settings.
#[derive(Clone, Debug)]
pub struct BehaviorConfig {
    /// Seconds before auto-dismissing notifications.
    pub auto_dismiss_secs: u32,
    /// Enable do-not-disturb mode.
    pub do_not_disturb: bool,
    /// Group notifications by source app.
    pub group_by_app: bool,
    /// Enable notification sounds.
    pub sound_enabled: bool,
}

impl Default for BehaviorConfig {
    fn default() -> (c: Self)
        ensures
            c.auto_dismiss_secs == 5,
            !c.do_not_disturb,
            c.group_by_app,
            c.sound_enabled,
    {
        BehaviorConfig { auto_dismiss_secs: 5, do_not_disturb: false, group_by_app: true, sound_enabled: true }
    }
}

/// Quiet hours configuration.
#[derive(Clone, Debug)]
pub struct QuietHours {
    /// Start time (e.g. "22:00").
    pub start: String,
    /// End time (e.g. "07:00").
    pub end: String,
}

/// Notification filter settings.
#[derive(Clone, Debug)]
pub struct FilterConfig {
    /// Apps whose notifications are blocked.
    pub blocked_apps: Vec<String>,
    /// Apps whose notifications are always shown (even in DND).
    pub priority_apps: Vec<String>,
    /// Quiet hours (no notifications).
    pub quiet_hours: Option<QuietHours>,
}

impl Default for FilterConfig {
    fn default() -> (c: Self)
        ensures
            c.blocked_apps@.len() == 0,
            c.priority_apps@.len() == 0,
            c.quiet_hours is None,
    {
        FilterConfig { blocked_apps: Vec::new(), priority_apps: Vec::new(), quiet_hours: None }
    }
}

/// Notification history settings.
#[derive(Clone, Debug)]
pub struct HistoryConfig {
    /// Maximum number of entries to keep.
    pub max_entries: u32,
    /// Days to retain history.
    pub retention_days: u32,
}

impl Default for HistoryConfig {
    fn default() -> (c: Self)
        ensures
            c.max_entries == 1000,
            c.retention_days == 30,
    {
        HistoryConfig { max_entries: 1000, retention_days: 30 }
    }
}

/// Daemon mode configuration.
#[derive(Clone, Debug)]
pub struct DaemonConfig {
    /// Enable daemon mode.
    pub enable: bool,
    /// Listen address for the daemon.
    pub listen_addr: String,
    /// Unix socket path for local IPC.
    pub socket_path: String,
}

impl Default for DaemonConfig {
    fn default() -> (c: Self)
        ensures
            !c.enable,
            c.listen_addr@ == "0.0.0.0:50053"@,
            c.socket_path@ == "/tmp/shirase.sock"@,
    {
        DaemonConfig {
            enable: false,
            listen_addr: String::from_str("0.0.0.0:50053"),
            socket_path: String::from_str("/tmp/shirase.sock"),
        }
    }
}

} // verus!
