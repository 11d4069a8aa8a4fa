//! Shirase (知らせ) notification center: the verified core.
//!
//! Notification model and grouping, filtering with Do-Not-Disturb and
//! quiet hours, the in-memory notification history, keyboard input
//! handling, text rendering and the daemon's command handling.

pub mod text;
pub mod notification;
pub mod clock;
pub mod order;
pub mod source;
pub mod history;
pub mod config;
pub mod filter;
pub mod input;
pub mod daemon;
pub mod render;
pub mod platform;
pub mod scripting;
pub mod paths;
pub mod settings;
