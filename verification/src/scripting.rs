//! Script hooks: the events that user scripts can handle, the actions they
//! can request, and the script text that fires a hook.

use vstd::prelude::*;

verus! {

/// Event hooks that scripts can define.
#[derive(Debug, Clone, PartialEq, Eq)]
pub enum ScriptEvent {
    /// Fired when the app starts.
    OnStart,
    /// Fired when the app is quitting.
    OnQuit,
    /// Fired on key press with the key name.
    OnKey(String),
}

/// Actions that scripts can trigger.
#[derive(Debug, Clone)]
pub enum ScriptAction {
    /// Send a notification.
    Send { title: String, body: String },
    /// Dismiss all notifications.
    DismissAll,
    /// Toggle Do Not Disturb.
    Dnd(bool),
}

/// The name of the script function that handles an event.
pub open spec fn hook_text(event: ScriptEvent) -> Seq<char> {
    match event {
        ScriptEvent::OnStart => "on_start"@,
        ScriptEvent::OnQuit => "on_quit"@,
        ScriptEvent::OnKey(_) => "on_key"@,
    }
}

/// The script that calls an event's hook if the user's scripts define it:
/// a key event passes the key's name as a string argument.
pub open spec fn hook_script_text(event: ScriptEvent) -> Seq<char> {
    let name = hook_text(event);
    match event {
        ScriptEvent::OnKey(key) => "if is_def_fn(\""@ + name + "\", 1) { "@ + name + "(\""@ + key@ + "\"); }"@,
        _ => "if is_def_fn(\""@ + name + "\", 0) { "@ + name + "(); }"@,
    }
}

/// The name of the script function that handles an event.
pub fn hook_name(event: &ScriptEvent) -> (r: String)
    ensures
        r@ == hook_text(*event),
{
    match event {
        ScriptEvent::OnStart => String::from_str("on_start"),
        ScriptEvent::OnQuit => String::from_str("on_quit"),
        ScriptEvent::OnKey(_) => String::from_str("on_key"),
    }
}

/// The script that fires an event's hook, if it is defined.
pub fn hook_script(event: &ScriptEvent) -> (r: String)
    ensures
        r@ == hook_script_text(*event),
{
    let name = hook_name(event);
    match event {
        ScriptEvent::OnKey(key) => String::from_str("if is_def_fn(\"").concat(name.as_str()).concat("\", 1) { ")
            .concat(name.as_str()).concat("(\"").concat(key.as_str()).concat("\"); }"),
        _ => String::from_str("if is_def_fn(\"").concat(name.as_str()).concat("\", 0) { ").concat(name.as_str())
            .concat("(); }"),
    }
}

} // verus!
