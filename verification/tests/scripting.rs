use shirase::scripting::{hook_name, hook_script, ScriptEvent};

#[test]
fn hook_names() {
    assert_eq!(hook_name(&ScriptEvent::OnStart), "on_start");
    assert_eq!(hook_name(&ScriptEvent::OnQuit), "on_quit");
    assert_eq!(hook_name(&ScriptEvent::OnKey("d".to_string())), "on_key");
}

#[test]
fn hook_scripts() {
    assert_eq!(hook_script(&ScriptEvent::OnStart), "if is_def_fn(\"on_start\", 0) { on_start(); }");
    assert_eq!(hook_script(&ScriptEvent::OnQuit), "if is_def_fn(\"on_quit\", 0) { on_quit(); }");
    assert_eq!(hook_script(&ScriptEvent::OnKey("d".to_string())), "if is_def_fn(\"on_key\", 1) { on_key(\"d\"); }");
}
