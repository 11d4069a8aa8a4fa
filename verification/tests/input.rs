use shirase::input::{
    default_bindings, map_key, map_special_key, Action, Hotkey, InputMode, Key, SpecialKey, UiState, MOD_CTRL, MOD_NONE,
    MOD_SHIFT,
};

fn fresh_ids(n: usize) -> Vec<u128> {
    (0..n).map(|_| uuid::Uuid::new_v4().as_u128()).collect()
}

#[test]
fn default_bindings_are_valid() {
    let bindings = default_bindings();
    assert!(!bindings.is_empty());
    let has_quit = bindings.iter().any(|b| b.action == "quit");
    assert!(has_quit, "should have a quit binding");
}

#[test]
fn normal_mode_keys() {
    assert_eq!(map_key(&InputMode::Normal, 'j', false), Action::MoveDown);
    assert_eq!(map_key(&InputMode::Normal, 'k', false), Action::MoveUp);
    assert_eq!(map_key(&InputMode::Normal, 'd', false), Action::Dismiss);
    assert_eq!(map_key(&InputMode::Normal, 'D', false), Action::DismissAll);
    assert_eq!(map_key(&InputMode::Normal, 'n', false), Action::ToggleDnd);
    assert_eq!(map_key(&InputMode::Normal, '/', false), Action::StartSearch);
    assert_eq!(map_key(&InputMode::Normal, 'q', false), Action::Quit);
    assert_eq!(map_key(&InputMode::Normal, ':', false), Action::EnterCommand);
    assert_eq!(map_key(&InputMode::Normal, 'r', false), Action::MarkRead);
    assert_eq!(map_key(&InputMode::Normal, 'R', false), Action::MarkAllRead);
}

#[test]
fn history_mode_keys() {
    assert_eq!(map_key(&InputMode::History, 'j', false), Action::MoveDown);
    assert_eq!(map_key(&InputMode::History, 'k', false), Action::MoveUp);
    assert_eq!(map_key(&InputMode::History, 'd', false), Action::DeleteEntry);
    assert_eq!(map_key(&InputMode::History, '/', false), Action::StartSearch);
    assert_eq!(map_key(&InputMode::History, 'u', false), Action::FilterByUrgency);
}

#[test]
fn search_mode_appends() {
    assert_eq!(map_key(&InputMode::Search, 'a', false), Action::AppendChar('a'));
}

#[test]
fn ctrl_c_quits() {
    assert_eq!(map_key(&InputMode::Normal, 'c', true), Action::Quit);
    assert_eq!(map_key(&InputMode::Search, 'c', true), Action::Quit);
}

#[test]
fn special_keys_normal() {
    assert_eq!(map_special_key(&InputMode::Normal, SpecialKey::Enter), Action::ToggleExpand);
    assert_eq!(map_special_key(&InputMode::Normal, SpecialKey::Escape), Action::Quit);
    assert_eq!(map_special_key(&InputMode::Normal, SpecialKey::Tab), Action::ToggleView);
}

#[test]
fn special_keys_search() {
    assert_eq!(map_special_key(&InputMode::Search, SpecialKey::Enter), Action::Submit);
    assert_eq!(map_special_key(&InputMode::Search, SpecialKey::Escape), Action::Back);
    assert_eq!(map_special_key(&InputMode::Search, SpecialKey::Backspace), Action::Backspace);
}

#[test]
fn ui_state_navigation() {
    let mut state = UiState::default();
    let ids = fresh_ids(5);
    state.update_visible(ids.clone());

    assert_eq!(state.selected_index, 0);
    state.move_down();
    assert_eq!(state.selected_index, 1);
    state.move_down();
    assert_eq!(state.selected_index, 2);

    state.move_up();
    assert_eq!(state.selected_index, 1);

    // Wrap at top
    state.selected_index = 0;
    state.move_up();
    assert_eq!(state.selected_index, 4);

    // Wrap at bottom
    state.selected_index = 4;
    state.move_down();
    assert_eq!(state.selected_index, 0);
}

#[test]
fn ui_state_selected_id() {
    let mut state = UiState::default();
    let ids = fresh_ids(3);
    state.update_visible(ids.clone());

    assert_eq!(state.selected_id(), Some(ids[0]));
    state.move_down();
    assert_eq!(state.selected_id(), Some(ids[1]));
}

#[test]
fn ui_state_empty() {
    let mut state = UiState::default();
    state.update_visible(vec![]);

    assert_eq!(state.selected_id(), None);
    state.move_down(); // should not panic
    state.move_up(); // should not panic
}

#[test]
fn ui_state_modes() {
    let mut state = UiState::default();
    assert_eq!(state.mode, InputMode::Normal);

    state.enter_search();
    assert_eq!(state.mode, InputMode::Search);
    assert!(state.input_buffer.is_empty());

    state.exit_input_mode(InputMode::Normal);
    assert_eq!(state.mode, InputMode::Normal);

    state.enter_command();
    assert_eq!(state.mode, InputMode::Command);
}

#[test]
fn default_bindings_exact() {
    let b = default_bindings();
    assert_eq!(b.len(), 11);
    assert_eq!(b[0].hotkey, Hotkey { modifiers: MOD_NONE, key: Key::J });
    assert_eq!(b[0].action, "move_down");
    assert_eq!(b[3].hotkey, Hotkey { modifiers: MOD_SHIFT, key: Key::D });
    assert_eq!(b[3].action, "dismiss_all");
    assert_eq!(b[10].hotkey, Hotkey { modifiers: MOD_CTRL, key: Key::C });
    assert_eq!(b[10].action, "quit");
}

#[test]
fn unknown_keys_do_nothing() {
    assert_eq!(map_key(&InputMode::Normal, 'z', false), Action::NoAction);
    assert_eq!(map_key(&InputMode::History, 'D', false), Action::NoAction);
    assert_eq!(map_key(&InputMode::Command, 'x', false), Action::AppendChar('x'));
    assert_eq!(map_key(&InputMode::Normal, 'x', true), Action::NoAction);
}

#[test]
fn arrows_move_in_every_mode() {
    for mode in [InputMode::Normal, InputMode::History, InputMode::Search, InputMode::Command] {
        assert_eq!(map_special_key(&mode, SpecialKey::Up), Action::MoveUp);
        assert_eq!(map_special_key(&mode, SpecialKey::Down), Action::MoveDown);
    }
    assert_eq!(map_special_key(&InputMode::History, SpecialKey::Escape), Action::Back);
    assert_eq!(map_special_key(&InputMode::Command, SpecialKey::Enter), Action::Submit);
}

#[test]
fn down_then_up_returns() {
    let mut state = UiState::default();
    state.update_visible(fresh_ids(4));
    for start in 0..4 {
        state.selected_index = start;
        state.move_down();
        state.move_up();
        assert_eq!(state.selected_index, start);
        state.move_up();
        state.move_down();
        assert_eq!(state.selected_index, start);
    }
}

#[test]
fn update_visible_clamps_selection() {
    let mut state = UiState::default();
    state.update_visible(fresh_ids(5));
    state.selected_index = 4;
    state.expanded = true;
    state.update_visible(fresh_ids(2));
    assert_eq!(state.selected_index, 1);
    assert_eq!(state.total_items, 2);
    state.move_down();
    assert!(!state.expanded);
    state.reset_selection();
    assert_eq!(state.selected_index, 0);
}
