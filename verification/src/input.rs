//! Keyboard input handling with vim-style navigation.
//!
//! Defines input modes (Normal, History, Search, Command), the mapping from
//! keys to actions, the notification center's selection state, and the
//! default key bindings.

use vstd::prelude::*;

use crate::notification::Urgency;

verus! {

/// No modifier key.
pub const MOD_NONE: u8 = 0u8;
/// The Command key.
pub const MOD_CMD: u8 = 1u8;
/// The Control key.
pub const MOD_CTRL: u8 = 2u8;
/// The Alt/Option key.
pub const MOD_ALT: u8 = 4u8;
/// The Shift key.
pub const MOD_SHIFT: u8 = 8u8;

/// A letter key of a hotkey.
#[derive(Debug, Clone, Copy, PartialEq, Eq, Structural)]
pub enum Key {
    A, B, C, D, E, F, G, H, I, J, K, L, M, N, O, P, Q, R, S, T, U, V, W, X, Y, Z,
}

/// A hotkey: a set of modifier keys (a bit set of the `MOD_` flags) and a key.
#[derive(Debug, Clone, Copy, PartialEq, Eq, Structural)]
pub struct Hotkey {
    /// The modifier flags.
    pub modifiers: u8,
    /// The key.
    pub key: Key,
}

/// A keybinding definition: a hotkey paired with an action name.
#[derive(Debug, Clone)]
pub struct KeyBinding {
    /// The hotkey that triggers this binding.
    pub hotkey: Hotkey,
    /// The action name to perform.
    pub action: String,
}

/// Whether a binding has the given hotkey and action name.
pub open spec fn binds(b: KeyBinding, modifiers: u8, key: Key, action: Seq<char>) -> bool {
    b.hotkey == (Hotkey { modifiers, key }) && b.action@ == action
}

/// The default bindings, in order, as `default_bindings` gives them.
pub open spec fn are_default_bindings(r: Seq<KeyBinding>) -> bool {
    &&& r.len() == 11
    &&& binds(r[0], MOD_NONE, Key::J, "move_down"@)
    &&& binds(r[1], MOD_NONE, Key::K, "move_up"@)
    &&& binds(r[2], MOD_NONE, Key::D, "dismiss"@)
    &&& binds(r[3], MOD_SHIFT, Key::D, "dismiss_all"@)
    &&& binds(r[4], MOD_NONE, Key::N, "toggle_dnd"@)
    &&& binds(r[5], MOD_NONE, Key::C, "clear_history"@)
    &&& binds(r[6], MOD_NONE, Key::F, "filter_by_app"@)
    &&& binds(r[7], MOD_NONE, Key::R, "mark_read"@)
    &&& binds(r[8], MOD_SHIFT, Key::R, "mark_all_read"@)
    &&& binds(r[9], MOD_NONE, Key::Q, "quit"@)
    &&& binds(r[10], MOD_CTRL, Key::C, "quit"@)
}

/// The character a letter key types: lowercase, or uppercase with Shift.
pub open spec fn key_char(k: Key, shift: bool) -> char {
    let lower = match k {
        Key::A => 'a', Key::B => 'b', Key::C => 'c', Key::D => 'd', Key::E => 'e', Key::F => 'f',
        Key::G => 'g', Key::H => 'h', Key::I => 'i', Key::J => 'j', Key::K => 'k', Key::L => 'l',
        Key::M => 'm', Key::N => 'n', Key::O => 'o', Key::P => 'p', Key::Q => 'q', Key::R => 'r',
        Key::S => 's', Key::T => 't', Key::U => 'u', Key::V => 'v', Key::W => 'w', Key::X => 'x',
        Key::Y => 'y', Key::Z => 'z',
    };
    if shift { ((lower as int) - 32) as char } else { lower }
}

/// The name of an action as bindings write it.
pub open spec fn action_name(a: Action) -> Seq<char> {
    match a {
        Action::MoveUp => "move_up"@,
        Action::MoveDown => "move_down"@,
        Action::ToggleExpand => "toggle_expand"@,
        Action::Dismiss => "dismiss"@,
        Action::DismissAll => "dismiss_all"@,
        Action::ToggleDnd => "toggle_dnd"@,
        Action::ClearHistory => "clear_history"@,
        Action::FilterByApp => "filter_by_app"@,
        Action::FilterByUrgency => "filter_by_urgency"@,
        Action::StartSearch => "start_search"@,
        Action::MarkRead => "mark_read"@,
        Action::MarkAllRead => "mark_all_read"@,
        Action::ToggleView => "toggle_view"@,
        Action::Quit => "quit"@,
        Action::EnterCommand => "enter_command"@,
        Action::DeleteEntry => "delete_entry"@,
        Action::Back => "back"@,
        Action::Submit => "submit"@,
        Action::AppendChar(_) => "append_char"@,
        Action::Backspace => "backspace"@,
        Action::NoAction => "no_action"@,
    }
}

/// In normal mode the keys do what the default bindings name: each
/// binding's hotkey (its letter, uppercase with Shift, or with Control)
/// maps to the action its binding names.
pub proof fn law_normal_keys_follow_default_bindings(r: Seq<KeyBinding>)
    requires
        are_default_bindings(r),
    ensures
        forall|i: int| 0 <= i < r.len() ==> action_name(key_action(
            InputMode::Normal,
            key_char((#[trigger] r[i]).hotkey.key, r[i].hotkey.modifiers == MOD_SHIFT),
            r[i].hotkey.modifiers == MOD_CTRL,
        )) == r[i].action@,
{
    assert forall|i: int| 0 <= i < r.len() implies action_name(key_action(
        InputMode::Normal,
        key_char((#[trigger] r[i]).hotkey.key, r[i].hotkey.modifiers == MOD_SHIFT),
        r[i].hotkey.modifiers == MOD_CTRL,
    )) == r[i].action@ by {
        assert(0 <= i < 11);
    }
}

/// A binding of a hotkey to an action name.
fn binding(modifiers: u8, key: Key, action: &str) -> (b: KeyBinding)
    ensures
        binds(b, modifiers, key, action@),
{
    KeyBinding { hotkey: Hotkey { modifiers, key }, action: String::from_str(action) }
}

/// Default keybindings. The search key `/` has no hotkey and is handled by
/// `map_key` alone.
pub fn default_bindings() -> (r: Vec<KeyBinding>)
    ensures
        r@.len() == 11,
        binds(r@[0], MOD_NONE, Key::J, "move_down"@),
        binds(r@[1], MOD_NONE, Key::K, "move_up"@),
        binds(r@[2], MOD_NONE, Key::D, "dismiss"@),
        binds(r@[3], MOD_SHIFT, Key::D, "dismiss_all"@),
        binds(r@[4], MOD_NONE, Key::N, "toggle_dnd"@),
        binds(r@[5], MOD_NONE, Key::C, "clear_history"@),
        binds(r@[6], MOD_NONE, Key::F, "filter_by_app"@),
        binds(r@[7], MOD_NONE, Key::R, "mark_read"@),
        binds(r@[8], MOD_SHIFT, Key::R, "mark_all_read"@),
        binds(r@[9], MOD_NONE, Key::Q, "quit"@),
        binds(r@[10], MOD_CTRL, Key::C, "quit"@),
        are_default_bindings(r@),
{
    let mut r: Vec<KeyBinding> = Vec::new();
    r.push(binding(MOD_NONE, Key::J, "move_down"));
    r.push(binding(MOD_NONE, Key::K, "move_up"));
    r.push(binding(MOD_NONE, Key::D, "dismiss"));
    r.push(binding(MOD_SHIFT, Key::D, "dismiss_all"));
    r.push(binding(MOD_NONE, Key::N, "toggle_dnd"));
    r.push(binding(MOD_NONE, Key::C, "clear_history"));
    r.push(binding(MOD_NONE, Key::F, "filter_by_app"));
    r.push(binding(MOD_NONE, Key::R, "mark_read"));
    r.push(binding(MOD_SHIFT, Key::R, "mark_all_read"));
    r.push(binding(MOD_NONE, Key::Q, "quit"));
    r.push(binding(MOD_CTRL, Key::C, "quit"));
    r
}

/// Input mode for the notification center.
#[derive(Debug, Clone, Copy, PartialEq, Eq, Structural)]
pub enum InputMode {
    /// Normal mode: navigate current notifications.
    Normal,
    /// History mode: navigate past notifications.
    History,
    /// Search mode: typing a search query.
    Search,
    /// Command mode: typing a command (`:` prefix).
    Command,
}

impl Default for InputMode {
    fn default() -> (m: Self)
        ensures
            m == InputMode::Normal,
    {
        InputMode::Normal
    }
}

/// Actions that can be triggered by keyboard input.
#[derive(Debug, Clone, Copy, PartialEq, Eq, Structural)]
pub enum Action {
    /// Move selection up.
    MoveUp,
    /// Move selection down.
    MoveDown,
    /// Expand/collapse the selected notification.
    ToggleExpand,
    /// Dismiss the selected notification.
    Dismiss,
    /// Dismiss all visible notifications.
    DismissAll,
    /// Toggle Do Not Disturb.
    ToggleDnd,
    /// Clear all history.
    ClearHistory,
    /// Enter filter-by-app mode.
    FilterByApp,
    /// Filter by urgency.
    FilterByUrgency,
    /// Start search.
    StartSearch,
    /// Mark selected as read.
    MarkRead,
    /// Mark all as read.
    MarkAllRead,
    /// Switch between current/history view.
    ToggleView,
    /// Close the notification center.
    Quit,
    /// Enter command mode.
    EnterCommand,
    /// Delete entry from history.
    DeleteEntry,
    /// Go back / escape current mode.
    Back,
    /// Submit current search or command input.
    Submit,
    /// Append a character to the input buffer.
    AppendChar(char),
    /// Delete last character from input buffer.
    Backspace,
    /// No action.
    NoAction,
}

/// Special (non-character) keys.
#[derive(Debug, Clone, Copy, PartialEq, Eq, Structural)]
pub enum SpecialKey {
    Enter,
    Escape,
    Backspace,
    Tab,
    Up,
    Down,
}

/// The action of a key in normal mode.
pub open spec fn normal_key_action(key: char) -> Action {
    if key == 'j' { Action::MoveDown }
    else if key == 'k' { Action::MoveUp }
    else if key == 'd' { Action::Dismiss }
    else if key == 'D' { Action::DismissAll }
    else if key == 'n' { Action::ToggleDnd }
    else if key == 'c' { Action::ClearHistory }
    else if key == 'f' { Action::FilterByApp }
    else if key == '/' { Action::StartSearch }
    else if key == 'r' { Action::MarkRead }
    else if key == 'R' { Action::MarkAllRead }
    else if key == 'q' { Action::Quit }
    else if key == ':' { Action::EnterCommand }
    else { Action::NoAction }
}

/// The action of a key in history mode.
pub open spec fn history_key_action(key: char) -> Action {
    if key == 'j' { Action::MoveDown }
    else if key == 'k' { Action::MoveUp }
    else if key == 'd' { Action::DeleteEntry }
    else if key == 'c' { Action::ClearHistory }
    else if key == 'f' { Action::FilterByApp }
    else if key == 'u' { Action::FilterByUrgency }
    else if key == '/' { Action::StartSearch }
    else if key == 'q' { Action::Back }
    else { Action::NoAction }
}

/// The action of a key press in a mode: with Control only `c` acts (quit);
/// in Search and Command modes every key is typed.
pub open spec fn key_action(mode: InputMode, key: char, ctrl: bool) -> Action {
    if ctrl {
        if key == 'c' { Action::Quit } else { Action::NoAction }
    } else {
        match mode {
            InputMode::Normal => normal_key_action(key),
            InputMode::History => history_key_action(key),
            InputMode::Search | InputMode::Command => Action::AppendChar(key),
        }
    }
}

/// The action of a special key in a mode.
pub open spec fn special_key_action(mode: InputMode, key: SpecialKey) -> Action {
    match key {
        SpecialKey::Enter => match mode {
            InputMode::Normal | InputMode::History => Action::ToggleExpand,
            InputMode::Search | InputMode::Command => Action::Submit,
        },
        SpecialKey::Escape => match mode {
            InputMode::Normal => Action::Quit,
            _ => Action::Back,
        },
        SpecialKey::Backspace => match mode {
            InputMode::Search | InputMode::Command => Action::Backspace,
            _ => Action::NoAction,
        },
        SpecialKey::Tab => Action::ToggleView,
        SpecialKey::Up => Action::MoveUp,
        SpecialKey::Down => Action::MoveDown,
    }
}

/// Map a key press to an action based on the current input mode.
pub fn map_key(mode: &InputMode, key: char, ctrl: bool) -> (a: Action)
    ensures
        a == key_action(*mode, key, ctrl),
{
    if ctrl {
        return if key == 'c' { Action::Quit } else { Action::NoAction };
    }
    match mode {
        InputMode::Normal => map_normal_key(key),
        InputMode::History => map_history_key(key),
        InputMode::Search | InputMode::Command => map_input_key(key),
    }
}

/// Map a special key (non-character) to an action.
pub fn map_special_key(mode: &InputMode, key: SpecialKey) -> (a: Action)
    ensures
        a == special_key_action(*mode, key),
{
    match key {
        SpecialKey::Enter => match mode {
            InputMode::Normal | InputMode::History => Action::ToggleExpand,
            InputMode::Search | InputMode::Command => Action::Submit,
        },
        SpecialKey::Escape => match mode {
            InputMode::Normal => Action::Quit,
            InputMode::History => Action::Back,
            InputMode::Search | InputMode::Command => Action::Back,
        },
        SpecialKey::Backspace => match mode {
            InputMode::Search | InputMode::Command => Action::Backspace,
            _ => Action::NoAction,
        },
        SpecialKey::Tab => Action::ToggleView,
        SpecialKey::Up => Action::MoveUp,
        SpecialKey::Down => Action::MoveDown,
    }
}

pub fn map_normal_key(key: char) -> (a: Action)
    ensures
        a == normal_key_action(key),
{
    match key {
        'j' => Action::MoveDown,
        'k' => Action::MoveUp,
        'd' => Action::Dismiss,
        'D' => Action::DismissAll,
        'n' => Action::ToggleDnd,
        'c' => Action::ClearHistory,
        'f' => Action::FilterByApp,
        '/' => Action::StartSearch,
        'r' => Action::MarkRead,
        'R' => Action::MarkAllRead,
        'q' => Action::Quit,
        ':' => Action::EnterCommand,
        _ => Action::NoAction,
    }
}

pub fn map_history_key(key: char) -> (a: Action)
    ensures
        a == history_key_action(key),
{
    match key {
        'j' => Action::MoveDown,
        'k' => Action::MoveUp,
        'd' => Action::DeleteEntry,
        'c' => Action::ClearHistory,
        'f' => Action::FilterByApp,
        'u' => Action::FilterByUrgency,
        '/' => Action::StartSearch,
        'q' => Action::Back,
        _ => Action::NoAction,
    }
}

pub fn map_input_key(key: char) -> (a: Action)
    ensures
        a == Action::AppendChar(key),
{
    Action::AppendChar(key)
}

/// State for the notification center UI.
#[derive(Debug)]
pub struct UiState {
    /// Current input mode.
    pub mode: InputMode,
    /// Index of the selected notification in the current view.
    pub selected_index: usize,
    /// Total number of items in the current view.
    pub total_items: usize,
    /// Whether the selected notification is expanded.
    pub expanded: bool,
    /// Current search/command input buffer.
    pub input_buffer: String,
    /// Current app filter (None = show all).
    pub app_filter: Option<String>,
    /// Current urgency filter (None = show all).
    pub urgency_filter: Option<Urgency>,
    /// IDs of notifications in the current view (for mapping index to ID).
    pub visible_ids: Vec<u128>,
}

impl Default for UiState {
    fn default() -> (s: Self)
        ensures
            s.mode == InputMode::Normal,
            s.selected_index == 0,
            s.total_items == 0,
            !s.expanded,
            s.input_buffer@.len() == 0,
            s.app_filter is None,
            s.urgency_filter is None,
            s.visible_ids@.len() == 0,
    {
        UiState {
            mode: InputMode::Normal,
            selected_index: 0,
            total_items: 0,
            expanded: false,
            input_buffer: String::new(),
            app_filter: None,
            urgency_filter: None,
            visible_ids: Vec::new(),
        }
    }
}

/// The selection after moving up, wrapping at the top.
pub open spec fn index_after_up(selected: usize, total: usize) -> usize {
    if total == 0 {
        selected
    } else if selected == 0 {
        (total - 1) as usize
    } else {
        (selected - 1) as usize
    }
}

/// The selection after moving down, wrapping at the bottom.
pub open spec fn index_after_down(selected: usize, total: usize) -> usize {
    if total == 0 {
        selected
    } else {
        ((selected + 1) % (total as int)) as usize
    }
}

/// Whether two states agree on everything but the selection and expansion.
pub open spec fn same_but_selection(a: UiState, b: UiState) -> bool {
    &&& a.mode == b.mode
    &&& a.total_items == b.total_items
    &&& a.input_buffer == b.input_buffer
    &&& a.app_filter == b.app_filter
    &&& a.urgency_filter == b.urgency_filter
    &&& a.visible_ids == b.visible_ids
}

impl UiState {
    /// Move selection up, wrapping at the top.
    pub fn move_up(&mut self)
        ensures
            final(self).selected_index == index_after_up(old(self).selected_index, old(self).total_items),
            old(self).total_items == 0 ==> final(self).expanded == old(self).expanded,
            old(self).total_items != 0 ==> !final(self).expanded,
            same_but_selection(*final(self), *old(self)),
    {
        if self.total_items == 0 {
            return;
        }
        if self.selected_index == 0 {
            self.selected_index = self.total_items - 1;
        } else {
            self.selected_index = self.selected_index - 1;
        }
        self.expanded = false;
    }

    /// Move selection down, wrapping at the bottom.
    pub fn move_down(&mut self)
        requires
            old(self).total_items != 0 ==> old(self).selected_index < usize::MAX,
        ensures
            final(self).selected_index == index_after_down(old(self).selected_index, old(self).total_items),
            old(self).total_items == 0 ==> final(self).expanded == old(self).expanded,
            old(self).total_items != 0 ==> !final(self).expanded,
            same_but_selection(*final(self), *old(self)),
    {
        if self.total_items == 0 {
            return;
        }
        self.selected_index = (self.selected_index + 1) % self.total_items;
        self.expanded = false;
    }

    /// Get the ID of the currently selected notification.
    pub fn selected_id(&self) -> (r: Option<u128>)
        ensures
            r == (if self.selected_index < self.visible_ids@.len() {
                Some(self.visible_ids@[self.selected_index as int])
            } else {
                None
            }),
    {
        if self.selected_index < self.visible_ids.len() {
            Some(self.visible_ids[self.selected_index])
        } else {
            None
        }
    }

    /// Reset selection to the beginning.
    pub fn reset_selection(&mut self)
        ensures
            final(self).selected_index == 0,
            !final(self).expanded,
            same_but_selection(*final(self), *old(self)),
    {
        self.selected_index = 0;
        self.expanded = false;
    }

    /// Enter search mode.
    pub fn enter_search(&mut self)
        ensures
            final(self).mode == InputMode::Search,
            final(self).input_buffer@.len() == 0,
            final(self).selected_index == old(self).selected_index,
            final(self).total_items == old(self).total_items,
            final(self).expanded == old(self).expanded,
            final(self).visible_ids == old(self).visible_ids,
    {
        self.mode = InputMode::Search;
        self.input_buffer = String::new();
    }

    /// Enter command mode.
    pub fn enter_command(&mut self)
        ensures
            final(self).mode == InputMode::Command,
            final(self).input_buffer@.len() == 0,
            final(self).selected_index == old(self).selected_index,
            final(self).total_items == old(self).total_items,
            final(self).expanded == old(self).expanded,
            final(self).visible_ids == old(self).visible_ids,
    {
        self.mode = InputMode::Command;
        self.input_buffer = String::new();
    }

    /// Exit back to normal/history mode.
    pub fn exit_input_mode(&mut self, previous: InputMode)
        ensures
            final(self).mode == previous,
            final(self).input_buffer@.len() == 0,
            final(self).selected_index == old(self).selected_index,
            final(self).total_items == old(self).total_items,
            final(self).expanded == old(self).expanded,
            final(self).visible_ids == old(self).visible_ids,
    {
        self.mode = previous;
        self.input_buffer = String::new();
    }

    /// Update the visible items (call after any data change); a selection
    /// past the end moves to the last item.
    pub fn update_visible(&mut self, ids: Vec<u128>)
        ensures
            final(self).visible_ids@ == ids@,
            final(self).total_items == ids@.len(),
            final(self).selected_index == (if old(self).selected_index >= ids@.len() && ids@.len() > 0 {
                (ids@.len() - 1) as usize
            } else {
                old(self).selected_index
            }),
            final(self).mode == old(self).mode,
            final(self).expanded == old(self).expanded,
            final(self).input_buffer == old(self).input_buffer,
            final(self).app_filter == old(self).app_filter,
            final(self).urgency_filter == old(self).urgency_filter,
    {
        self.visible_ids = ids;
        self.total_items = self.visible_ids.len();
        if self.selected_index >= self.total_items && self.total_items > 0 {
            self.selected_index = self.total_items - 1;
        }
    }
}

/// Moving down then up returns to the same item, and moving up then down
/// too, whenever the selection is within the view.
pub proof fn lemma_up_down_inverse(selected: usize, total: usize)
    requires
        selected < total,
    ensures
        index_after_up(index_after_down(selected, total), total) == selected,
        index_after_down(index_after_up(selected, total), total) == selected,
{
    if selected + 1 < total {
        assert((selected + 1) % (total as int) == selected + 1) by (nonlinear_arith)
            requires selected + 1 < total, 0 <= selected;
    } else {
        assert((selected + 1) % (total as int) == 0) by (nonlinear_arith)
            requires selected + 1 == total;
    }
    if selected == 0 {
        assert(((total - 1) + 1) % (total as int) == 0) by (nonlinear_arith)
            requires total > 0;
    } else {
        assert(((selected - 1) + 1) % (total as int) == selected) by (nonlinear_arith)
            requires 0 < selected < total;
    }
}

/// Navigation keeps the selection within a non-empty view.
pub proof fn lemma_navigation_in_range(selected: usize, total: usize)
    requires
        selected < total,
    ensures
        index_after_up(selected, total) < total,
        index_after_down(selected, total) < total,
{
    assert((selected + 1) % (total as int) < total) by (nonlinear_arith)
        requires total > 0;
}

/// Wrapping: moving down from the last item selects the first, and moving
/// up from the first selects the last.
pub proof fn lemma_navigation_wraps(total: usize)
    requires
        total > 0,
    ensures
        index_after_down((total - 1) as usize, total) == 0,
        index_after_up(0, total) == total - 1,
{
    assert(((total - 1) + 1) % (total as int) == 0) by (nonlinear_arith)
        requires total > 0;
}

} // verus!
