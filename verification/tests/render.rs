use shirase::filter::DndState;
use shirase::input::{InputMode, UiState};
use shirase::notification::{group_by_app, Notification, NotificationGroup, Urgency};
use shirase::render::{
    can_truncate, header_lines_for, notification_lines_at, render_center, render_groups, render_header,
    render_mode_line, render_notification_list, render_status, split_lines, status_lines_for, titles_can_truncate,
    truncate,
};

#[test]
fn truncate_short() {
    assert_eq!(truncate("hello", 10), "hello");
}

#[test]
fn truncate_long() {
    let result = truncate("this is a very long title that needs truncation", 20);
    assert!(result.len() <= 20);
    assert!(result.ends_with("..."));
}

#[test]
fn truncate_exact() {
    assert_eq!(truncate("12345", 5), "12345");
}

#[test]
fn truncate_cuts_three_bytes_before_the_limit() {
    assert_eq!(truncate("abcdefghij", 8), "abcde...");
    assert_eq!(truncate("abcdefghij", 2), "ab");
    assert_eq!(truncate("abcdefghij", 0), "");
    assert!(can_truncate("héllo", 2));
    assert_eq!(truncate("héllo", 2), "h");
    assert_eq!(truncate("héllo", 1), "h");
    assert_eq!(truncate("é", 1), "");
}

#[test]
fn truncate_checks_character_boundaries() {
    let wide = "é".repeat(30);
    // 60 bytes; the cut for 40 falls at byte 37, inside a character.
    assert!(!can_truncate(&wide, 40));
    assert!(can_truncate(&wide, 41));
    assert_eq!(truncate(&wide, 41), format!("{}...", "é".repeat(19)));
    assert!(can_truncate("short", 40));
    let n = Notification::new("A", &wide, "");
    assert!(!titles_can_truncate(&[n]));
    assert!(titles_can_truncate(&[]));
}

#[test]
fn split_lines_like_str_lines() {
    assert_eq!(split_lines("a\nb\r\n\nc"), vec!["a", "b", "", "c"]);
    assert_eq!(split_lines("one\n"), vec!["one"]);
    assert_eq!(split_lines("ab\r"), vec!["ab\r"]);
    assert_eq!(split_lines("ab\r\ncd\r"), vec!["ab", "cd\r"]);
    assert!(split_lines("").is_empty());
}

#[test]
fn header_text() {
    let lines = header_lines_for(false, 2, 5);
    assert_eq!(lines, vec![
        String::new(),
        "  Notifications  [DnD: OFF]  [2 unread / 5 total]".to_string(),
        format!("  {}", "-".repeat(54)),
    ]);
    let lines = header_lines_for(true, 0, 0);
    assert_eq!(lines[1], "  Notifications  [DnD: ON]  [0 unread / 0 total]");
}

#[test]
fn header_reads_dnd() {
    let mut dnd = DndState::default();
    dnd.enable();
    let lines = render_header(&dnd, 1, 3);
    assert_eq!(lines[1], "  Notifications  [DnD: ON]  [1 unread / 3 total]");
}

#[test]
fn notification_line_collapsed_and_expanded() {
    let id: u128 = 0x0123_4567_89ab_cdef_0123_4567_89ab_cdef;
    let n = Notification::with_id_and_time(id, 0, "Mail", "Hello", "line one\nline two");
    let collapsed = notification_lines_at(&n, true, false, "12:34");
    assert_eq!(collapsed, vec![format!("  >*  {:<40} 12:34", "Hello")]);

    let mut read = n.clone();
    read.read = true;
    read.dismissed = true;
    read.urgency = Urgency::Critical;
    let expanded = notification_lines_at(&read, false, true, "09:00");
    assert_eq!(expanded, vec![
        format!("    ! {:<40} 09:00 [dismissed]", "Hello"),
        "      App: Mail".to_string(),
        "      Urgency: critical".to_string(),
        format!("      ID: {}", uuid::Uuid::from_u128(id)),
        "      line one".to_string(),
        "      line two".to_string(),
        String::new(),
    ]);
    assert_eq!(expanded[3], "      ID: 01234567-89ab-cdef-0123-456789abcdef");
}

#[test]
fn mode_lines() {
    let mut ui = UiState::default();
    assert_eq!(render_mode_line(&ui), vec![
        String::new(),
        "  [Normal] j/k:nav  d:dismiss  D:all  n:dnd  /:search  q:quit  ?:help".to_string(),
    ]);
    ui.mode = InputMode::Search;
    ui.input_buffer = "mail".to_string();
    assert_eq!(render_mode_line(&ui)[1], "  [Search] /mail");
    ui.mode = InputMode::Command;
    assert_eq!(render_mode_line(&ui)[1], "  [Command] :mail");
    ui.mode = InputMode::History;
    assert_eq!(render_mode_line(&ui)[1], "  [History] j/k:nav  d:delete  c:clear  /:search  u:urgency  Esc:back");
}

#[test]
fn empty_views() {
    let ui = UiState::default();
    assert_eq!(render_groups(&[], &ui), vec!["  No notifications."]);
    assert_eq!(render_notification_list(&vec![], &ui), vec!["  No results."]);
}

#[test]
fn groups_are_numbered_across_groups() {
    let notifs = vec![
        Notification::with_id_and_time(1, 2_000_000, "Mail", "m1", ""),
        Notification::with_id_and_time(2, 1_000_000, "Chat", "c1", ""),
    ];
    let groups = group_by_app(&notifs);
    let mut ui = UiState::default();
    ui.selected_index = 1;
    let lines = render_groups(&groups, &ui);
    assert_eq!(lines.len(), 8);
    assert_eq!(lines[0], "");
    assert_eq!(lines[1], "  Mail (1)  [1 unread]");
    assert_eq!(lines[2], format!("  {}", "-".repeat(50)));
    assert!(lines[3].starts_with(&format!("   *  {:<40} ", "m1")));
    assert_eq!(lines[5], "  Chat (1)  [1 unread]");
    assert!(lines[7].starts_with(&format!("  >*  {:<40} ", "c1")));
}

#[test]
fn status_text() {
    let mut n1 = Notification::with_id_and_time(1, 10, "Mail", "a", "");
    n1.read = true;
    let n2 = Notification::with_id_and_time(2, 20, "Mail", "b", "");
    let groups = vec![NotificationGroup { app_name: "Mail".to_string(), notifications: vec![n2, n1] }];
    let lines = status_lines_for(true, true, false, 3, 1, 2, &groups);
    assert_eq!(lines, vec![
        "Shirase Notification Center".to_string(),
        String::new(),
        "  DnD:     ON".to_string(),
        "  DnD mode: manual".to_string(),
        "  Total:   3".to_string(),
        "  Unread:  1".to_string(),
        "  Active:  2".to_string(),
        String::new(),
        "  Groups:".to_string(),
        "    Mail: 2 (1 unread)".to_string(),
    ]);
    let quiet = status_lines_for(false, false, true, 0, 0, 0, &[]);
    assert_eq!(quiet[2], "  DnD:     OFF");
    assert_eq!(quiet[3], "  DnD mode: quiet hours");
    assert_eq!(quiet.len(), 8);
}

#[test]
fn status_reads_dnd() {
    let dnd = DndState::default();
    let lines = render_status(&dnd, 0, 0, 0, &[]);
    assert_eq!(lines[2], "  DnD:     OFF");
    assert_eq!(lines.len(), 7);
}

#[test]
fn center_clears_and_skips_dismissed() {
    let mut gone = Notification::with_id_and_time(1, 10, "Old", "gone", "");
    gone.dismissed = true;
    let kept = Notification::with_id_and_time(2, 20, "New", "kept", "");
    let ui = UiState::default();
    let lines = render_center(&[gone, kept], &DndState::default(), &ui);
    assert_eq!(lines[0], "\x1b[2J\x1b[H");
    assert_eq!(lines[1], "  Notifications  [DnD: OFF]  [2 unread / 2 total]");
    assert!(lines.iter().any(|l| l.contains("kept")));
    assert!(!lines.iter().any(|l| l.contains("gone")));
    assert_eq!(lines[lines.len() - 1], "  [Normal] j/k:nav  d:dismiss  D:all  n:dnd  /:search  q:quit  ?:help");
}

#[test]
fn one_cursor_across_groups_and_one_expansion() {
    let ns = vec![
        Notification::new("Mail", "a", ""),
        Notification::new("Chat", "b", "line one\nline two"),
        Notification::new("Mail", "c", ""),
    ];
    let groups = group_by_app(&ns);
    let mut ui = UiState::default();
    ui.expanded = true;
    for sel in 0..4usize {
        ui.selected_index = sel;
        let lines = render_groups(&groups, &ui);
        let cursors = lines.iter().filter(|l| l.chars().nth(2) == Some('>')).count();
        assert_eq!(cursors, if sel < 3 { 1 } else { 0 });
        let details = lines.iter().filter(|l| l.starts_with("      ID: ")).count();
        assert_eq!(details, if sel < 3 { 1 } else { 0 });
    }
    ui.selected_index = 9;
    ui.expanded = false;
    assert_eq!(render_groups(&groups, &ui).len(), 3 * 2 + 3);
}
