use btrbk_restore::config::{
    apply_text_setting, setting_label, setting_value, toggle_setting, Config,
};
use btrbk_restore::stream::{clean_output_line, push_output_line, scroll_offset};
use btrbk_restore::ui::{
    column_header, column_width, confirm_key, edit_buffer_step, footer_text, main_key_action,
    navigate,
    settings_key_action, settings_nav, trim_ascii, truncated_len, EditEvent, MainAction, Screen,
    Selection, SettingsAction, StatusDisplay, StatusLine, KEY_BACKSPACE_CODE, KEY_DOWN_CODE,
    KEY_ESC, KEY_LEFT_CODE, KEY_RIGHT_CODE, KEY_UP_CODE,
};

#[test]
fn main_screen_key_bindings() {
    assert_eq!(main_key_action(KEY_UP_CODE), MainAction::MoveUp);
    assert_eq!(main_key_action(KEY_DOWN_CODE), MainAction::MoveDown);
    assert_eq!(main_key_action(KEY_LEFT_CODE), MainAction::MoveLeft);
    assert_eq!(main_key_action(KEY_RIGHT_CODE), MainAction::MoveRight);
    assert_eq!(main_key_action(10), MainAction::Select);
    assert_eq!(main_key_action(13), MainAction::Select);
    assert_eq!(main_key_action('s' as i32), MainAction::OpenSettings);
    assert_eq!(main_key_action('S' as i32), MainAction::OpenSettings);
    assert_eq!(main_key_action('r' as i32), MainAction::Refresh);
    assert_eq!(main_key_action('h' as i32), MainAction::RebootKey);
    assert_eq!(main_key_action('p' as i32), MainAction::PurgeKey);
    assert_eq!(main_key_action('b' as i32), MainAction::CleanKey);
    assert_eq!(main_key_action('i' as i32), MainAction::SnapshotKey);
    assert_eq!(main_key_action('x' as i32), MainAction::NoOp);
}

#[test]
fn settings_screen_key_bindings() {
    assert_eq!(settings_key_action(KEY_UP_CODE), SettingsAction::MoveUp);
    assert_eq!(settings_key_action(KEY_DOWN_CODE), SettingsAction::MoveDown);
    assert_eq!(settings_key_action(10), SettingsAction::Edit);
    assert_eq!(settings_key_action(32), SettingsAction::Toggle);
    assert_eq!(settings_key_action('s' as i32), SettingsAction::Save);
    assert_eq!(settings_key_action(KEY_ESC), SettingsAction::Back);
    assert_eq!(settings_key_action('q' as i32), SettingsAction::NoOp);
    let _ = Screen::Main;
    let _ = Screen::Settings;
}

#[test]
fn settings_navigation_stays_in_range() {
    assert_eq!(settings_nav(0, SettingsAction::MoveUp), 0);
    assert_eq!(settings_nav(3, SettingsAction::MoveUp), 2);
    assert_eq!(settings_nav(4, SettingsAction::MoveDown), 4);
    assert_eq!(settings_nav(1, SettingsAction::MoveDown), 2);
    assert_eq!(settings_nav(2, SettingsAction::Toggle), 2);
}

#[test]
fn listing_navigation() {
    let lens: Vec<usize> = vec![3, 1, 0];
    let sel = Selection { row: 2, col: 0 };
    assert_eq!(
        navigate(sel, MainAction::MoveUp, &lens),
        Selection { row: 1, col: 0 }
    );
    assert_eq!(
        navigate(Selection { row: 2, col: 0 }, MainAction::MoveDown, &lens),
        Selection { row: 2, col: 0 }
    );
    // moving right into a shorter column pulls the row to its last entry
    assert_eq!(
        navigate(Selection { row: 2, col: 0 }, MainAction::MoveRight, &lens),
        Selection { row: 0, col: 1 }
    );
    // moving right into an empty column pulls the row to the top
    assert_eq!(
        navigate(Selection { row: 0, col: 1 }, MainAction::MoveRight, &lens),
        Selection { row: 0, col: 2 }
    );
    assert_eq!(
        navigate(Selection { row: 0, col: 0 }, MainAction::MoveLeft, &lens),
        Selection { row: 0, col: 0 }
    );
    // a stale selection past the last column is clamped first
    assert_eq!(
        navigate(Selection { row: 0, col: 9 }, MainAction::NoOp, &lens),
        Selection { row: 0, col: 2 }
    );
}

#[test]
fn confirm_dialog_keys() {
    assert_eq!(confirm_key('y' as i32), Some(true));
    assert_eq!(confirm_key('Y' as i32), Some(true));
    assert_eq!(confirm_key('n' as i32), Some(false));
    assert_eq!(confirm_key('N' as i32), Some(false));
    assert_eq!(confirm_key(KEY_ESC), Some(false));
    assert_eq!(confirm_key('z' as i32), None);
}

#[test]
fn edit_buffer_behaviour() {
    let mut buf: Vec<u8> = Vec::new();
    assert_eq!(edit_buffer_step(&mut buf, 'a' as i32), EditEvent::Edited);
    assert_eq!(edit_buffer_step(&mut buf, 'b' as i32), EditEvent::Edited);
    assert_eq!(buf, b"ab".to_vec());
    assert_eq!(edit_buffer_step(&mut buf, KEY_BACKSPACE_CODE), EditEvent::Edited);
    assert_eq!(buf, b"a".to_vec());
    assert_eq!(edit_buffer_step(&mut buf, 127), EditEvent::Edited);
    assert_eq!(edit_buffer_step(&mut buf, 8), EditEvent::Edited);
    assert_eq!(buf, b"".to_vec());
    assert_eq!(edit_buffer_step(&mut buf, 10), EditEvent::Submit);
    assert_eq!(edit_buffer_step(&mut buf, 13), EditEvent::Submit);
    assert_eq!(edit_buffer_step(&mut buf, KEY_ESC), EditEvent::Cancel);
    assert_eq!(edit_buffer_step(&mut buf, KEY_UP_CODE), EditEvent::Edited);
    assert!(buf.is_empty());
}

#[test]
fn trimming_edited_text() {
    assert_eq!(trim_ascii(&b"  /mnt/pool  ".to_vec()), b"/mnt/pool".to_vec());
    assert_eq!(trim_ascii(&b"none".to_vec()), b"none".to_vec());
    assert_eq!(trim_ascii(&b"   ".to_vec()), b"".to_vec());
    assert_eq!(trim_ascii(&b"".to_vec()), b"".to_vec());
    assert_eq!(trim_ascii(&b" a b ".to_vec()), b"a b".to_vec());
}

#[test]
fn footer_shows_reboot_key_only_when_needed() {
    let with = footer_text(true);
    let without = footer_text(false);
    assert!(with.contains("H: REBOOT"));
    assert!(!without.contains("H: REBOOT"));
    assert!(with.starts_with("Up/Down: Navigate"));
    assert!(without.ends_with("Q: Quit"));
}

#[test]
fn status_line_lifecycle() {
    let mut s = StatusLine::new();
    s.set("working".to_string(), 2);
    match s.tick(false) {
        StatusDisplay::Message(m) => assert_eq!(m, "working"),
        _ => panic!("the pending message must show"),
    }
    assert_eq!(s.timeout, 1);
    match s.tick(true) {
        StatusDisplay::RebootWarning => {}
        _ => panic!("the reboot reminder must win"),
    }
    assert_eq!(s.timeout, 1);
    match s.tick(false) {
        StatusDisplay::Message(_) => {}
        _ => panic!("one tick of display time was left"),
    }
    match s.tick(false) {
        StatusDisplay::Nothing => {}
        _ => panic!("the message's time is spent"),
    }
    assert!(s.message.is_empty());
}

#[test]
fn stream_line_cleaning() {
    let line = b"text \x1b[1mbold\x1b[0m\r".to_vec();
    assert_eq!(clean_output_line(&line), b"text [1mbold[0m".to_vec());
    let plain = b"plain line".to_vec();
    assert_eq!(clean_output_line(&plain), plain);
}

#[test]
fn progress_lines_replace_the_previous_line() {
    let mut lines: Vec<Vec<u8>> = Vec::new();
    push_output_line(&mut lines, b"starting".to_vec());
    push_output_line(&mut lines, b"in @10MiB out @2MiB".to_vec());
    assert_eq!(lines, vec![b"in @10MiB out @2MiB".to_vec()]);
    push_output_line(&mut lines, b"in @20MiB out @4MiB".to_vec());
    assert_eq!(lines, vec![b"in @20MiB out @4MiB".to_vec()]);
    push_output_line(&mut lines, b"done".to_vec());
    assert_eq!(lines.len(), 2);
    let mut empty: Vec<Vec<u8>> = Vec::new();
    push_output_line(&mut empty, b"in @1 out @1".to_vec());
    assert_eq!(empty.len(), 1);
}

#[test]
fn scrolling_keeps_newest_lines_visible() {
    assert_eq!(scroll_offset(5, 10), 0);
    assert_eq!(scroll_offset(10, 10), 0);
    assert_eq!(scroll_offset(14, 10), 4);
}

#[test]
fn column_headers_show_prefix_and_count() {
    assert_eq!(column_header("@home", 12), "@HOME (12)");
    assert_eq!(column_header("@", 0), "@ (0)");
    assert_eq!(column_header("@games", 305), "@GAMES (305)");
}

#[test]
fn layout_helpers() {
    assert_eq!(column_width(84, 2), 40);
    assert_eq!(column_width(85, 3), 27);
    assert_eq!(truncated_len(5, 10), 5);
    assert_eq!(truncated_len(15, 10), 10);
}

#[test]
fn config_defaults() {
    let c = Config::default();
    assert_eq!(c.btr_pool_dir, "/mnt/btr_pool");
    assert_eq!(c.snapshots_dir, "/mnt/btr_pool/btrbk_snapshots");
    assert!(!c.auto_cleanup);
    assert!(c.confirm_actions);
    assert!(c.show_timestamps);
    assert_eq!(c.theme, "default");
}

#[test]
fn toggles_flip_their_row_only() {
    let mut c = Config::default();
    toggle_setting(&mut c, 2);
    assert!(c.auto_cleanup);
    assert!(c.confirm_actions);
    toggle_setting(&mut c, 3);
    assert!(!c.confirm_actions);
    toggle_setting(&mut c, 4);
    assert!(!c.show_timestamps);
    toggle_setting(&mut c, 0);
    assert!(c.auto_cleanup);
    assert_eq!(c.btr_pool_dir, "/mnt/btr_pool");
}

#[test]
fn text_settings_store_edits() {
    let mut c = Config::default();
    apply_text_setting(&mut c, 0, "/mnt/elsewhere".to_string());
    assert_eq!(c.btr_pool_dir, "/mnt/elsewhere");
    apply_text_setting(&mut c, 1, "/mnt/elsewhere/snaps".to_string());
    assert_eq!(c.snapshots_dir, "/mnt/elsewhere/snaps");
    apply_text_setting(&mut c, 2, "ignored".to_string());
    assert!(!c.auto_cleanup);
}

#[test]
fn settings_rows_render() {
    let c = Config::default();
    assert_eq!(setting_label(0), "BTR Pool Directory");
    assert_eq!(setting_label(4), "Show Timestamps");
    assert_eq!(setting_value(&c, 0), "/mnt/btr_pool");
    assert_eq!(setting_value(&c, 2), "No");
    assert_eq!(setting_value(&c, 3), "Yes");
    assert_eq!(setting_value(&c, 4), "Yes");
}
