use together::overlay::{
    parse_menu_id, plan_char_windows, visibility_menu_id, MenuAction, MenuCommand, OverlayState,
};
use together::users::{find_user_json, parse_users, read_users};
use together::window::char_window_size;

fn strings(v: &[&str]) -> Vec<String> {
    v.iter().map(|s| s.to_string()).collect()
}

fn listed_state() -> OverlayState {
    let mut s = OverlayState::default();
    assert!(s.update_overlay_users(strings(&["u1", "u2", "u3"]), strings(&["Ann", "Bob", "Cid"])));
    s
}

#[test]
fn default_state() {
    let s = OverlayState::default();
    assert!(s.drag_enabled());
    assert_eq!(s.character_size(), 2);
    assert!(!s.notifications_muted());
    assert_eq!(s.get_users_json(), "[]");
    assert!(s.tray_user_ids().is_empty());
    assert!(s.char_user_ids().is_empty());
    let m = s.tray_menu();
    assert!(m.drag_enabled && !m.muted && m.size_medium && !m.size_small && !m.size_large);
    assert!(m.visibility.is_none());
}

#[test]
fn window_sizes() {
    assert_eq!(char_window_size(1), (140, 130));
    assert_eq!(char_window_size(2), (185, 180));
    assert_eq!(char_window_size(3), (245, 230));
    assert_eq!(char_window_size(0), (185, 180));
    assert_eq!(char_window_size(9), (185, 180));
}

#[test]
fn menu_ids_parse() {
    assert_eq!(parse_menu_id("show"), MenuCommand::ShowChat);
    assert_eq!(parse_menu_id("toggle-drag"), MenuCommand::ToggleDrag);
    assert_eq!(parse_menu_id("size-1"), MenuCommand::SetSize(1));
    assert_eq!(parse_menu_id("size-2"), MenuCommand::SetSize(2));
    assert_eq!(parse_menu_id("size-3"), MenuCommand::SetSize(3));
    assert_eq!(parse_menu_id("size-4"), MenuCommand::Unknown);
    assert_eq!(parse_menu_id("reset"), MenuCommand::ResetPositions);
    assert_eq!(parse_menu_id("leave"), MenuCommand::Leave);
    assert_eq!(parse_menu_id("mute-notify"), MenuCommand::ToggleMute);
    assert_eq!(parse_menu_id("quit"), MenuCommand::Quit);
    assert_eq!(parse_menu_id("vis-2"), MenuCommand::ToggleVisibility(2));
    assert_eq!(parse_menu_id("vis-vis-7"), MenuCommand::ToggleVisibility(7));
    assert_eq!(parse_menu_id("vis-"), MenuCommand::ToggleVisibility(0));
    assert_eq!(parse_menu_id("vis-x"), MenuCommand::ToggleVisibility(0));
    assert_eq!(parse_menu_id("vis-+3"), MenuCommand::ToggleVisibility(3));
    assert_eq!(parse_menu_id("other"), MenuCommand::Unknown);
    assert_eq!(parse_menu_id(""), MenuCommand::Unknown);
}

#[test]
fn visibility_ids_parse_back() {
    for i in [0usize, 1, 9, 10, 123] {
        let id = visibility_menu_id(i);
        assert_eq!(id, format!("vis-{}", i));
        assert_eq!(parse_menu_id(&id), MenuCommand::ToggleVisibility(i));
    }
}

#[test]
fn toggle_drag_twice_restores() {
    let mut s = listed_state();
    s.sync_char_windows(strings(&["u1", "u2"]), "[]".to_string());
    match s.handle_menu_event("toggle-drag") {
        MenuAction::DragToggled { enabled, char_windows } => {
            assert!(!enabled);
            assert_eq!(char_windows, strings(&["char_u1", "char_u2"]));
        }
        _ => panic!("unexpected action"),
    }
    assert!(!s.drag_enabled());
    assert!(!s.tray_menu().drag_enabled);
    match s.handle_menu_event("toggle-drag") {
        MenuAction::DragToggled { enabled, .. } => assert!(enabled),
        _ => panic!("unexpected action"),
    }
    assert!(s.drag_enabled());
}

#[test]
fn mute_twice_restores() {
    let mut s = OverlayState::default();
    assert!(matches!(s.handle_menu_event("mute-notify"), MenuAction::MuteToggled { muted: true }));
    assert!(s.notifications_muted());
    assert!(s.tray_menu().muted);
    assert!(matches!(s.handle_menu_event("mute-notify"), MenuAction::MuteToggled { muted: false }));
    assert!(!s.notifications_muted());
}

#[test]
fn size_change_reports_windows() {
    let mut s = listed_state();
    s.sync_char_windows(strings(&["u1", "u2"]), "[]".to_string());
    s.handle_menu_event("vis-1");
    match s.handle_menu_event("size-3") {
        MenuAction::SizeChanged { old_size, new_size, windows } => {
            assert_eq!((old_size, new_size), (2, 3));
            assert_eq!(windows.len(), 2);
            assert_eq!(windows[0].label, "char_u1");
            assert!(windows[0].visible);
            assert_eq!(windows[1].label, "char_u2");
            assert!(!windows[1].visible);
        }
        _ => panic!("unexpected action"),
    }
    assert_eq!(s.character_size(), 3);
    let m = s.tray_menu();
    assert!(m.size_large && !m.size_medium && !m.size_small);
    match s.handle_menu_event("size-3") {
        MenuAction::SizeChanged { old_size, new_size, .. } => assert_eq!((old_size, new_size), (3, 3)),
        _ => panic!("unexpected action"),
    }
    assert_eq!(s.character_size(), 3);
}

#[test]
fn reset_reports_windows_and_level() {
    let mut s = listed_state();
    s.sync_char_windows(strings(&["u3"]), "[]".to_string());
    s.handle_menu_event("size-1");
    match s.handle_menu_event("reset") {
        MenuAction::ResetPositions { char_windows, size_level } => {
            assert_eq!(char_windows, strings(&["char_u3"]));
            assert_eq!(size_level, 1);
        }
        _ => panic!("unexpected action"),
    }
}

#[test]
fn visibility_entry_toggles_its_user() {
    let mut s = listed_state();
    let before = s.tray_menu().visibility.unwrap();
    assert_eq!(before.len(), 3);
    assert_eq!(before[1].id, "vis-1");
    assert_eq!(before[1].label, "Bob");
    assert!(before.iter().all(|i| i.visible));
    match s.handle_menu_event(&before[1].id) {
        MenuAction::VisibilityToggled { window, hidden } => {
            assert_eq!(window, Some("char_u2".to_string()));
            assert!(hidden);
        }
        _ => panic!("unexpected action"),
    }
    assert!(s.is_hidden("u2"));
    assert!(!s.is_hidden("u1"));
    let after = s.tray_menu().visibility.unwrap();
    assert!(after[0].visible && !after[1].visible && after[2].visible);
    match s.handle_menu_event("vis-1") {
        MenuAction::VisibilityToggled { window, hidden } => {
            assert_eq!(window, Some("char_u2".to_string()));
            assert!(!hidden);
        }
        _ => panic!("unexpected action"),
    }
    assert!(!s.is_hidden("u2"));
}

#[test]
fn visibility_out_of_range_changes_nothing() {
    let mut s = listed_state();
    match s.handle_menu_event("vis-9") {
        MenuAction::VisibilityToggled { window, hidden } => {
            assert!(window.is_none());
            assert!(!hidden);
        }
        _ => panic!("unexpected action"),
    }
    assert!(!s.is_hidden("u1") && !s.is_hidden("u2") && !s.is_hidden("u3"));
}

#[test]
fn other_entries() {
    let mut s = OverlayState::default();
    assert!(matches!(s.handle_menu_event("show"), MenuAction::ShowChat));
    assert!(matches!(s.handle_menu_event("quit"), MenuAction::Quit));
    assert!(matches!(s.handle_menu_event("nothing"), MenuAction::Ignored));
}

#[test]
fn tray_menu_lists_labelled_users_only() {
    let mut s = OverlayState::default();
    s.update_overlay_users(strings(&["u1", "u2", "u3"]), strings(&["Ann"]));
    let items = s.tray_menu().visibility.unwrap();
    assert_eq!(items.len(), 1);
    assert_eq!(items[0].label, "Ann");
    let mut t = OverlayState::default();
    t.update_overlay_users(strings(&["u1"]), Vec::new());
    assert_eq!(t.tray_menu().visibility.unwrap().len(), 0);
}

#[test]
fn updating_users_keeps_only_listed_hidden() {
    let mut s = listed_state();
    s.handle_menu_event("vis-0");
    s.handle_menu_event("vis-2");
    assert!(s.is_hidden("u1") && s.is_hidden("u3"));
    assert!(!s.update_overlay_users(strings(&["u1", "u2", "u3"]), strings(&["Ann", "Bob", "Cid"])));
    assert!(s.is_hidden("u1") && s.is_hidden("u3"));
    assert!(s.update_overlay_users(strings(&["u3", "u4"]), strings(&["Cid", "Dan"])));
    assert!(!s.is_hidden("u1"));
    assert!(s.is_hidden("u3"));
    assert_eq!(s.tray_user_ids(), strings(&["u3", "u4"]));
    assert_eq!(s.tray_user_labels(), strings(&["Cid", "Dan"]));
    assert!(s.update_overlay_users(strings(&["u3", "u4"]), strings(&["Cid", "Dana"])));
    assert!(!s.update_overlay_users(strings(&["u3", "u4"]), strings(&["Cid", "Dana"])));
}

#[test]
fn leave_forgets_everyone() {
    let mut s = listed_state();
    s.sync_char_windows(strings(&["u1", "u2"]), "[]".to_string());
    s.handle_menu_event("vis-0");
    match s.handle_menu_event("leave") {
        MenuAction::Left { destroyed } => assert_eq!(destroyed, strings(&["char_u1", "char_u2"])),
        _ => panic!("unexpected action"),
    }
    assert!(s.char_user_ids().is_empty());
    assert!(s.tray_user_ids().is_empty());
    assert!(s.tray_user_labels().is_empty());
    assert!(!s.is_hidden("u1"));
    assert!(s.tray_menu().visibility.is_none());
    assert!(s.leave_overlay().is_empty());
}

#[test]
fn destroy_and_labels() {
    let mut s = OverlayState::default();
    s.sync_char_windows(strings(&["a", "b"]), "[]".to_string());
    assert_eq!(s.char_window_labels(), strings(&["char_a", "char_b"]));
    assert_eq!(s.destroy_char_windows(), strings(&["char_a", "char_b"]));
    assert!(s.char_user_ids().is_empty());
    assert!(s.char_window_labels().is_empty());
}

const USERS: &str = r#"[{"userId":"u1","nickname":"닉네임A","character":"dog"},{"userId":"u2","nickname":"B"},{"nickname":"noid"},{"userId":7}]"#;

#[test]
fn users_json_is_stored_and_read() {
    let mut s = OverlayState::default();
    s.store_users_json(USERS.to_string());
    assert_eq!(s.get_users_json(), USERS);
}

#[test]
fn user_for_window_finds_the_user() {
    let mut s = OverlayState::default();
    s.store_users_json(USERS.to_string());
    assert_eq!(s.get_user_for_window("char_u2"), r#"{"nickname":"B","userId":"u2"}"#);
    assert_eq!(
        s.get_user_for_window("char_u1"),
        r#"{"character":"dog","nickname":"닉네임A","userId":"u1"}"#
    );
    assert_eq!(s.get_user_for_window("u2"), r#"{"nickname":"B","userId":"u2"}"#);
    assert_eq!(s.get_user_for_window("char_char_u2"), r#"{"nickname":"B","userId":"u2"}"#);
    assert_eq!(s.get_user_for_window("char_u9"), "null");
    assert_eq!(s.get_user_for_window("char_7"), "null");
}

#[test]
fn user_for_window_with_bad_json() {
    let mut s = OverlayState::default();
    s.store_users_json("not json".to_string());
    assert_eq!(s.get_user_for_window("char_u1"), "null");
    s.store_users_json("{\"userId\":\"u1\"}".to_string());
    assert_eq!(s.get_user_for_window("char_u1"), "null");
}

#[test]
fn parse_and_find_users() {
    let records = parse_users(USERS, "userId").unwrap();
    assert_eq!(records.len(), 4);
    assert_eq!(records[0].user_id.as_deref(), Some("u1"));
    assert_eq!(records[2].user_id, None);
    assert_eq!(records[3].user_id, None);
    assert_eq!(records[3].json, r#"{"userId":7}"#);
    assert_eq!(find_user_json(&records, "u2"), r#"{"nickname":"B","userId":"u2"}"#);
    assert_eq!(find_user_json(&records, "zz"), "null");
    assert!(parse_users("", "userId").is_none());
    assert!(parse_users("{\"userId\":\"u1\"}", "userId").is_none());
    assert!(parse_users("[]", "userId").unwrap().is_empty());
    let by_nick = parse_users(USERS, "nickname").unwrap();
    assert_eq!(by_nick[0].user_id.as_deref(), Some("닉네임A"));
    assert_eq!(by_nick[3].user_id, None);
    assert!(read_users("not json").is_empty());
    assert_eq!(read_users(USERS).len(), 4);
    assert_eq!(read_users(USERS)[1].user_id.as_deref(), Some("u2"));
}

#[test]
fn sync_plans_new_and_departed_windows() {
    let mut s = OverlayState::default();
    s.update_overlay_users(strings(&["u1", "u2", "u3"]), strings(&["A", "B", "C"]));
    s.handle_menu_event("vis-1");
    let first = s.sync_char_windows(strings(&["u1", "u2"]), USERS.to_string());
    assert!(first.destroy.is_empty());
    assert_eq!(first.create.len(), 2);
    let w0 = &first.create[0];
    assert_eq!(w0.index, 0);
    assert_eq!(w0.user_id, "u1");
    assert_eq!(w0.label, "char_u1");
    assert!(w0.visible);
    let esc = r#"{"character":"dog","nickname":"\uB2C9\uB124\uC784A","userId":"u1"}"#;
    assert_eq!(w0.init_script, format!("window.__TAURI_CHAR_USER__={};", esc));
    assert_eq!(
        w0.url,
        "char.html?u=%7B%22character%22%3A%22dog%22%2C%22nickname%22%3A%22%5CuB2C9%5CuB124%5CuC784A%22%2C%22userId%22%3A%22u1%22%7D"
    );
    assert!(!first.create[1].visible);
    assert_eq!(s.get_users_json(), USERS);
    assert_eq!(s.char_user_ids(), strings(&["u1", "u2"]));

    let second = s.sync_char_windows(strings(&["u2", "u3", "u9"]), USERS.to_string());
    assert_eq!(second.destroy, strings(&["char_u1"]));
    assert_eq!(second.create.len(), 2);
    assert_eq!(second.create[0].index, 1);
    assert_eq!(second.create[0].user_id, "u3");
    assert_eq!(second.create[0].init_script, "window.__TAURI_CHAR_USER__=null;");
    assert_eq!(second.create[0].url, "char.html?u=null");
    assert_eq!(second.create[1].index, 2);
    assert_eq!(second.create[1].user_id, "u9");
    assert_eq!(s.char_user_ids(), strings(&["u2", "u3", "u9"]));
}

#[test]
fn plan_directly() {
    let records = read_users(USERS);
    let plan = plan_char_windows(&strings(&["u1", "x"]), &strings(&["u2"]), &strings(&["u2", "u1"]), &records);
    assert_eq!(plan.destroy, strings(&["char_x"]));
    assert_eq!(plan.create.len(), 1);
    assert_eq!(plan.create[0].index, 0);
    assert!(!plan.create[0].visible);
    assert_eq!(plan.create[0].init_script, r#"window.__TAURI_CHAR_USER__={"nickname":"B","userId":"u2"};"#);
}

#[test]
fn created_window_finds_its_user() {
    let mut s = OverlayState::default();
    let plan = s.sync_char_windows(strings(&["u2"]), USERS.to_string());
    let w = &plan.create[0];
    let data = s.get_user_for_window(&w.label);
    assert_eq!(w.init_script, format!("window.__TAURI_CHAR_USER__={};", together::escape::unicode_escape_json(&data)));
}

#[test]
fn sync_with_bad_json_gives_null_users() {
    let mut s = OverlayState::default();
    let plan = s.sync_char_windows(strings(&["u1"]), "oops".to_string());
    assert_eq!(plan.create.len(), 1);
    assert_eq!(plan.create[0].init_script, "window.__TAURI_CHAR_USER__=null;");
    assert_eq!(s.get_user_for_window("char_u1"), "null");
}
