use pinch::config::{PinchConfig, ProcessConfig};
use pinch::dashboard::DashboardState;
use pinch::inputs::{
    encode_key, handle_key, handle_mouse, KeyCode, KeyEvent, KeyEventKind, KeyModifiers, MouseButton, MouseEvent,
    MouseEventKind, UserAction,
};
use pinch::layouts::{PaneGeometry, PaneTarget, Rect};
use pinch::panes::{LogMode, ProcessState, Tone};
use pinch::runners::RunMode;
use pinch::schema::PaneMode;

fn key(code: KeyCode) -> KeyEvent {
    KeyEvent::new(code, KeyModifiers::none())
}

fn key_mod(code: KeyCode, shift: bool, control: bool, alt: bool) -> KeyEvent {
    KeyEvent::new(code, KeyModifiers { shift, control, alt })
}

fn ctrl(code: KeyCode) -> KeyEvent {
    key_mod(code, false, true, false)
}

#[test]
fn plain_chars_are_utf8_encoded() {
    assert_eq!(encode_key(key(KeyCode::Char('a')), false), b"a");
    assert_eq!(encode_key(key(KeyCode::Char('é')), false), "é".as_bytes());
    assert_eq!(encode_key(key(KeyCode::Char('€')), false), "€".as_bytes());
}

#[test]
fn control_chars_map_to_c0_codes() {
    assert_eq!(encode_key(ctrl(KeyCode::Char('c')), false), vec![0x03]);
    assert_eq!(encode_key(ctrl(KeyCode::Char('Z')), false), vec![0x1a]);
    assert_eq!(encode_key(ctrl(KeyCode::Char('[')), false), vec![0x1b]);
}

#[test]
fn backspace_is_del_and_editing_keys_are_forwarded() {
    assert_eq!(encode_key(key(KeyCode::Backspace), false), vec![0x7f]);
    assert_eq!(encode_key(key(KeyCode::Delete), false), b"\x1b[3~");
    assert_eq!(encode_key(key(KeyCode::Home), false), b"\x1b[H");
    assert_eq!(encode_key(key(KeyCode::End), false), b"\x1b[F");
    assert_eq!(encode_key(key(KeyCode::PageUp), false), b"\x1b[5~");
    assert_eq!(encode_key(key(KeyCode::PageDown), false), b"\x1b[6~");
    assert_eq!(encode_key(key(KeyCode::Insert), false), b"\x1b[2~");
    assert_eq!(encode_key(key(KeyCode::BackTab), false), b"\x1b[Z");
}

#[test]
fn function_keys() {
    assert_eq!(encode_key(key(KeyCode::F(1)), false), b"\x1bOP");
    assert_eq!(encode_key(key(KeyCode::F(4)), false), b"\x1bOS");
    assert_eq!(encode_key(key(KeyCode::F(5)), false), b"\x1b[15~");
    assert_eq!(encode_key(key(KeyCode::F(12)), false), b"\x1b[24~");
}

#[test]
fn cursor_keys_honour_application_mode_and_modifiers() {
    assert_eq!(encode_key(key(KeyCode::Up), false), b"\x1b[A");
    assert_eq!(encode_key(key(KeyCode::Up), true), b"\x1bOA");
    assert_eq!(encode_key(key_mod(KeyCode::Right, false, true, false), false), b"\x1b[1;5C");
    assert_eq!(encode_key(key_mod(KeyCode::Left, true, false, true), true), b"\x1b[1;4D");
}

#[test]
fn alt_char_is_escape_prefixed() {
    assert_eq!(encode_key(key_mod(KeyCode::Char('x'), false, false, true), false), b"\x1bx");
}

#[test]
fn modified_function_and_tilde_keys_carry_the_parameter() {
    assert_eq!(encode_key(key_mod(KeyCode::F(2), true, false, false), false), b"\x1b[1;2Q");
    assert_eq!(encode_key(key_mod(KeyCode::Delete, false, true, false), false), b"\x1b[3;5~");
    assert_eq!(encode_key(key(KeyCode::F(13)), false), b"");
    assert_eq!(encode_key(key(KeyCode::Other), false), b"");
    assert_eq!(encode_key(ctrl(KeyCode::Char('?')), false), vec![0x7f]);
    assert_eq!(encode_key(ctrl(KeyCode::Char('é')), false), "é".as_bytes());
    assert_eq!(encode_key(key_mod(KeyCode::Enter, false, false, true), false), b"\x1b\r");
}

fn cfg(name: &str, mode: PaneMode) -> ProcessConfig {
    ProcessConfig {
        name: name.into(),
        title: name.into(),
        cmd: vec!["true".into()],
        link: None,
        cwd: None,
        watch: vec![],
        watch_settle_time_ms: 800,
        mode,
        auto_start: false,
        auto_restart: false,
        grace_period: 0,
        run_mode: RunMode::Exec,
    }
}

fn dashboard(modes: &[PaneMode]) -> DashboardState<String> {
    let processes = modes.iter().enumerate().map(|(i, m)| cfg(&format!("p{i}"), *m)).collect();
    DashboardState::new(PinchConfig { title: "t".into(), processes, logs_max_size: None, layout: vec![] })
}

#[test]
fn control_q_quits_and_control_a_toggles_the_combined_view() {
    let mut s = dashboard(&[PaneMode::Log]);
    let r = handle_key(&mut s, ctrl(KeyCode::Char('a')), false);
    assert_eq!(r.action, UserAction::NoAction);
    assert!(s.show_combined_logs);
    handle_key(&mut s, ctrl(KeyCode::Char('q')), false);
    assert!(s.should_quit);
}

#[test]
fn control_a_twice_returns_to_the_grid() {
    let mut s = dashboard(&[PaneMode::Log, PaneMode::Log]);
    handle_key(&mut s, key(KeyCode::Tab), false);
    handle_key(&mut s, ctrl(KeyCode::Char('a')), false);
    assert!(s.show_combined_logs);
    handle_key(&mut s, ctrl(KeyCode::Char('a')), false);
    assert!(!s.show_combined_logs);
    assert!(!s.should_quit);
    assert!(!s.show_combined_prefixes);
}

#[test]
fn releases_are_ignored() {
    let mut s = dashboard(&[PaneMode::Log]);
    let mut k = key(KeyCode::Char('s'));
    k.kind = KeyEventKind::Release;
    let r = handle_key(&mut s, k, false);
    assert_eq!(r.action, UserAction::NoAction);
}

#[test]
fn s_starts_a_stopped_process_and_stops_a_running_one() {
    let mut s = dashboard(&[PaneMode::Log]);
    assert_eq!(handle_key(&mut s, key(KeyCode::Char('s')), false).action, UserAction::StartProcess(0));
    s.panes[0].state = ProcessState::Running;
    assert_eq!(handle_key(&mut s, key(KeyCode::Char('s')), false).action, UserAction::StopProcess(0));
    assert_eq!(handle_key(&mut s, key(KeyCode::Char('r')), false).action, UserAction::RestartProcess(0));
    assert_eq!(handle_key(&mut s, key(KeyCode::Char('z')), false).action, UserAction::ToggleZoom(0));
    assert_eq!(handle_key(&mut s, key(KeyCode::Tab), false).action, UserAction::NextTab);
}

#[test]
fn control_l_clears_a_log_pane_and_leaves_a_notice() {
    let mut s = dashboard(&[PaneMode::Log]);
    s.panes[0].add_line("old".to_string());
    let r = handle_key(&mut s, ctrl(KeyCode::Char('l')), false);
    assert!(s.panes[0].logs.is_empty());
    let n = r.notice.expect("notice");
    assert_eq!(n.text, "LOG BUFFER CLEARED");
    assert_eq!(n.tone, Tone::DarkGray);
    assert_eq!(n.pane, 0);
}

#[test]
fn h_and_l_scroll_horizontally_only_when_truncating() {
    let mut s = dashboard(&[PaneMode::Log]);
    handle_key(&mut s, key(KeyCode::Char('l')), false);
    handle_key(&mut s, key(KeyCode::Right), false);
    assert_eq!(s.panes[0].horizontal_scroll, 8);
    handle_key(&mut s, key(KeyCode::Char('h')), false);
    assert_eq!(s.panes[0].horizontal_scroll, 4);
    handle_key(&mut s, key(KeyCode::Char('w')), false);
    assert_eq!(s.panes[0].log_mode, LogMode::Wrap);
    handle_key(&mut s, key(KeyCode::Char('h')), false);
    assert_eq!(s.panes[0].horizontal_scroll, 4);
}

#[test]
fn a_focused_tui_pane_gets_the_keys() {
    let mut s = dashboard(&[PaneMode::Tui]);
    let r = handle_key(&mut s, key(KeyCode::Char('s')), false);
    assert_eq!(r.action, UserAction::NoAction);
    assert_eq!(r.forward, Some(b"s".to_vec()));
    let r = handle_key(&mut s, ctrl(KeyCode::Char('x')), false);
    assert!(r.forward.is_none());
    assert!(!s.panes[0].tui_focused);
    assert_eq!(handle_key(&mut s, key(KeyCode::Char('s')), false).action, UserAction::StartProcess(0));
    handle_key(&mut s, key(KeyCode::Enter), false);
    assert!(s.panes[0].tui_focused);
}

#[test]
fn combined_view_keys_scroll_the_combined_log() {
    let mut s = dashboard(&[PaneMode::Log]);
    for i in 0..50 {
        s.add_global_line(0, format!("{i}"));
    }
    s.show_combined_logs = true;
    handle_key(&mut s, key(KeyCode::PageUp), false);
    assert_eq!(s.global_view_top, Some(16));
    handle_key(&mut s, key(KeyCode::Char('j')), false);
    assert_eq!(s.global_view_top, Some(17));
    handle_key(&mut s, key(KeyCode::Enter), false);
    assert_eq!(s.global_view_top, None);
    handle_key(&mut s, key(KeyCode::Char('p')), false);
    assert!(s.show_combined_prefixes);
}

#[test]
fn keys_use_the_inner_height_of_the_focused_pane() {
    let mut s = dashboard(&[PaneMode::Log]);
    for i in 0..40 {
        s.panes[0].add_line(format!("{i}"));
    }
    s.cached_geometries = vec![PaneGeometry::new(PaneTarget::Process(0), Rect::new(0, 0, 20, 12))];
    handle_key(&mut s, key(KeyCode::Up), false);
    assert_eq!(s.panes[0].view_top_index, Some(29));
}

fn click(x: u16, y: u16) -> MouseEvent {
    MouseEvent { kind: MouseEventKind::Down(MouseButton::Left), column: x, row: y }
}

#[test]
fn clicking_title_bar_buttons() {
    let mut s = dashboard(&[PaneMode::Log, PaneMode::Log]);
    s.cached_geometries = vec![
        PaneGeometry::new(PaneTarget::Process(0), Rect::new(0, 0, 40, 10)),
        PaneGeometry::new(PaneTarget::Process(1), Rect::new(40, 0, 40, 10)),
    ];
    assert_eq!(handle_mouse(&mut s, click(42, 0)), UserAction::StartProcess(1));
    assert_eq!(s.focused_pane, 1);
    assert_eq!(handle_mouse(&mut s, click(45, 0)), UserAction::RestartProcess(1));
    assert_eq!(handle_mouse(&mut s, click(49, 0)), UserAction::NoAction);
    assert_eq!(s.panes[1].log_mode, LogMode::Wrap);
    assert_eq!(handle_mouse(&mut s, click(53, 0)), UserAction::ToggleZoom(1));
    assert_eq!(handle_mouse(&mut s, click(57, 0)), UserAction::OpenLink(1));
    assert_eq!(handle_mouse(&mut s, click(5, 3)), UserAction::NoAction);
    assert_eq!(s.focused_pane, 0);
}

#[test]
fn wheel_scrolls_the_pane_under_the_cursor() {
    let mut s = dashboard(&[PaneMode::Log]);
    for i in 0..30 {
        s.panes[0].add_line(format!("{i}"));
    }
    s.cached_geometries = vec![PaneGeometry::new(PaneTarget::Process(0), Rect::new(0, 0, 40, 12))];
    let wheel = MouseEvent { kind: MouseEventKind::ScrollUp, column: 3, row: 3 };
    handle_mouse(&mut s, wheel);
    assert_eq!(s.panes[0].view_top_index, Some(18));
    s.show_combined_logs = true;
    handle_mouse(&mut s, wheel);
    assert_eq!(s.panes[0].view_top_index, Some(18));
}
