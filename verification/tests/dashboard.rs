use pinch::config::{PinchConfig, ProcessConfig};
use pinch::dashboard::DashboardState;
use pinch::inputs::{key_has_room, mouse_has_room, KeyCode, KeyEvent, KeyModifiers, MouseEvent, MouseEventKind};
use pinch::runners::RunMode;
use pinch::schema::PaneMode;

fn cfg(name: &str) -> ProcessConfig {
    ProcessConfig {
        name: name.into(),
        title: name.into(),
        cmd: vec!["true".into()],
        link: None,
        cwd: None,
        watch: vec![],
        watch_settle_time_ms: 800,
        mode: PaneMode::Log,
        auto_start: false,
        auto_restart: false,
        grace_period: 0,
        run_mode: RunMode::Exec,
    }
}

fn dashboard(n: usize, max: Option<usize>) -> DashboardState<String> {
    let processes = (0..n).map(|i| cfg(&format!("p{i}"))).collect();
    DashboardState::new(PinchConfig { title: "demo".into(), processes, logs_max_size: max, layout: vec![] })
}

#[test]
fn new_dashboard_has_one_pane_per_process() {
    let s = dashboard(3, Some(7));
    assert_eq!(s.title, "demo");
    assert_eq!(s.panes.len(), 3);
    for (i, p) in s.panes.iter().enumerate() {
        assert_eq!(p.id, i);
        assert_eq!(p.logs_max_size, Some(7));
        assert_eq!(p.config.name, format!("p{i}"));
    }
    assert_eq!(s.global_area_height, 24);
    assert!(s.layout_dirty);
}

#[test]
fn combined_log_is_bounded_and_keeps_a_scrolled_view_anchored() {
    let mut s = dashboard(1, Some(3));
    for i in 0..3 {
        s.add_global_line(0, format!("l{i}"));
    }
    s.global_view_top = Some(2);
    s.add_global_line(0, "l3".to_string());
    assert_eq!(s.combined_logs.len(), 3);
    assert_eq!(s.global_view_top, Some(1));
    assert_eq!(s.combined_logs[0].1, "l1");
}

#[test]
fn sync_sizes_pane_terminals_once() {
    let mut s = dashboard(2, None);
    let resizes = s.sync_pty_sizes(100, 30).unwrap();
    assert_eq!(resizes, vec![(0, 48, 26), (1, 48, 26)]);
    assert!(!s.layout_dirty);
    assert_eq!(s.panes[0].last_size, Some((48, 26)));
    assert!(s.sync_pty_sizes(100, 30).unwrap().is_empty());
    s.zoomed_pane = Some(1);
    s.layout_dirty = true;
    assert_eq!(s.sync_pty_sizes(100, 30).unwrap(), vec![(1, 100, 26)]);
}

#[test]
fn sync_does_nothing_in_the_combined_view() {
    let mut s = dashboard(2, None);
    s.show_combined_logs = true;
    assert!(s.sync_pty_sizes(100, 30).unwrap().is_empty());
    assert!(s.layout_dirty);
}

#[test]
fn only_the_view_a_key_moves_down_needs_room() {
    let mut s = dashboard(1, None);
    s.panes[0].view_top_index = Some(usize::MAX - 3);
    let down = KeyEvent::new(KeyCode::Down, KeyModifiers::none());
    let page_down = KeyEvent::new(KeyCode::PageDown, KeyModifiers::none());
    let quit = KeyEvent::new(KeyCode::Char('q'), KeyModifiers { shift: false, control: true, alt: false });
    assert!(key_has_room(&s, down));
    assert!(!key_has_room(&s, page_down));
    assert!(key_has_room(&s, quit));
    s.show_combined_logs = true;
    assert!(key_has_room(&s, page_down));
    s.global_view_top = Some(usize::MAX);
    assert!(!key_has_room(&s, down));
    let wheel = MouseEvent { kind: MouseEventKind::ScrollDown, column: 1, row: 1 };
    assert!(mouse_has_room(&s, wheel));
}
