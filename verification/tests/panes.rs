use pinch::config::ProcessConfig;
use pinch::panes::{system_log_line, LogMode, ProcessPane, ProcessState};
use pinch::runners::RunMode;
use pinch::schema::PaneMode;

fn cfg() -> ProcessConfig {
    ProcessConfig {
        name: "p".into(),
        title: "p".into(),
        cmd: vec!["true".into()],
        link: None,
        cwd: None,
        watch: vec![],
        watch_settle_time_ms: 800,
        mode: PaneMode::Log,
        auto_start: false,
        auto_restart: false,
        grace_period: 0,
        run_mode: RunMode::Exec,
    }
}

fn pane(max: Option<usize>) -> ProcessPane<String> {
    ProcessPane::new(0, max, cfg())
}

fn text(p: &ProcessPane<String>, idx: usize) -> String {
    p.logs[idx].clone()
}

#[test]
fn scrolled_view_stays_anchored_when_buffer_is_full() {
    let mut p = pane(Some(3));
    for i in 0..3 {
        p.add_line(format!("l{i}"));
    }
    p.view_top_index = Some(1);
    p.add_line("l3".to_string());
    assert_eq!(p.logs.len(), 3);
    assert_eq!(p.view_top_index, Some(0));
    assert_eq!(text(&p, 0), "l1");
}

#[test]
fn tail_view_is_unaffected_by_eviction() {
    let mut p = pane(Some(2));
    p.add_line("a".to_string());
    p.add_line("b".to_string());
    p.add_line("c".to_string());
    assert_eq!(p.view_top_index, None);
    assert_eq!(text(&p, 0), "b");
}

#[test]
fn unbounded_buffer_never_evicts() {
    let mut p = pane(None);
    for i in 0..100 {
        p.add_line(format!("{i}"));
    }
    assert_eq!(p.logs.len(), 100);
}

#[test]
fn new_pane_is_stopped_empty_and_following() {
    let p = pane(Some(5));
    assert_eq!(p.state, ProcessState::Stopped);
    assert!(p.logs.is_empty());
    assert_eq!(p.view_top_index, None);
    assert_eq!(p.log_mode, LogMode::Truncate);
    assert!(p.tui_focused);
    assert_eq!(p.last_size, None);
}

#[test]
fn scrolling_up_then_down_returns_to_the_tail() {
    let mut p = pane(None);
    for i in 0..30 {
        p.add_line(format!("{i}"));
    }
    p.scroll_up(5, 10);
    assert_eq!(p.view_top_index, Some(15));
    p.scroll_up(100, 10);
    assert_eq!(p.view_top_index, Some(0));
    p.scroll_down(3, 10);
    assert_eq!(p.view_top_index, Some(3));
    p.scroll_down(17, 10);
    assert_eq!(p.view_top_index, None);
}

#[test]
fn scrolling_down_while_following_does_nothing() {
    let mut p = pane(None);
    p.add_line("x".to_string());
    p.scroll_down(10, 5);
    assert_eq!(p.view_top_index, None);
}

#[test]
fn clearing_resets_logs_and_scroll() {
    let mut p = pane(None);
    p.add_line("x".to_string());
    p.view_top_index = Some(0);
    p.horizontal_scroll = 8;
    p.clear_logs();
    assert!(p.logs.is_empty());
    assert_eq!(p.view_top_index, None);
    assert_eq!(p.horizontal_scroll, 0);
}

#[test]
fn toggling_wrap_twice_restores_the_mode() {
    let mut p = pane(None);
    p.toggle_wrap();
    assert_eq!(p.log_mode, LogMode::Wrap);
    p.toggle_wrap();
    assert_eq!(p.log_mode, LogMode::Truncate);
}

#[test]
fn system_messages_are_framed() {
    assert_eq!(system_log_line("PROCESS STARTED"), ":: PROCESS STARTED ::");
}

#[test]
fn bound_of_zero_keeps_nothing() {
    let mut p = pane(Some(0));
    p.add_line("x".to_string());
    assert!(p.logs.is_empty());
}
