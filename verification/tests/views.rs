use pinch::config::{PinchConfig, ProcessConfig};
use pinch::dashboard::DashboardState;
use pinch::panes::{LogMode, ProcessState};
use pinch::runners::RunMode;
use pinch::schema::PaneMode;
use pinch::views::{combined_prefix, combined_tag_hue, combined_title, footer_help, header_text, pane_chrome, Hue};
use pinch::layouts::Viewport;

fn cfg(name: &str, mode: PaneMode) -> ProcessConfig {
    ProcessConfig {
        name: name.into(),
        title: name.into(),
        cmd: vec!["true".into()],
        link: None,
        cwd: None,
        watch: vec![],
        watch_settle_time_ms: 800,
        mode,
        auto_start: false,
        auto_restart: false,
        grace_period: 0,
        run_mode: RunMode::Exec,
    }
}

fn dashboard() -> DashboardState<String> {
    DashboardState::new(PinchConfig {
        title: "demo".into(),
        processes: vec![cfg("api", PaneMode::Log), cfg("database", PaneMode::Tui)],
        logs_max_size: None,
        layout: vec![],
    })
}

fn span_texts(c: &pinch::views::PaneChrome) -> Vec<String> {
    c.spans.iter().map(|s| s.text.clone()).collect()
}

#[test]
fn title_bar_of_a_stopped_log_pane() {
    let s = dashboard();
    let c = pane_chrome(&s, 0, 12).unwrap();
    assert!(c.focused);
    assert!(!c.zoomed);
    assert_eq!(span_texts(&c), vec![" [▶]", " [↺]", " [↩]", " [⤢]", " [", "STOPPED", "]", "", "", " api"]);
    assert_eq!(c.spans[5].hue, Some(Hue::LightRed));
}

#[test]
fn title_bar_shows_scroll_wrap_and_shift() {
    let mut s = dashboard();
    for i in 0..30 {
        s.panes[0].add_line(format!("{i}"));
    }
    s.panes[0].view_top_index = Some(5);
    s.panes[0].horizontal_scroll = 8;
    s.panes[0].state = ProcessState::Running;
    let c = pane_chrome(&s, 0, 12).unwrap();
    let t = span_texts(&c);
    assert_eq!(t[0], " [■]");
    assert_eq!(t[5], "RUNNING");
    assert_eq!(t[7], " [↕ 15]");
    assert_eq!(t[8], " [↔ 8]");
    assert_eq!((c.window.start, c.window.end), (5, 15));
    s.panes[0].log_mode = LogMode::Wrap;
    let c = pane_chrome(&s, 0, 12).unwrap();
    assert_eq!(span_texts(&c)[8], " [WRAP]");
}

#[test]
fn title_bar_of_a_tui_pane() {
    let mut s = dashboard();
    let c = pane_chrome(&s, 1, 12).unwrap();
    assert!(!c.focused);
    assert_eq!(span_texts(&c)[7], " [TUI ⌨ ^X]");
    assert!(c.spans[7].bold);
    s.panes[1].tui_focused = false;
    s.zoomed_pane = Some(1);
    let c = pane_chrome(&s, 1, 12).unwrap();
    assert_eq!(span_texts(&c)[7], " [TUI ⊘ ↵]");
    assert!(c.zoomed);
    assert!(pane_chrome(&s, 5, 12).is_none());
}

#[test]
fn combined_prefixes_are_padded_to_the_longest_title() {
    let s = dashboard();
    assert_eq!(combined_prefix(&s, 0), "[     api] ");
    assert_eq!(combined_prefix(&s, 1), "[database] ");
    assert_eq!(combined_prefix(&s, 9), "[       ?] ");
    assert_eq!(combined_tag_hue(0), Hue::Cyan);
    assert_eq!(combined_tag_hue(7), Hue::Green);
}

#[test]
fn combined_title_counts_lines_below_the_view() {
    let v = Viewport::visible_range(100, 10, Some(20));
    assert_eq!(combined_title(100, v), " Combined Logs [SCROLLED: +70] ");
    let v = Viewport::visible_range(100, 10, None);
    assert_eq!(combined_title(100, v), " Combined Logs ");
}

#[test]
fn header_and_footer_texts() {
    assert_eq!(header_text("demo"), " demo ");
    assert!(footer_help(true).contains("[p] Prefixes"));
    assert!(footer_help(false).contains("[^Q] Quit"));
}
