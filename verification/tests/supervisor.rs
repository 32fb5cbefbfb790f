use pinch::config::{PinchConfig, ProcessConfig};
use pinch::dashboard::DashboardState;
use pinch::inputs::UserAction;
use pinch::panes::{ProcessPane, ProcessState, Tone};
use pinch::runners::RunMode;
use pinch::schema::PaneMode;
use pinch::supervisor::{
    apply_action, auto_start_all, exited_pane, file_changed_pane, on_file_changed, on_process_exit, on_resize,
    on_restart_request, on_spawned, restart_pane, restart_requested_pane, spawned_pane, start_pane, stop_pane,
    Order, StartCause,
};

fn cfg(name: &str, auto_restart: bool, grace: u64) -> ProcessConfig {
    ProcessConfig {
        name: name.into(),
        title: name.into(),
        cmd: vec!["true".into()],
        link: None,
        cwd: None,
        watch: vec![],
        watch_settle_time_ms: 800,
        mode: PaneMode::Log,
        auto_start: true,
        auto_restart,
        grace_period: grace,
        run_mode: RunMode::Exec,
    }
}

fn pane(auto_restart: bool) -> ProcessPane<String> {
    ProcessPane::new(3, None, cfg("p", auto_restart, 1500))
}

fn texts(t: &pinch::supervisor::Transition) -> Vec<String> {
    t.notices.iter().map(|n| n.text.clone()).collect()
}

#[test]
fn start_spawns_unless_running() {
    let mut p = pane(true);
    p.view_top_index = Some(4);
    assert_eq!(start_pane(&mut p, StartCause::Manual), Order::Spawn(StartCause::Manual));
    assert_eq!(p.view_top_index, None);
    p.state = ProcessState::Running;
    assert_eq!(start_pane(&mut p, StartCause::Manual), Order::Idle);
}

#[test]
fn spawn_outcome_sets_the_state_and_message() {
    let mut p = pane(true);
    let n = spawned_pane(&mut p, Ok(()), StartCause::AutoRestart);
    assert_eq!(p.state, ProcessState::Running);
    assert_eq!(n.text, "AUTO-RESTARTED");
    assert_eq!(n.tone, Tone::Green);
    let n = spawned_pane(&mut p, Err("boom".to_string()), StartCause::Manual);
    assert_eq!(p.state, ProcessState::Stopped);
    assert_eq!(n.text, "boom");
    assert_eq!(n.tone, Tone::Red);
    assert_eq!(n.pane, 3);
}

#[test]
fn stopping_a_running_process_terminates_it() {
    let mut p = pane(true);
    p.state = ProcessState::Running;
    p.last_size = Some((80, 24));
    let t = stop_pane(&mut p);
    assert_eq!(t.order, Order::Terminate);
    assert_eq!(p.state, ProcessState::ManuallyStopped);
    assert_eq!(p.last_size, None);
    assert_eq!(texts(&t), vec!["STOP SIGNAL SENT (Ctrl+C)"]);
}

#[test]
fn stopping_cancels_a_pending_restart() {
    let mut p = pane(true);
    p.state = ProcessState::PendingAutoRestart;
    let t = stop_pane(&mut p);
    assert_eq!(t.order, Order::Idle);
    assert_eq!(texts(&t), vec!["PENDING RESTART CANCELLED"]);
    assert_eq!(restart_requested_pane(&mut p, true), Order::Idle);
    assert_eq!(p.state, ProcessState::ManuallyStopped);
}

#[test]
fn exit_of_a_running_process_schedules_its_restart() {
    let mut p = pane(true);
    p.state = ProcessState::Running;
    let t = exited_pane(&mut p, false);
    assert_eq!(t.order, Order::Restart { delay_ms: 1500, auto: true });
    assert_eq!(p.state, ProcessState::PendingAutoRestart);
    assert_eq!(texts(&t), vec!["CRASHED / FAILED (Restarting in 1500ms)"]);
    assert_eq!(t.notices[0].tone, Tone::Red);
    assert_eq!(restart_requested_pane(&mut p, true), Order::Spawn(StartCause::AutoRestart));
}

#[test]
fn exit_without_auto_restart_just_stops() {
    let mut p = pane(false);
    p.state = ProcessState::Running;
    let t = exited_pane(&mut p, true);
    assert_eq!(t.order, Order::Idle);
    assert_eq!(p.state, ProcessState::Stopped);
    assert_eq!(texts(&t), vec!["EXITED CLEANLY"]);
}

#[test]
fn restart_terminates_then_starts_again_on_exit() {
    let mut p = pane(true);
    p.state = ProcessState::Running;
    let t = restart_pane(&mut p);
    assert_eq!(t.order, Order::Terminate);
    assert_eq!(p.state, ProcessState::Restarting);
    let t = exited_pane(&mut p, false);
    assert_eq!(t.order, Order::Restart { delay_ms: 0, auto: false });
    assert!(t.notices.is_empty());
    assert_eq!(restart_requested_pane(&mut p, false), Order::Spawn(StartCause::Manual));
}

#[test]
fn exits_that_were_not_expected_are_ignored() {
    let mut p = pane(true);
    p.state = ProcessState::ManuallyStopped;
    let t = exited_pane(&mut p, true);
    assert_eq!(t.order, Order::Idle);
    assert!(t.notices.is_empty());
    assert_eq!(p.state, ProcessState::ManuallyStopped);
}

#[test]
fn file_change_respects_a_manual_stop() {
    let mut p = pane(true);
    p.state = ProcessState::ManuallyStopped;
    let t = file_changed_pane(&mut p);
    assert_eq!(t.order, Order::Idle);
    assert!(t.notices.is_empty());
    p.state = ProcessState::Running;
    let t = file_changed_pane(&mut p);
    assert_eq!(t.order, Order::Terminate);
    assert_eq!(texts(&t), vec!["FILE CHANGED - RESTARTING", "RESTARTING"]);
    p.state = ProcessState::Stopped;
    let t = file_changed_pane(&mut p);
    assert_eq!(t.order, Order::Spawn(StartCause::Manual));
    assert_eq!(texts(&t), vec!["FILE CHANGED - RESTARTING"]);
}

fn dashboard(n: usize) -> DashboardState<String> {
    let processes = (0..n).map(|i| cfg(&format!("p{i}"), true, 10)).collect();
    DashboardState::new(PinchConfig { title: "t".into(), processes, logs_max_size: Some(100), layout: vec![] })
}

#[test]
fn dashboard_dispatches_by_process_id() {
    let mut s = dashboard(3);
    let t = apply_action(&mut s, UserAction::StartProcess(2));
    assert_eq!(t.order, Order::Spawn(StartCause::Manual));
    let n = on_spawned(&mut s, 2, Ok(()), StartCause::Manual).unwrap();
    assert_eq!(n.text, "PROCESS STARTED");
    assert_eq!(s.panes[2].state, ProcessState::Running);
    let t = on_process_exit(&mut s, 2, true);
    assert_eq!(t.order, Order::Restart { delay_ms: 10, auto: true });
    assert_eq!(on_restart_request(&mut s, 2, true), Order::Spawn(StartCause::AutoRestart));
    let t = on_file_changed(&mut s, 7);
    assert_eq!(t.order, Order::Idle);
    assert!(on_spawned(&mut s, 9, Ok(()), StartCause::Manual).is_none());
}

#[test]
fn next_tab_cycles_and_zoom_toggles() {
    let mut s = dashboard(2);
    apply_action(&mut s, UserAction::NextTab);
    assert_eq!(s.focused_pane, 1);
    apply_action(&mut s, UserAction::NextTab);
    assert_eq!(s.focused_pane, 0);
    s.layout_dirty = false;
    apply_action(&mut s, UserAction::ToggleZoom(1));
    assert_eq!(s.zoomed_pane, Some(1));
    assert!(s.layout_dirty);
    apply_action(&mut s, UserAction::ToggleZoom(1));
    assert_eq!(s.zoomed_pane, None);
}

#[test]
fn auto_start_lists_the_processes_to_spawn() {
    let mut s = dashboard(2);
    s.panes[1].config.auto_start = false;
    assert_eq!(auto_start_all(&mut s), vec![0]);
}

#[test]
fn resize_sets_the_combined_log_height() {
    let mut s = dashboard(1);
    s.layout_dirty = false;
    on_resize(&mut s, 30);
    assert_eq!(s.global_area_height, 26);
    assert!(s.layout_dirty);
    on_resize(&mut s, 2);
    assert_eq!(s.global_area_height, 0);
}

#[test]
fn pane_lines_go_to_the_first_pane_of_the_process() {
    let config = PinchConfig {
        title: "t".into(),
        processes: vec![cfg("a", true, 0), cfg("b", true, 0)],
        logs_max_size: Some(2),
        layout: vec![],
    };
    let mut s: DashboardState<String> = DashboardState::new(config);
    pinch::supervisor::on_pane_line(&mut s, 1, "x".to_string());
    pinch::supervisor::on_pane_line(&mut s, 1, "y".to_string());
    pinch::supervisor::on_pane_line(&mut s, 1, "z".to_string());
    pinch::supervisor::on_pane_line(&mut s, 7, "lost".to_string());
    assert!(s.panes[0].logs.is_empty());
    assert_eq!(s.panes[1].logs.iter().cloned().collect::<Vec<_>>(), vec!["y", "z"]);
    assert!(s.combined_logs.is_empty());
}
