//! The supervisor's decisions: how a pane's process state moves on user
//! actions, exits, restart timers and file changes, and what the
//! supervisor is to do about it (spawn, terminate, schedule a restart).
use vstd::prelude::*;
use crate::dashboard::{focus_valid, pane_index, pane_views, DashView, DashboardState};
use crate::inputs::{pane_position, UserAction};
use crate::panes::{anchored_top, bounded_push, Notice, PaneView, ProcessPane, ProcessState, Tone};
use crate::text::{append_decimal, append_str, decimal_text, owned};

verus! {

/// Why a process is started.
#[derive(Debug, Clone, Copy, PartialEq, Eq, Structural)]
pub enum StartCause {
    /// Asked for by the user.
    Manual,
    /// Configured to start with the dashboard.
    AutoStart,
    /// Its restart timer fired after it exited.
    AutoRestart,
}

/// What the supervisor is to do for a pane.
#[derive(Debug, Clone, Copy, PartialEq, Eq, Structural)]
pub enum Order {
    /// Nothing.
    Idle,
    /// Spawn the pane's process.
    Spawn(StartCause),
    /// Terminate the pane's running process.
    Terminate,
    /// Ask for a restart of the pane after `delay_ms` milliseconds; `auto`
    /// marks an automatic restart, which is dropped if the pane is no longer
    /// waiting for it.
    Restart { delay_ms: u64, auto: bool },
}

/// A decision: the order and the messages for the pane's log.
pub struct Transition {
    pub order: Order,
    pub notices: Vec<Notice>,
}

impl View for Transition {
    type V = (Order, Seq<(usize, Seq<char>, Tone)>);

    open spec fn view(&self) -> (Order, Seq<(usize, Seq<char>, Tone)>) {
        (self.order, self.notices@.map_values(|n: Notice| n@))
    }
}

/// Messages with the identifier of their pane.
pub open spec fn for_pane(id: usize, msgs: Seq<(Seq<char>, Tone)>) -> Seq<(usize, Seq<char>, Tone)> {
    msgs.map_values(|m: (Seq<char>, Tone)| (id, m.0, m.1))
}

/// The message of a successful start.
pub open spec fn started_text(cause: StartCause) -> Seq<char> {
    match cause {
        StartCause::Manual => "PROCESS STARTED"@,
        StartCause::AutoStart => "AUTO-STARTED"@,
        StartCause::AutoRestart => "AUTO-RESTARTED"@,
    }
}

/// Starting a pane's process: unless it runs, it is spawned (a start the
/// user asked for also brings the view back to the tail of the log).
pub open spec fn start_outcome<L>(p: PaneView<L>, cause: StartCause) -> (PaneView<L>, Order) {
    if p.state != ProcessState::Running {
        (if cause == StartCause::Manual {
            PaneView { view_top_index: None, ..p }
        } else {
            p
        }, Order::Spawn(cause))
    } else {
        (p, Order::Idle)
    }
}

/// After a spawn: running on success, stopped with the error otherwise.
pub open spec fn spawned_outcome<L>(p: PaneView<L>, outcome: Result<(), Seq<char>>, cause: StartCause) -> (
    PaneView<L>,
    (Seq<char>, Tone),
) {
    match outcome {
        Ok(()) => (PaneView { state: ProcessState::Running, ..p }, (started_text(cause), Tone::Green)),
        Err(e) => (PaneView { state: ProcessState::Stopped, ..p }, (e, Tone::Red)),
    }
}

/// Stopping: a running process is terminated and a pending restart is
/// cancelled; either way the pane is then manually stopped.
pub open spec fn stop_outcome<L>(p: PaneView<L>) -> (PaneView<L>, Order, Seq<(Seq<char>, Tone)>) {
    if p.state == ProcessState::Running {
        (
            PaneView { state: ProcessState::ManuallyStopped, last_size: None, ..p },
            Order::Terminate,
            seq![("STOP SIGNAL SENT (Ctrl+C)"@, Tone::Red)],
        )
    } else if p.state == ProcessState::PendingAutoRestart {
        (
            PaneView { state: ProcessState::ManuallyStopped, ..p },
            Order::Idle,
            seq![("PENDING RESTART CANCELLED"@, Tone::Red)],
        )
    } else {
        (p, Order::Idle, Seq::empty())
    }
}

/// Restarting: a running process is terminated (and started again when it
/// has exited); any other is started.
pub open spec fn restart_outcome<L>(p: PaneView<L>) -> (PaneView<L>, Order, Seq<(Seq<char>, Tone)>) {
    if p.state == ProcessState::Running {
        (
            PaneView { state: ProcessState::Restarting, last_size: None, ..p },
            Order::Terminate,
            seq![("RESTARTING"@, Tone::Yellow)],
        )
    } else {
        let (q, o) = start_outcome(p, StartCause::Manual);
        (q, o, Seq::empty())
    }
}

/// The message of an exit.
pub open spec fn exit_text(success: bool) -> Seq<char> {
    if success {
        "EXITED CLEANLY"@
    } else {
        "CRASHED / FAILED"@
    }
}

/// The message of an exit followed by an automatic restart.
pub open spec fn exit_restart_text(success: bool, grace: u64) -> Seq<char> {
    exit_text(success) + " (Restarting in "@ + decimal_text(grace as nat) + "ms)"@
}

/// The color of an exit message.
pub open spec fn exit_tone(success: bool) -> Tone {
    if success {
        Tone::Green
    } else {
        Tone::Red
    }
}

/// A process exit. It is ignored when the pane was not expecting one;
/// otherwise the pane is stopped and: a restarting process starts again at
/// once; a running one configured to restart waits for its grace period; any
/// other stays stopped.
pub open spec fn exit_outcome<L>(p: PaneView<L>, success: bool) -> (PaneView<L>, Order, Seq<(Seq<char>, Tone)>) {
    if p.state == ProcessState::Stopped || p.state == ProcessState::PendingAutoRestart || p.state
        == ProcessState::ManuallyStopped {
        (p, Order::Idle, Seq::empty())
    } else {
        let q = PaneView { state: ProcessState::Stopped, last_size: None, ..p };
        if p.state == ProcessState::Restarting {
            (q, Order::Restart { delay_ms: 0, auto: false }, Seq::empty())
        } else if p.config.auto_restart && p.state == ProcessState::Running {
            (
                PaneView { state: ProcessState::PendingAutoRestart, ..q },
                Order::Restart { delay_ms: p.config.grace_period, auto: true },
                seq![(exit_restart_text(success, p.config.grace_period), exit_tone(success))],
            )
        } else {
            (q, Order::Idle, seq![(exit_text(success), exit_tone(success))])
        }
    }
}

/// A restart request coming back from a timer: an automatic one is dropped
/// unless the pane still waits for it.
pub open spec fn restart_request_outcome<L>(p: PaneView<L>, auto: bool) -> (PaneView<L>, Order) {
    if auto && p.state != ProcessState::PendingAutoRestart {
        (p, Order::Idle)
    } else {
        start_outcome(
            p,
            if auto {
                StartCause::AutoRestart
            } else {
                StartCause::Manual
            },
        )
    }
}

/// A change of a watched file: the process is restarted (a crashed one is
/// started again), but one that was stopped by hand stays stopped.
pub open spec fn file_changed_outcome<L>(p: PaneView<L>) -> (PaneView<L>, Order, Seq<(Seq<char>, Tone)>) {
    if p.state == ProcessState::ManuallyStopped {
        (p, Order::Idle, Seq::empty())
    } else {
        let (q, o, m) = restart_outcome(p);
        (q, o, seq![("FILE CHANGED - RESTARTING"@, Tone::Yellow)] + m)
    }
}

fn notice(pane: usize, text: &str, tone: Tone) -> (n: Notice)
    ensures
        n@ == (pane, text@, tone),
{
    Notice { pane, text: owned(text), tone }
}

fn one_notice(n: Notice) -> (v: Vec<Notice>)
    ensures
        v@.map_values(|x: Notice| x@) == seq![n@],
{
    let mut v: Vec<Notice> = Vec::new();
    v.push(n);
    assert(v@.map_values(|x: Notice| x@) =~= seq![n@]);
    v
}

fn no_notices() -> (v: Vec<Notice>)
    ensures
        v@.map_values(|x: Notice| x@) == Seq::<(usize, Seq<char>, Tone)>::empty(),
{
    let v: Vec<Notice> = Vec::new();
    assert(v@.map_values(|x: Notice| x@) =~= Seq::<(usize, Seq<char>, Tone)>::empty());
    v
}

/// Starts a pane's process unless it runs: gives the spawn order.
pub fn start_pane<L>(pane: &mut ProcessPane<L>, cause: StartCause) -> (o: Order)
    ensures
        (final(pane)@, o) == start_outcome(old(pane)@, cause),
{
    if pane.state != ProcessState::Running {
        if cause == StartCause::Manual {
            pane.view_top_index = None;
        }
        Order::Spawn(cause)
    } else {
        Order::Idle
    }
}

/// Records the outcome of a spawn; gives the message for the log.
pub fn spawned_pane<L>(pane: &mut ProcessPane<L>, outcome: Result<(), String>, cause: StartCause) -> (n: Notice)
    ensures
        final(pane)@ == spawned_outcome(
            old(pane)@,
            match outcome {
                Ok(()) => Ok(()),
                Err(e) => Err(e@),
            },
            cause,
        ).0,
        n@ == (old(pane)@.id, spawned_outcome(
            old(pane)@,
            match outcome {
                Ok(()) => Ok(()),
                Err(e) => Err(e@),
            },
            cause,
        ).1.0, spawned_outcome(
            old(pane)@,
            match outcome {
                Ok(()) => Ok(()),
                Err(e) => Err(e@),
            },
            cause,
        ).1.1),
{
    match outcome {
        Ok(()) => {
            pane.state = ProcessState::Running;
            let text = match cause {
                StartCause::Manual => "PROCESS STARTED",
                StartCause::AutoStart => "AUTO-STARTED",
                StartCause::AutoRestart => "AUTO-RESTARTED",
            };
            notice(pane.id, text, Tone::Green)
        },
        Err(e) => {
            pane.state = ProcessState::Stopped;
            Notice { pane: pane.id, text: e, tone: Tone::Red }
        },
    }
}

/// Stops a pane's process.
pub fn stop_pane<L>(pane: &mut ProcessPane<L>) -> (t: Transition)
    ensures
        final(pane)@ == stop_outcome(old(pane)@).0,
        t@ == (stop_outcome(old(pane)@).1, for_pane(old(pane)@.id, stop_outcome(old(pane)@).2)),
{
    let id = pane.id;
    if pane.state == ProcessState::Running {
        pane.state = ProcessState::ManuallyStopped;
        pane.last_size = None;
        let t = Transition {
            order: Order::Terminate,
            notices: one_notice(notice(id, "STOP SIGNAL SENT (Ctrl+C)", Tone::Red)),
        };
        assert(t@.1 =~= for_pane(id, stop_outcome(old(pane)@).2));
        t
    } else if pane.state == ProcessState::PendingAutoRestart {
        pane.state = ProcessState::ManuallyStopped;
        let t = Transition {
            order: Order::Idle,
            notices: one_notice(notice(id, "PENDING RESTART CANCELLED", Tone::Red)),
        };
        assert(t@.1 =~= for_pane(id, stop_outcome(old(pane)@).2));
        t
    } else {
        let t = Transition { order: Order::Idle, notices: no_notices() };
        assert(t@.1 =~= for_pane(id, stop_outcome(old(pane)@).2));
        t
    }
}

/// Restarts a pane's process.
pub fn restart_pane<L>(pane: &mut ProcessPane<L>) -> (t: Transition)
    ensures
        final(pane)@ == restart_outcome(old(pane)@).0,
        t@ == (restart_outcome(old(pane)@).1, for_pane(old(pane)@.id, restart_outcome(old(pane)@).2)),
{
    let id = pane.id;
    if pane.state == ProcessState::Running {
        pane.state = ProcessState::Restarting;
        pane.last_size = None;
        let t = Transition {
            order: Order::Terminate,
            notices: one_notice(notice(id, "RESTARTING", Tone::Yellow)),
        };
        assert(t@.1 =~= for_pane(id, restart_outcome(old(pane)@).2));
        t
    } else {
        let order = start_pane(pane, StartCause::Manual);
        let t = Transition { order, notices: no_notices() };
        assert(t@.1 =~= for_pane(id, restart_outcome(old(pane)@).2));
        t
    }
}

/// The message of an exit, with the restart delay when one follows.
fn exit_message(success: bool, restart_in: Option<u64>) -> (s: String)
    ensures
        s@ == match restart_in {
            Some(g) => exit_restart_text(success, g),
            None => exit_text(success),
        },
{
    let mut s = owned(
        if success {
            "EXITED CLEANLY"
        } else {
            "CRASHED / FAILED"
        },
    );
    match restart_in {
        Some(g) => {
            append_str(&mut s, " (Restarting in ");
            append_decimal(&mut s, g);
            append_str(&mut s, "ms)");
        },
        None => {},
    }
    s
}

/// Records the exit of a pane's process.
pub fn exited_pane<L>(pane: &mut ProcessPane<L>, success: bool) -> (t: Transition)
    ensures
        final(pane)@ == exit_outcome(old(pane)@, success).0,
        t@ == (exit_outcome(old(pane)@, success).1, for_pane(
            old(pane)@.id,
            exit_outcome(old(pane)@, success).2,
        )),
{
    let id = pane.id;
    let old_state = pane.state;
    if old_state == ProcessState::Stopped || old_state == ProcessState::PendingAutoRestart || old_state
        == ProcessState::ManuallyStopped {
        let t = Transition { order: Order::Idle, notices: no_notices() };
        assert(t@.1 =~= for_pane(id, exit_outcome(old(pane)@, success).2));
        return t;
    }
    pane.state = ProcessState::Stopped;
    pane.last_size = None;
    let tone = if success {
        Tone::Green
    } else {
        Tone::Red
    };
    if old_state == ProcessState::Restarting {
        let t = Transition { order: Order::Restart { delay_ms: 0, auto: false }, notices: no_notices() };
        assert(t@.1 =~= for_pane(id, exit_outcome(old(pane)@, success).2));
        t
    } else if pane.config.auto_restart && old_state == ProcessState::Running {
        pane.state = ProcessState::PendingAutoRestart;
        let grace = pane.config.grace_period;
        let text = exit_message(success, Some(grace));
        let t = Transition {
            order: Order::Restart { delay_ms: grace, auto: true },
            notices: one_notice(Notice { pane: id, text, tone }),
        };
        assert(t@.1 =~= for_pane(id, exit_outcome(old(pane)@, success).2));
        t
    } else {
        let text = exit_message(success, None);
        let t = Transition { order: Order::Idle, notices: one_notice(Notice { pane: id, text, tone }) };
        assert(t@.1 =~= for_pane(id, exit_outcome(old(pane)@, success).2));
        t
    }
}

/// Handles a restart request from a timer.
pub fn restart_requested_pane<L>(pane: &mut ProcessPane<L>, auto: bool) -> (o: Order)
    ensures
        (final(pane)@, o) == restart_request_outcome(old(pane)@, auto),
{
    if auto && pane.state != ProcessState::PendingAutoRestart {
        return Order::Idle;
    }
    start_pane(
        pane,
        if auto {
            StartCause::AutoRestart
        } else {
            StartCause::Manual
        },
    )
}

/// Handles a change of one of the pane's watched files.
pub fn file_changed_pane<L>(pane: &mut ProcessPane<L>) -> (t: Transition)
    ensures
        final(pane)@ == file_changed_outcome(old(pane)@).0,
        t@ == (file_changed_outcome(old(pane)@).1, for_pane(
            old(pane)@.id,
            file_changed_outcome(old(pane)@).2,
        )),
{
    let id = pane.id;
    if pane.state == ProcessState::ManuallyStopped {
        let t = Transition { order: Order::Idle, notices: no_notices() };
        assert(t@.1 =~= for_pane(id, file_changed_outcome(old(pane)@).2));
        return t;
    }
    let first = notice(id, "FILE CHANGED - RESTARTING", Tone::Yellow);
    let inner = restart_pane(pane);
    let Transition { order, notices } = inner;
    let ghost rest = notices@;
    let mut all: Vec<Notice> = Vec::new();
    all.push(first);
    let mut rest_v = notices;
    let mut i: usize = 0;
    let n = rest_v.len();
    while i < n
        invariant
            n == rest.len(),
            i <= n,
            rest_v@ == rest.skip(i as int),
            all@.map_values(|x: Notice| x@) == seq![first@] + rest.take(i as int).map_values(|x: Notice| x@),
        decreases n - i,
    {
        let x = rest_v.remove(0);
        assert(rest.skip(i + 1) =~= rest.skip(i as int).remove(0));
        assert(x == rest[i as int]);
        let ghost before = all@;
        all.push(x);
        assert(all@.map_values(|y: Notice| y@) =~= before.map_values(|y: Notice| y@).push(x@));
        assert(rest.take(i + 1).map_values(|y: Notice| y@) =~= rest.take(i as int).map_values(|y: Notice| y@).push(x@));
        i = i + 1;
        assert(all@.map_values(|y: Notice| y@) =~= seq![first@] + rest.take(i as int).map_values(|y: Notice| y@));
    }
    assert(rest.take(n as int) =~= rest);
    let t = Transition { order, notices: all };
    assert(t@.1 =~= for_pane(id, file_changed_outcome(old(pane)@).2));
    t
}


/// The dashboard with pane `i` replaced by `q`.
pub open spec fn with_pane<L>(s: DashView<L>, i: int, q: PaneView<L>) -> DashView<L> {
    DashView { panes: s.panes.update(i, q), ..s }
}

/// Nothing to do.
pub open spec fn idle() -> (Order, Seq<(usize, Seq<char>, Tone)>) {
    (Order::Idle, Seq::empty())
}

/// A pane-level decision applied to the pane of process `id` (its first
/// pane); nothing happens when there is none.
pub open spec fn by_id<L>(
    s: DashView<L>,
    id: usize,
    step: spec_fn(PaneView<L>) -> (PaneView<L>, Order, Seq<(Seq<char>, Tone)>),
) -> (DashView<L>, (Order, Seq<(usize, Seq<char>, Tone)>)) {
    match pane_position(s.panes, id) {
        None => (s, idle()),
        Some(i) => {
            let (q, o, m) = step(s.panes[i]);
            (with_pane(s, i, q), (o, for_pane(s.panes[i].id, m)))
        },
    }
}

/// What a user action does.
pub open spec fn action_outcome<L>(s: DashView<L>, action: UserAction) -> (
    DashView<L>,
    (Order, Seq<(usize, Seq<char>, Tone)>),
) {
    match action {
        UserAction::StopProcess(id) => by_id(s, id, |p: PaneView<L>| stop_outcome(p)),
        UserAction::StartProcess(id) => by_id(
            s,
            id,
            |p: PaneView<L>|
                {
                    let (q, o) = start_outcome(p, StartCause::Manual);
                    (q, o, Seq::empty())
                },
        ),
        UserAction::RestartProcess(id) => by_id(s, id, |p: PaneView<L>| restart_outcome(p)),
        UserAction::ToggleZoom(id) => (DashView {
            zoomed_pane: if s.zoomed_pane == Some(id) {
                None
            } else {
                Some(id)
            },
            layout_dirty: true,
            ..s
        }, idle()),
        UserAction::NextTab => (if s.panes.len() > 0 {
            DashView { focused_pane: ((s.focused_pane + 1) % (s.panes.len() as int)) as usize, ..s }
        } else {
            s
        }, idle()),
        _ => (s, idle()),
    }
}


/// Applies a user action to the dashboard: gives the order for the pane the
/// action names (opening a link is left to the caller).
pub fn apply_action<L>(state: &mut DashboardState<L>, action: UserAction) -> (t: Transition)
    requires
        focus_valid(old(state)@),
    ensures
        final(state)@ == action_outcome(old(state)@, action).0,
        t@ == action_outcome(old(state)@, action).1,
        focus_valid(final(state)@),
{
    let ghost old_panes = state.panes@;
    match action {
        UserAction::StopProcess(id) | UserAction::StartProcess(id) | UserAction::RestartProcess(id) => {
            let i = match pane_index(&state.panes, id) {
                Some(i) => i,
                None => {
                    let t = Transition { order: Order::Idle, notices: no_notices() };
                    return t;
                },
            };
            let ghost p = state@.panes[i as int];
            assert(p == state.panes@[i as int]@);
            let t = match action {
                UserAction::StopProcess(_) => stop_pane(&mut state.panes[i]),
                UserAction::StartProcess(_) => {
                    let order = start_pane(&mut state.panes[i], StartCause::Manual);
                    Transition { order, notices: no_notices() }
                },
                _ => restart_pane(&mut state.panes[i]),
            };
            proof {
                let q = state.panes@[i as int]@;
                assert(pane_views(state.panes@) =~= pane_views(old_panes).update(i as int, q));
                assert(for_pane(p.id, Seq::<(Seq<char>, Tone)>::empty()) =~= Seq::<(usize, Seq<char>, Tone)>::empty());
            }
            t
        },
        UserAction::ToggleZoom(id) => {
            state.toggle_zoom(id);
            Transition { order: Order::Idle, notices: no_notices() }
        },
        UserAction::NextTab => {
            if state.panes.len() > 0 {
                state.focused_pane = (state.focused_pane + 1) % state.panes.len();
            }
            Transition { order: Order::Idle, notices: no_notices() }
        },
        _ => Transition { order: Order::Idle, notices: no_notices() },
    }
}

/// What the exit of process `id` does.
pub open spec fn process_exit_outcome<L>(s: DashView<L>, id: usize, success: bool) -> (
    DashView<L>,
    (Order, Seq<(usize, Seq<char>, Tone)>),
) {
    by_id(s, id, |p: PaneView<L>| exit_outcome(p, success))
}

/// Records the exit of process `id`.
pub fn on_process_exit<L>(state: &mut DashboardState<L>, id: usize, success: bool) -> (t: Transition)
    ensures
        final(state)@ == process_exit_outcome(old(state)@, id, success).0,
        t@ == process_exit_outcome(old(state)@, id, success).1,
{
    let ghost old_panes = state.panes@;
    let i = match pane_index(&state.panes, id) {
        Some(i) => i,
        None => {
            return Transition { order: Order::Idle, notices: no_notices() };
        },
    };
    assert(state@.panes[i as int] == state.panes@[i as int]@);
    let t = exited_pane(&mut state.panes[i], success);
    assert(pane_views(state.panes@) =~= pane_views(old_panes).update(i as int, state.panes@[i as int]@));
    t
}

/// What a change of a file watched for process `id` does.
pub open spec fn file_change_outcome<L>(s: DashView<L>, id: usize) -> (
    DashView<L>,
    (Order, Seq<(usize, Seq<char>, Tone)>),
) {
    by_id(s, id, |p: PaneView<L>| file_changed_outcome(p))
}

/// Handles a change of a file watched for process `id`.
pub fn on_file_changed<L>(state: &mut DashboardState<L>, id: usize) -> (t: Transition)
    ensures
        final(state)@ == file_change_outcome(old(state)@, id).0,
        t@ == file_change_outcome(old(state)@, id).1,
{
    let ghost old_panes = state.panes@;
    let i = match pane_index(&state.panes, id) {
        Some(i) => i,
        None => {
            return Transition { order: Order::Idle, notices: no_notices() };
        },
    };
    assert(state@.panes[i as int] == state.panes@[i as int]@);
    let t = file_changed_pane(&mut state.panes[i]);
    assert(pane_views(state.panes@) =~= pane_views(old_panes).update(i as int, state.panes@[i as int]@));
    t
}

/// What a restart request for process `id` does.
pub open spec fn restart_request_at<L>(s: DashView<L>, id: usize, auto: bool) -> (DashView<L>, Order) {
    match pane_position(s.panes, id) {
        None => (s, Order::Idle),
        Some(i) => {
            let (q, o) = restart_request_outcome(s.panes[i], auto);
            (with_pane(s, i, q), o)
        },
    }
}

/// Handles a restart request for process `id` coming back from a timer.
pub fn on_restart_request<L>(state: &mut DashboardState<L>, id: usize, auto: bool) -> (o: Order)
    ensures
        (final(state)@, o) == restart_request_at(old(state)@, id, auto),
{
    let ghost old_panes = state.panes@;
    let i = match pane_index(&state.panes, id) {
        Some(i) => i,
        None => {
            return Order::Idle;
        },
    };
    assert(state@.panes[i as int] == state.panes@[i as int]@);
    let o = restart_requested_pane(&mut state.panes[i], auto);
    assert(pane_views(state.panes@) =~= pane_views(old_panes).update(i as int, state.panes@[i as int]@));
    o
}

/// What the outcome of a spawn for process `id` does.
pub open spec fn spawned_at<L>(s: DashView<L>, id: usize, outcome: Result<(), Seq<char>>, cause: StartCause) -> (
    DashView<L>,
    Option<(usize, Seq<char>, Tone)>,
) {
    match pane_position(s.panes, id) {
        None => (s, None),
        Some(i) => {
            let (q, m) = spawned_outcome(s.panes[i], outcome, cause);
            (with_pane(s, i, q), Some((s.panes[i].id, m.0, m.1)))
        },
    }
}

/// Records the outcome of a spawn for process `id`; gives the message for
/// its log.
pub fn on_spawned<L>(state: &mut DashboardState<L>, id: usize, outcome: Result<(), String>, cause: StartCause) -> (n: Option<Notice>)
    ensures
        final(state)@ == spawned_at(
            old(state)@,
            id,
            match outcome {
                Ok(()) => Ok(()),
                Err(e) => Err(e@),
            },
            cause,
        ).0,
        match n {
            Some(x) => spawned_at(
                old(state)@,
                id,
                match outcome {
                    Ok(()) => Ok(()),
                    Err(e) => Err(e@),
                },
                cause,
            ).1 == Some(x@),
            None => spawned_at(
                old(state)@,
                id,
                match outcome {
                    Ok(()) => Ok(()),
                    Err(e) => Err(e@),
                },
                cause,
            ).1 is None,
        },
{
    let ghost old_panes = state.panes@;
    let i = match pane_index(&state.panes, id) {
        Some(i) => i,
        None => {
            return None;
        },
    };
    assert(state@.panes[i as int] == state.panes@[i as int]@);
    let n = spawned_pane(&mut state.panes[i], outcome, cause);
    assert(pane_views(state.panes@) =~= pane_views(old_panes).update(i as int, state.panes@[i as int]@));
    Some(n)
}

/// Pane `p` with `line` appended to its log.
pub open spec fn pane_with_line<L>(p: PaneView<L>, line: L) -> PaneView<L> {
    PaneView {
        logs: bounded_push(p.logs, line, p.logs_max_size),
        view_top_index: anchored_top(p.logs.len(), p.view_top_index, p.logs_max_size),
        ..p
    }
}

/// Appends `line` to the log of process `id`'s pane (a line of its output
/// or a supervisor message); nothing happens when there is no such pane.
pub fn on_pane_line<L>(state: &mut DashboardState<L>, id: usize, line: L)
    ensures
        final(state)@ == match pane_position(old(state)@.panes, id) {
            None => old(state)@,
            Some(i) => with_pane(old(state)@, i, pane_with_line(old(state)@.panes[i], line)),
        },
{
    let ghost old_panes = state.panes@;
    let i = match pane_index(&state.panes, id) {
        Some(i) => i,
        None => {
            return;
        },
    };
    assert(state@.panes[i as int] == state.panes@[i as int]@);
    state.panes[i].add_line(line);
    assert(pane_views(state.panes@) =~= pane_views(old_panes).update(i as int, state.panes@[i as int]@));
}

/// Starts every pane configured to start with the dashboard; gives the
/// identifiers of the processes to spawn, in pane order.
pub fn auto_start_all<L>(state: &mut DashboardState<L>) -> (ids: Vec<usize>)
    ensures
        final(state)@.panes.len() == old(state)@.panes.len(),
        forall|i: int|
            0 <= i < old(state)@.panes.len() ==> #[trigger] final(state)@.panes[i] == if old(
                state,
            )@.panes[i].config.auto_start {
                start_outcome(old(state)@.panes[i], StartCause::AutoStart).0
            } else {
                old(state)@.panes[i]
            },
        final(state)@ == (DashView { panes: final(state)@.panes, ..old(state)@ }),
        ids@ == auto_start_ids(old(state)@.panes),
{
    let ghost old_view = state@;
    let mut ids: Vec<usize> = Vec::new();
    let mut i: usize = 0;
    while i < state.panes.len()
        invariant
            i <= state.panes@.len(),
            state.panes@.len() == old_view.panes.len(),
            state@ == (DashView { panes: state@.panes, ..old_view }),
            forall|j: int|
                0 <= j < state.panes@.len() ==> #[trigger] state@.panes[j] == if j < i
                    && old_view.panes[j].config.auto_start {
                    start_outcome(old_view.panes[j], StartCause::AutoStart).0
                } else {
                    old_view.panes[j]
                },
            ids@ == auto_start_ids(old_view.panes.take(i as int)),
        decreases state.panes@.len() - i,
    {
        assert(old_view.panes.take(i + 1).drop_last() =~= old_view.panes.take(i as int));
        assert(state@.panes[i as int] == state.panes@[i as int]@);
        let ghost before = state.panes@;
        if state.panes[i].config.auto_start {
            let order = start_pane(&mut state.panes[i], StartCause::AutoStart);
            if let Order::Spawn(_) = order {
                ids.push(state.panes[i].id);
            }
            assert(pane_views(state.panes@) =~= pane_views(before).update(i as int, state.panes@[i as int]@));
        }
        i = i + 1;
    }
    assert(old_view.panes.take(old_view.panes.len() as int) =~= old_view.panes);
    ids
}

/// The identifiers of the panes that start with the dashboard and do not
/// run yet.
pub open spec fn auto_start_ids<L>(panes: Seq<PaneView<L>>) -> Seq<usize>
    decreases panes.len(),
{
    if panes.len() == 0 {
        Seq::empty()
    } else {
        let r = auto_start_ids(panes.drop_last());
        let p = panes.last();
        if p.config.auto_start && p.state != ProcessState::Running {
            r.push(p.id)
        } else {
            r
        }
    }
}

/// Records a new terminal height: the combined log gets all rows but the
/// header, footer and its borders, and the layout is computed again.
pub fn on_resize<L>(state: &mut DashboardState<L>, rows: u16)
    ensures
        final(state)@ == (DashView {
            global_area_height: (if rows >= 4 {
                rows - 4
            } else {
                0
            }) as usize,
            layout_dirty: true,
            ..old(state)@
        }),
{
    state.global_area_height = (if rows >= 4 {
        rows - 4
    } else {
        0
    }) as usize;
    state.layout_dirty = true;
}


/// A process stopped by hand stays stopped when one of its watched files
/// changes: nothing is spawned, nothing is logged.
pub proof fn law_manual_stop_survives_file_change<L>(p: PaneView<L>)
    requires
        p.state == ProcessState::ManuallyStopped,
    ensures
        file_changed_outcome(p) == (p, Order::Idle, Seq::<(Seq<char>, Tone)>::empty()),
{
}

/// A file change restarts a running process (it is terminated and marked
/// restarting) and starts a crashed or stopped one again.
pub proof fn law_file_change_restarts<L>(p: PaneView<L>)
    requires
        p.state != ProcessState::ManuallyStopped,
    ensures
        p.state == ProcessState::Running ==> file_changed_outcome(p).0.state == ProcessState::Restarting
            && file_changed_outcome(p).1 == Order::Terminate,
        p.state != ProcessState::Running ==> file_changed_outcome(p).1 == Order::Spawn(StartCause::Manual),
{
}

/// Once the user stops a running process, its exit brings no restart.
pub proof fn law_stopped_process_is_not_restarted<L>(p: PaneView<L>, success: bool)
    requires
        p.state == ProcessState::Running,
    ensures
        exit_outcome(stop_outcome(p).0, success).1 == Order::Idle,
        exit_outcome(stop_outcome(p).0, success).0.state == ProcessState::ManuallyStopped,
{
}

/// Stopping a process that waits for its automatic restart cancels it: the
/// timer's request is then dropped.
pub proof fn law_stop_cancels_pending_restart<L>(p: PaneView<L>)
    requires
        p.state == ProcessState::PendingAutoRestart,
    ensures
        restart_request_outcome(stop_outcome(p).0, true) == (stop_outcome(p).0, Order::Idle),
{
}

/// An automatic restart is scheduled only for a running process that exits
/// and is configured to restart, after its grace period.
pub proof fn law_auto_restart_only_when_configured<L>(p: PaneView<L>, success: bool)
    ensures
        exit_outcome(p, success).1 is Restart && exit_outcome(p, success).1->auto ==> p.config.auto_restart
            && p.state == ProcessState::Running && exit_outcome(p, success).1->delay_ms
            == p.config.grace_period,
{
}

/// Restarting a running process terminates it; its exit asks for an
/// immediate restart, which spawns it again.
pub proof fn law_restart_cycle<L>(p: PaneView<L>, success: bool)
    requires
        p.state == ProcessState::Running,
    ensures
        restart_outcome(p).1 == Order::Terminate,
        exit_outcome(restart_outcome(p).0, success).1 == (Order::Restart { delay_ms: 0, auto: false }),
        restart_request_outcome(exit_outcome(restart_outcome(p).0, success).0, false).1 == Order::Spawn(
            StartCause::Manual,
        ),
{
}

/// Starting a running process does nothing.
pub proof fn law_start_is_idle_when_running<L>(p: PaneView<L>, cause: StartCause)
    requires
        p.state == ProcessState::Running,
    ensures
        start_outcome(p, cause) == (p, Order::Idle),
{
}

/// A spawn that succeeds leaves the process running; one that fails leaves
/// it stopped with the error as its message.
pub proof fn law_spawn_outcome<L>(p: PaneView<L>, e: Seq<char>, cause: StartCause)
    ensures
        spawned_outcome(p, Ok(()), cause).0.state == ProcessState::Running,
        spawned_outcome(p, Err(e), cause).0.state == ProcessState::Stopped,
        spawned_outcome(p, Err(e), cause).1 == (e, Tone::Red),
{
}

} // verus!
