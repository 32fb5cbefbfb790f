//! The state of one process pane: its bounded log buffer and scrolled view.
use vstd::prelude::*;
use std::collections::VecDeque;
use crate::config::ProcessConfig;
use crate::text::{append_str, owned};

verus! {

/// How long log lines are shown.
#[derive(Debug, Clone, Copy, PartialEq, Eq, Structural)]
pub enum LogMode {
    Truncate,
    Wrap,
}

/// Life-cycle state of a supervised process.
#[derive(Debug, Clone, Copy, PartialEq, Eq, Structural)]
pub enum ProcessState {
    Running,
    Stopped,
    ManuallyStopped,
    Restarting,
    PendingAutoRestart,
}

/// One process pane. `L` is the type of a rendered log line.
pub struct ProcessPane<L> {
    /// Identifier of the pane (its index in the configuration).
    pub id: usize,
    /// The prepared process.
    pub config: ProcessConfig,
    /// Retained log lines, oldest first.
    pub logs: VecDeque<L>,
    /// Maximum number of retained lines (unbounded when absent).
    pub logs_max_size: Option<usize>,
    /// Life-cycle state of the process.
    pub state: ProcessState,
    /// Index of the first visible line when scrolled; `None` follows the tail.
    pub view_top_index: Option<usize>,
    /// Horizontal scroll offset in truncate mode.
    pub horizontal_scroll: usize,
    /// Line display mode.
    pub log_mode: LogMode,
    /// Whether keystrokes go to the process (TUI mode).
    pub tui_focused: bool,
    /// Last size given to the terminal of the process (columns, rows).
    pub last_size: Option<(u16, u16)>,
}

/// A pane by value.
#[verifier::ext_equal]
pub struct PaneView<L> {
    pub id: usize,
    pub config: ProcessConfig,
    pub logs: Seq<L>,
    pub logs_max_size: Option<usize>,
    pub state: ProcessState,
    pub view_top_index: Option<usize>,
    pub horizontal_scroll: usize,
    pub log_mode: LogMode,
    pub tui_focused: bool,
    pub last_size: Option<(u16, u16)>,
}

impl<L> View for ProcessPane<L> {
    type V = PaneView<L>;

    open spec fn view(&self) -> PaneView<L> {
        PaneView {
            id: self.id,
            config: self.config,
            logs: self.logs@,
            logs_max_size: self.logs_max_size,
            state: self.state,
            view_top_index: self.view_top_index,
            horizontal_scroll: self.horizontal_scroll,
            log_mode: self.log_mode,
            tui_focused: self.tui_focused,
            last_size: self.last_size,
        }
    }
}

/// Color of a supervisor message.
#[derive(Debug, Clone, Copy, PartialEq, Eq, Structural)]
pub enum Tone {
    Green,
    Red,
    Yellow,
    DarkGray,
}

/// A supervisor message for the log of pane `pane` (shown as
/// `:: text ::`, bold, in `tone`).
#[derive(Debug)]
pub struct Notice {
    pub pane: usize,
    pub text: String,
    pub tone: Tone,
}

impl View for Notice {
    type V = (usize, Seq<char>, Tone);

    open spec fn view(&self) -> (usize, Seq<char>, Tone) {
        (self.pane, self.text@, self.tone)
    }
}

/// `a - b`, or 0 when `b > a` (`usize::saturating_sub`).
pub open spec fn sat_sub(a: int, b: int) -> int {
    if a >= b {
        a - b
    } else {
        0
    }
}

/// `log` with `line` appended, then trimmed to at most `max` lines by
/// dropping the oldest one.
pub open spec fn bounded_push<L>(log: Seq<L>, line: L, max: Option<usize>) -> Seq<L> {
    let pushed = log.push(line);
    match max {
        Some(m) => if pushed.len() > m {
            pushed.drop_first()
        } else {
            pushed
        },
        None => pushed,
    }
}

/// The scrolled view after appending to `log`: when the oldest line was
/// dropped, a scrolled view moves up by one so it keeps showing the same lines.
pub open spec fn anchored_top(log_len: nat, top: Option<usize>, max: Option<usize>) -> Option<usize> {
    match max {
        Some(m) => if log_len + 1 > m {
            match top {
                Some(t) => Some(sat_sub(t as int, 1) as usize),
                None => None,
            }
        } else {
            top
        },
        None => top,
    }
}

/// The view top after scrolling up by `amount`.
pub open spec fn scrolled_up(top: Option<usize>, len: nat, amount: usize, height: usize) -> Option<usize> {
    let current = match top {
        Some(t) => t as int,
        None => sat_sub(len as int, height as int),
    };
    Some(sat_sub(current, amount as int) as usize)
}

/// The view top after scrolling down by `amount`: back to following the
/// tail once the last page is reached.
pub open spec fn scrolled_down(top: Option<usize>, len: nat, amount: usize, height: usize) -> Option<usize> {
    match top {
        Some(t) => if t + amount >= sat_sub(len as int, height as int) {
            None
        } else {
            Some((t + amount) as usize)
        },
        None => None,
    }
}

/// The text of a supervisor message shown in a pane (`:: msg ::`).
pub open spec fn system_log_text(msg: Seq<char>) -> Seq<char> {
    ":: "@ + msg + " ::"@
}

/// The text of a supervisor message shown in a pane.
pub fn system_log_line(msg: &str) -> (r: String)
    ensures
        r@ == system_log_text(msg@),
{
    let mut s = String::new();
    append_str(&mut s, ":: ");
    append_str(&mut s, msg);
    append_str(&mut s, " ::");
    s
}

impl<L> ProcessPane<L> {
    /// A stopped pane with an empty log that follows the tail.
    pub fn new(id: usize, logs_max_size: Option<usize>, config: ProcessConfig) -> (p: Self)
        ensures
            p.id == id,
            p.logs_max_size == logs_max_size,
            p.config == config,
            p.logs@ == Seq::<L>::empty(),
            p.state == ProcessState::Stopped,
            p.view_top_index.is_none(),
            p.horizontal_scroll == 0,
            p.log_mode == LogMode::Truncate,
            p.tui_focused,
            p.last_size.is_none(),
    {
        ProcessPane {
            id,
            config,
            logs: VecDeque::new(),
            logs_max_size,
            state: ProcessState::Stopped,
            view_top_index: None,
            horizontal_scroll: 0,
            log_mode: LogMode::Truncate,
            tui_focused: true,
            last_size: None,
        }
    }

    /// Appends a line, dropping the oldest one when the buffer is full; a
    /// scrolled view moves along so it keeps showing the same lines.
    pub fn add_line(&mut self, line: L)
        ensures
            final(self).logs@ == bounded_push(old(self).logs@, line, old(self).logs_max_size),
            final(self).view_top_index == anchored_top(
                old(self).logs@.len(),
                old(self).view_top_index,
                old(self).logs_max_size,
            ),
            final(self).id == old(self).id,
            final(self).config == old(self).config,
            final(self).logs_max_size == old(self).logs_max_size,
            final(self).state == old(self).state,
            final(self).horizontal_scroll == old(self).horizontal_scroll,
            final(self).log_mode == old(self).log_mode,
            final(self).tui_focused == old(self).tui_focused,
            final(self).last_size == old(self).last_size,
    {
        self.logs.push_back(line);
        let max = match self.logs_max_size {
            Some(m) => m,
            None => {
                return;
            },
        };
        if self.logs.len() <= max {
            return;
        }
        let _ = self.logs.pop_front();
        match self.view_top_index {
            Some(top) => {
                self.view_top_index = Some(
                    if top >= 1 {
                        top - 1
                    } else {
                        0
                    },
                );
            },
            None => {},
        }
    }

    /// Scrolls the view up by `amount` lines (`inner_height` lines are visible).
    pub fn scroll_up(&mut self, amount: usize, inner_height: usize)
        ensures
            final(self).view_top_index == scrolled_up(
                old(self).view_top_index,
                old(self).logs@.len(),
                amount,
                inner_height,
            ),
            final(self).logs@ == old(self).logs@,
            final(self).id == old(self).id,
            final(self).config == old(self).config,
            final(self).logs_max_size == old(self).logs_max_size,
            final(self).state == old(self).state,
            final(self).horizontal_scroll == old(self).horizontal_scroll,
            final(self).log_mode == old(self).log_mode,
            final(self).tui_focused == old(self).tui_focused,
            final(self).last_size == old(self).last_size,
    {
        let len = self.logs.len();
        let current_top = match self.view_top_index {
            None => if len >= inner_height {
                len - inner_height
            } else {
                0
            },
            Some(top) => top,
        };
        self.view_top_index = Some(
            if current_top >= amount {
                current_top - amount
            } else {
                0
            },
        );
    }

    /// Scrolls the view down by `amount` lines; reaching the last page goes
    /// back to following the tail.
    pub fn scroll_down(&mut self, amount: usize, inner_height: usize)
        requires
            match old(self).view_top_index {
                Some(t) => t + amount <= usize::MAX,
                None => true,
            },
        ensures
            final(self).view_top_index == scrolled_down(
                old(self).view_top_index,
                old(self).logs@.len(),
                amount,
                inner_height,
            ),
            final(self).logs@ == old(self).logs@,
            final(self).id == old(self).id,
            final(self).config == old(self).config,
            final(self).logs_max_size == old(self).logs_max_size,
            final(self).state == old(self).state,
            final(self).horizontal_scroll == old(self).horizontal_scroll,
            final(self).log_mode == old(self).log_mode,
            final(self).tui_focused == old(self).tui_focused,
            final(self).last_size == old(self).last_size,
    {
        match self.view_top_index {
            Some(top) => {
                let next_top = top + amount;
                let len = self.logs.len();
                let last_page = if len >= inner_height {
                    len - inner_height
                } else {
                    0
                };
                if next_top >= last_page {
                    self.view_top_index = None;
                } else {
                    self.view_top_index = Some(next_top);
                }
            },
            None => {},
        }
    }

    /// Empties the log and resets both scroll positions.
    pub fn clear_logs(&mut self)
        ensures
            final(self).logs@ == Seq::<L>::empty(),
            final(self).view_top_index.is_none(),
            final(self).horizontal_scroll == 0,
            final(self).id == old(self).id,
            final(self).config == old(self).config,
            final(self).logs_max_size == old(self).logs_max_size,
            final(self).state == old(self).state,
            final(self).log_mode == old(self).log_mode,
            final(self).tui_focused == old(self).tui_focused,
            final(self).last_size == old(self).last_size,
    {
        self.logs.clear();
        self.view_top_index = None;
        self.horizontal_scroll = 0;
    }

    /// Switches between truncating and wrapping long lines.
    pub fn toggle_wrap(&mut self)
        ensures
            final(self).log_mode == match old(self).log_mode {
                LogMode::Truncate => LogMode::Wrap,
                LogMode::Wrap => LogMode::Truncate,
            },
            final(self).logs@ == old(self).logs@,
            final(self).id == old(self).id,
            final(self).config == old(self).config,
            final(self).logs_max_size == old(self).logs_max_size,
            final(self).state == old(self).state,
            final(self).view_top_index == old(self).view_top_index,
            final(self).horizontal_scroll == old(self).horizontal_scroll,
            final(self).tui_focused == old(self).tui_focused,
            final(self).last_size == old(self).last_size,
    {
        self.log_mode = match self.log_mode {
            LogMode::Truncate => LogMode::Wrap,
            LogMode::Wrap => LogMode::Truncate,
        };
    }
}

/// A bounded buffer never holds more lines than its bound once it is within
/// it.
pub proof fn law_bounded_push_respects_bound<L>(log: Seq<L>, line: L, max: usize)
    requires
        log.len() <= max,
    ensures
        bounded_push(log, line, Some(max)).len() <= max,
{
}

/// An unbounded buffer never evicts: every line appended stays.
pub proof fn law_unbounded_push_keeps_all<L>(log: Seq<L>, line: L)
    ensures
        bounded_push(log, line, None) == log.push(line),
{
}

/// A scrolled view stays anchored when a full buffer evicts its oldest line:
/// the line at the top of the view is the same line before and after.
pub proof fn law_scrolled_view_stays_anchored<L>(log: Seq<L>, line: L, max: usize, top: usize)
    requires
        log.len() == max,
        1 <= top < log.len(),
    ensures
        anchored_top(log.len(), Some(top), Some(max)) == Some((top - 1) as usize),
        bounded_push(log, line, Some(max))[top - 1] == log[top as int],
{
}

/// Following the tail is unaffected by eviction.
pub proof fn law_tail_view_unaffected<L>(log_len: nat, max: Option<usize>)
    ensures
        anchored_top(log_len, None, max).is_none(),
{
}

} // verus!
