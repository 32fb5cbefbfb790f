//! What the dashboard shows, as text: the title bar of a pane, the
//! combined log's prefixes and title, the header and the footer.
use vstd::prelude::*;
use crate::dashboard::{pane_index, pane_views, DashView, DashboardState};
use crate::inputs::pane_position;
use crate::layouts::{visible_window, Viewport};
use crate::panes::{sat_sub, LogMode, PaneView, ProcessPane, ProcessState};
use crate::schema::PaneMode;
use crate::text::{append_decimal, append_str, decimal_text, owned, push_char};

verus! {

/// Colors of the dashboard.
#[derive(Debug, Clone, Copy, PartialEq, Eq, Structural)]
pub enum Hue {
    Red,
    Green,
    Yellow,
    Blue,
    Magenta,
    Cyan,
    DarkGray,
    LightRed,
    LightGreen,
    LightYellow,
    LightBlue,
    LightMagenta,
    LightCyan,
    White,
}

/// A piece of a title bar: its text, its color (none for plain text), and
/// whether it is bold.
pub struct TitleSpan {
    pub text: String,
    pub hue: Option<Hue>,
    pub bold: bool,
}

impl View for TitleSpan {
    type V = (Seq<char>, Option<Hue>, bool);

    open spec fn view(&self) -> (Seq<char>, Option<Hue>, bool) {
        (self.text@, self.hue, self.bold)
    }
}

/// How a pane is framed: whether it has the focus, whether it is zoomed
/// (then only its top and bottom borders are drawn), its title bar, and the
/// window of its log that is shown.
pub struct PaneChrome {
    pub focused: bool,
    pub zoomed: bool,
    pub spans: Vec<TitleSpan>,
    pub window: Viewport,
}

/// The label of a process state and its color.
pub open spec fn status_label(s: ProcessState) -> (Seq<char>, Hue) {
    match s {
        ProcessState::Running => ("RUNNING"@, Hue::LightGreen),
        ProcessState::Stopped => ("STOPPED"@, Hue::LightRed),
        ProcessState::ManuallyStopped => ("MANUAL STOP"@, Hue::DarkGray),
        ProcessState::Restarting => ("RESTARTING"@, Hue::LightYellow),
        ProcessState::PendingAutoRestart => ("PENDING"@, Hue::LightCyan),
    }
}

/// The start/stop button: stop for a running process, start otherwise.
pub open spec fn toggle_button(s: ProcessState) -> (Seq<char>, Hue) {
    if s == ProcessState::Running {
        (" [■]"@, Hue::Red)
    } else {
        (" [▶]"@, Hue::Green)
    }
}

/// `[n]` after a marker, for the title bar.
pub open spec fn counter(marker: Seq<char>, n: nat) -> Seq<char> {
    marker + decimal_text(n) + "]"@
}

/// The title bar of pane `p` with `inner_height` rows of log: the buttons
/// and the state; for a log pane how many lines lie below the view when
/// scrolled, the wrap mode and the horizontal offset; for a full-screen pane
/// whether it has the keyboard; then the title.
pub open spec fn title_spans<L>(p: PaneView<L>, inner_height: usize) -> Seq<(Seq<char>, Option<Hue>, bool)> {
    let (tt, th) = toggle_button(p.state);
    let (st, sh) = status_label(p.state);
    let head = seq![
        (tt, Some(th), false),
        (" [↺]"@, Some(Hue::Yellow), false),
        (" [↩]"@, Some(Hue::Cyan), false),
        (" [⤢]"@, Some(Hue::LightMagenta), false),
        (" ["@, None, false),
        (st, Some(sh), false),
        ("]"@, None, false),
    ];
    let mid = if p.config.mode == PaneMode::Log {
        let total = p.logs.len() as int;
        let (start, end, scrolled) = visible_window(total, inner_height as int, p.view_top_index);
        let scroll = if scrolled {
            counter(" [↕ "@, sat_sub(total, end) as nat)
        } else {
            Seq::empty()
        };
        let wrap = if p.log_mode == LogMode::Wrap {
            " [WRAP]"@
        } else {
            Seq::empty()
        };
        let shift = if p.horizontal_scroll > 0 && p.log_mode == LogMode::Truncate {
            counter(" [↔ "@, p.horizontal_scroll as nat)
        } else {
            Seq::empty()
        };
        seq![(scroll, Some(Hue::Magenta), false), (wrap + shift, Some(Hue::Magenta), false)]
    } else if p.tui_focused {
        seq![(" [TUI ⌨ ^X]"@, Some(Hue::LightCyan), true)]
    } else {
        seq![(" [TUI ⊘ ↵]"@, Some(Hue::DarkGray), true)]
    };
    head + mid + seq![(" "@ + p.config.title@, None, false)]
}

/// How the pane of process `id` is framed in an area of `area_height`
/// rows, if there is such a pane.
pub open spec fn chrome_of<L>(s: DashView<L>, id: usize, area_height: u16) -> Option<
    (bool, bool, Seq<(Seq<char>, Option<Hue>, bool)>, (int, int, bool)),
> {
    match pane_position(s.panes, id) {
        None => None,
        Some(i) => {
            let p = s.panes[i];
            let ih = sat_sub(area_height as int, 2) as usize;
            Some(
                (
                    i == s.focused_pane,
                    s.zoomed_pane == Some(p.id),
                    title_spans(p, ih),
                    visible_window(p.logs.len() as int, ih as int, p.view_top_index),
                ),
            )
        },
    }
}

fn span(text: &str, hue: Option<Hue>, bold: bool) -> (s: TitleSpan)
    ensures
        s@ == (text@, hue, bold),
{
    TitleSpan { text: owned(text), hue, bold }
}

fn push_span(v: &mut Vec<TitleSpan>, s: TitleSpan)
    ensures
        final(v)@.map_values(|x: TitleSpan| x@) == old(v)@.map_values(|x: TitleSpan| x@).push(s@),
{
    v.push(s);
    assert(v@.map_values(|x: TitleSpan| x@) =~= old(v)@.map_values(|x: TitleSpan| x@).push(s@));
}

/// `marker`, the decimal `n`, and `]`.
fn counter_text(marker: &str, n: usize) -> (s: String)
    ensures
        s@ == counter(marker@, n as nat),
{
    let mut s = owned(marker);
    append_decimal(&mut s, n as u64);
    append_str(&mut s, "]");
    s
}

/// How the pane of process `pane_id` is framed in an area of `area_height`
/// rows; `None` when there is no such pane.
pub fn pane_chrome<L>(state: &DashboardState<L>, pane_id: usize, area_height: u16) -> (r: Option<PaneChrome>)
    ensures
        match r {
            None => chrome_of(state@, pane_id, area_height) is None,
            Some(c) => chrome_of(state@, pane_id, area_height) == Some(
                (
                    c.focused,
                    c.zoomed,
                    c.spans@.map_values(|x: TitleSpan| x@),
                    (c.window.start as int, c.window.end as int, c.window.is_scrolled),
                ),
            ),
        },
{
    let ghost v = state@.panes;
    let i = match pane_index(&state.panes, pane_id) {
        Some(i) => i,
        None => {
            return None;
        },
    };
    assert(v[i as int] == state.panes@[i as int]@);
    let pane = &state.panes[i];
    let inner_height: usize = if area_height >= 2 {
        (area_height - 2) as usize
    } else {
        0
    };
    let total = pane.logs.len();
    let window = Viewport::visible_range(total, inner_height, pane.view_top_index);
    let mut spans: Vec<TitleSpan> = Vec::new();
    if pane.state == ProcessState::Running {
        push_span(&mut spans, span(" [■]", Some(Hue::Red), false));
    } else {
        push_span(&mut spans, span(" [▶]", Some(Hue::Green), false));
    }
    push_span(&mut spans, span(" [↺]", Some(Hue::Yellow), false));
    push_span(&mut spans, span(" [↩]", Some(Hue::Cyan), false));
    push_span(&mut spans, span(" [⤢]", Some(Hue::LightMagenta), false));
    push_span(&mut spans, span(" [", None, false));
    let status = match pane.state {
        ProcessState::Running => span("RUNNING", Some(Hue::LightGreen), false),
        ProcessState::Stopped => span("STOPPED", Some(Hue::LightRed), false),
        ProcessState::ManuallyStopped => span("MANUAL STOP", Some(Hue::DarkGray), false),
        ProcessState::Restarting => span("RESTARTING", Some(Hue::LightYellow), false),
        ProcessState::PendingAutoRestart => span("PENDING", Some(Hue::LightCyan), false),
    };
    push_span(&mut spans, status);
    push_span(&mut spans, span("]", None, false));
    if pane.config.mode == PaneMode::Log {
        let scroll = if window.is_scrolled {
            counter_text(" [↕ ", total - window.end)
        } else {
            String::new()
        };
        push_span(&mut spans, TitleSpan { text: scroll, hue: Some(Hue::Magenta), bold: false });
        let mut marks = if pane.log_mode == LogMode::Wrap {
            owned(" [WRAP]")
        } else {
            String::new()
        };
        if pane.horizontal_scroll > 0 && pane.log_mode == LogMode::Truncate {
            let shift = counter_text(" [↔ ", pane.horizontal_scroll);
            append_str(&mut marks, shift.as_str());
        }
        push_span(&mut spans, TitleSpan { text: marks, hue: Some(Hue::Magenta), bold: false });
    } else if pane.tui_focused {
        push_span(&mut spans, span(" [TUI ⌨ ^X]", Some(Hue::LightCyan), true));
    } else {
        push_span(&mut spans, span(" [TUI ⊘ ↵]", Some(Hue::DarkGray), true));
    }
    let mut title = owned(" ");
    append_str(&mut title, pane.config.title.as_str());
    push_span(&mut spans, TitleSpan { text: title, hue: None, bold: false });
    let ghost p = v[i as int];
    assert(spans@.map_values(|x: TitleSpan| x@) =~= title_spans(p, inner_height));
    Some(
        PaneChrome {
            focused: i == state.focused_pane,
            zoomed: state.zoomed_pane == Some(pane.id),
            spans,
            window,
        },
    )
}

/// The colors of the combined log's prefixes, by process identifier.
pub open spec fn tag_hue(id: usize) -> Hue {
    let k = id % 6;
    if k == 0 {
        Hue::Cyan
    } else if k == 1 {
        Hue::Green
    } else if k == 2 {
        Hue::Yellow
    } else if k == 3 {
        Hue::Magenta
    } else if k == 4 {
        Hue::LightBlue
    } else {
        Hue::LightRed
    }
}

/// The color of the prefix of process `id`'s lines in the combined log.
pub fn combined_tag_hue(id: usize) -> (h: Hue)
    ensures
        h == tag_hue(id),
{
    let k = id % 6;
    if k == 0 {
        Hue::Cyan
    } else if k == 1 {
        Hue::Green
    } else if k == 2 {
        Hue::Yellow
    } else if k == 3 {
        Hue::Magenta
    } else if k == 4 {
        Hue::LightBlue
    } else {
        Hue::LightRed
    }
}

/// The longest title of the panes, in characters.
pub open spec fn longest_title<L>(panes: Seq<PaneView<L>>) -> nat
    decreases panes.len(),
{
    if panes.len() == 0 {
        0
    } else {
        let rest = longest_title(panes.drop_last());
        let n = panes.last().config.title@.len();
        if n > rest {
            n
        } else {
            rest
        }
    }
}

/// The name of process `id` in the combined log: its pane's title, or `?`.
pub open spec fn tag_name<L>(panes: Seq<PaneView<L>>, id: usize) -> Seq<char> {
    match pane_position(panes, id) {
        Some(i) => panes[i].config.title@,
        None => "?"@,
    }
}

/// `n` spaces.
pub open spec fn spaces(n: nat) -> Seq<char> {
    Seq::new(n, |i: int| ' ')
}

/// The prefix of a combined line: `[name] `, the name right-aligned to
/// `width` characters.
pub open spec fn tag_prefix(name: Seq<char>, width: nat) -> Seq<char> {
    "["@ + spaces(sat_sub(width as int, name.len() as int) as nat) + name + "] "@
}

/// The prefix of the lines of process `id` in the combined log.
pub fn combined_prefix<L>(state: &DashboardState<L>, id: usize) -> (s: String)
    ensures
        s@ == tag_prefix(tag_name(state@.panes, id), longest_title(state@.panes)),
{
    let ghost v = state@.panes;
    let mut width: usize = 0;
    let mut found: Option<usize> = None;
    let mut i: usize = 0;
    while i < state.panes.len()
        invariant
            i <= state.panes@.len(),
            v == state@.panes,
            width == longest_title(v.take(i as int)),
            match found {
                Some(k) => crate::inputs::is_first_pane(v, id, k as int),
                None => forall|j: int| 0 <= j < i ==> (#[trigger] v[j]).id != id,
            },
        decreases state.panes@.len() - i,
    {
        assert(v[i as int] == state.panes@[i as int]@);
        assert(v.take(i + 1).drop_last() =~= v.take(i as int));
        let n = state.panes[i].config.title.unicode_len();
        if n > width {
            width = n;
        }
        if found.is_none() && state.panes[i].id == id {
            found = Some(i);
        }
        i = i + 1;
    }
    assert(v.take(v.len() as int) =~= v);
    let name = match found {
        Some(k) => {
            proof {
                let c = choose|j: int| crate::inputs::is_first_pane(v, id, j);
                if c < k {
                    assert(v[c].id != id);
                } else if c > k {
                    assert(v[k as int].id != id);
                }
            }
            assert(v[k as int] == state.panes@[k as int]@);
            state.panes[k].config.title.as_str()
        },
        None => {
            proof {
                if exists|j: int| crate::inputs::is_first_pane(v, id, j) {
                    let c = choose|j: int| crate::inputs::is_first_pane(v, id, j);
                    assert(v[c].id != id);
                }
            }
            "?"
        },
    };
    let mut s = owned("[");
    let len = name.unicode_len();
    let pad = if width > len {
        width - len
    } else {
        0
    };
    let mut j: usize = 0;
    while j < pad
        invariant
            j <= pad,
            s@ == "["@ + spaces(j as nat),
        decreases pad - j,
    {
        push_char(&mut s, ' ');
        j = j + 1;
        assert(s@ =~= "["@ + spaces(j as nat));
    }
    append_str(&mut s, name);
    append_str(&mut s, "] ");
    s
}

/// The title of the combined log: how many lines lie below the view when
/// it is scrolled.
pub open spec fn combined_title_text(total: int, end: int, scrolled: bool) -> Seq<char> {
    if scrolled {
        " Combined Logs [SCROLLED: +"@ + decimal_text(sat_sub(total, end) as nat) + "] "@
    } else {
        " Combined Logs "@
    }
}

/// The title of the combined log shown through `window` of `total` lines.
pub fn combined_title(total: usize, window: Viewport) -> (s: String)
    ensures
        s@ == combined_title_text(total as int, window.end as int, window.is_scrolled),
{
    if window.is_scrolled {
        let below: usize = if total >= window.end {
            total - window.end
        } else {
            0
        };
        let mut s = owned(" Combined Logs [SCROLLED: +");
        append_decimal(&mut s, below as u64);
        append_str(&mut s, "] ");
        s
    } else {
        owned(" Combined Logs ")
    }
}

/// The header: the title between spaces.
pub fn header_text(title: &str) -> (s: String)
    ensures
        s@ == " "@ + title@ + " "@,
{
    let mut s = owned(" ");
    append_str(&mut s, title);
    append_str(&mut s, " ");
    s
}

/// The key help shown in the footer, for the combined log view or the grid.
pub open spec fn footer_help_text(show_combined_logs: bool) -> Seq<char> {
    if show_combined_logs {
        " [^A] Grid View | [p] Prefixes | [↕] Nav | [Enter] Tail "@
    } else {
        " [s] Start/Stop | [r] Restart | [^L] Clear | [w] Wrap | [z] Zoom | [^A] All Logs | [^Q] Quit "@
    }
}

/// The key help shown in the footer.
pub fn footer_help(show_combined_logs: bool) -> (s: &'static str)
    ensures
        s@ == footer_help_text(show_combined_logs),
{
    if show_combined_logs {
        " [^A] Grid View | [p] Prefixes | [↕] Nav | [Enter] Tail "
    } else {
        " [s] Start/Stop | [r] Restart | [^L] Clear | [w] Wrap | [z] Zoom | [^A] All Logs | [^Q] Quit "
    }
}

} // verus!
