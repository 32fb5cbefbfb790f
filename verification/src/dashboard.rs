//! The state of the dashboard: every pane, the combined log of all
//! processes, and what is shown.
use vstd::prelude::*;
use std::collections::VecDeque;
use crate::config::{PinchConfig, ProcessConfig};
use crate::inputs::{is_first_pane, pane_position};
use crate::layouts::{
    extends, geometries_for, layout_fits, memo_sound, place_panes, rect_at, split_of, SplitMemo, Splitter,
    Constraint, Direction, PaneGeometry, PaneTarget, Rect,
};
use crate::panes::{
    anchored_top, bounded_push, sat_sub, scrolled_down, scrolled_up, LogMode, PaneView, ProcessPane,
    ProcessState,
};
use crate::schema::LayoutNode;

verus! {

/// The dashboard. `L` is the type of a rendered log line.
pub struct DashboardState<L> {
    /// Title shown at the top.
    pub title: String,
    /// One pane per process, in configuration order.
    pub panes: Vec<ProcessPane<L>>,
    /// Index (into `panes`) of the pane that has the keyboard.
    pub focused_pane: usize,
    /// Identifier of the pane shown over the whole grid, if any.
    pub zoomed_pane: Option<usize>,
    /// Every process's lines with the identifier of their process, oldest first.
    pub combined_logs: VecDeque<(usize, L)>,
    /// Maximum number of combined lines kept (unbounded when absent).
    pub combined_logs_max_size: Option<usize>,
    /// Whether the combined log is shown instead of the grid.
    pub show_combined_logs: bool,
    /// Whether combined lines are prefixed with their process's title.
    pub show_combined_prefixes: bool,
    /// First visible combined line when scrolled; `None` follows the tail.
    pub global_view_top: Option<usize>,
    /// Rows available to the combined log.
    pub global_area_height: usize,
    /// Whether the dashboard is to close.
    pub should_quit: bool,
    /// The configured layout tree.
    pub layout: Vec<LayoutNode>,
    /// Pane geometries of the last layout pass.
    pub cached_geometries: Vec<PaneGeometry>,
    /// Grid area of the last layout pass.
    pub last_grid_area: Rect,
    /// Whether the layout must be computed again.
    pub layout_dirty: bool,
}

/// The dashboard by value.
#[verifier::ext_equal]
pub struct DashView<L> {
    pub title: Seq<char>,
    pub panes: Seq<PaneView<L>>,
    pub focused_pane: usize,
    pub zoomed_pane: Option<usize>,
    pub combined_logs: Seq<(usize, L)>,
    pub combined_logs_max_size: Option<usize>,
    pub show_combined_logs: bool,
    pub show_combined_prefixes: bool,
    pub global_view_top: Option<usize>,
    pub global_area_height: usize,
    pub should_quit: bool,
    pub layout: Seq<LayoutNode>,
    pub cached_geometries: Seq<PaneGeometry>,
    pub last_grid_area: Rect,
    pub layout_dirty: bool,
}

/// The views of `panes`.
pub open spec fn pane_views<L>(panes: Seq<ProcessPane<L>>) -> Seq<PaneView<L>> {
    panes.map_values(|p: ProcessPane<L>| p@)
}

impl<L> View for DashboardState<L> {
    type V = DashView<L>;

    open spec fn view(&self) -> DashView<L> {
        DashView {
            title: self.title@,
            panes: pane_views(self.panes@),
            focused_pane: self.focused_pane,
            zoomed_pane: self.zoomed_pane,
            combined_logs: self.combined_logs@,
            combined_logs_max_size: self.combined_logs_max_size,
            show_combined_logs: self.show_combined_logs,
            show_combined_prefixes: self.show_combined_prefixes,
            global_view_top: self.global_view_top,
            global_area_height: self.global_area_height,
            should_quit: self.should_quit,
            layout: self.layout@,
            cached_geometries: self.cached_geometries@,
            last_grid_area: self.last_grid_area,
            layout_dirty: self.layout_dirty,
        }
    }
}

/// A dashboard is well formed when the focused pane exists (or there are
/// no panes).
pub open spec fn focus_valid<L>(s: DashView<L>) -> bool {
    s.panes.len() == 0 || s.focused_pane < s.panes.len()
}

/// The pane of process `id` just created: stopped, empty, following the
/// tail of its log.
pub open spec fn fresh_pane<L>(id: usize, logs_max_size: Option<usize>, config: ProcessConfig) -> PaneView<L> {
    PaneView {
        id,
        config,
        logs: Seq::empty(),
        logs_max_size,
        state: ProcessState::Stopped,
        view_top_index: None,
        horizontal_scroll: 0,
        log_mode: LogMode::Truncate,
        tui_focused: true,
        last_size: None,
    }
}

/// Whether a view that starts at `top` can move down `by` lines without its
/// index overflowing.
pub open spec fn room_for(top: Option<usize>, by: usize) -> bool {
    match top {
        Some(t) => t + by <= usize::MAX,
        None => true,
    }
}

/// Whether a view that starts at `top` can move down `by` lines.
pub(crate) fn top_has_room(top: Option<usize>, by: usize) -> (b: bool)
    ensures
        b == room_for(top, by),
{
    match top {
        Some(v) => v <= usize::MAX - by,
        None => true,
    }
}

impl<L> DashboardState<L> {
    /// The dashboard of a prepared configuration: one stopped pane per
    /// process (its identifier is its index), the grid shown, the first pane
    /// focused, nothing zoomed.
    pub fn new(config: PinchConfig) -> (s: Self)
        ensures
            s@.title == config.title@,
            s@.panes.len() == config.processes@.len(),
            forall|i: int|
                0 <= i < s@.panes.len() ==> #[trigger] s@.panes[i] == fresh_pane::<L>(
                    i as usize,
                    config.logs_max_size,
                    config.processes@[i],
                ),
            s@.focused_pane == 0,
            s@.zoomed_pane.is_none(),
            s@.combined_logs == Seq::<(usize, L)>::empty(),
            s@.combined_logs_max_size == config.logs_max_size,
            !s@.show_combined_logs,
            !s@.show_combined_prefixes,
            s@.global_view_top.is_none(),
            s@.global_area_height == 24,
            !s@.should_quit,
            s@.layout == config.layout@,
            s@.cached_geometries == Seq::<PaneGeometry>::empty(),
            s@.last_grid_area == (Rect { x: 0, y: 0, width: 0, height: 0 }),
            s@.layout_dirty,
            focus_valid(s@),
    {
        let PinchConfig { title, processes, logs_max_size, layout } = config;
        let ghost all = processes@;
        let mut rest = processes;
        let total = rest.len();
        let mut panes: Vec<ProcessPane<L>> = Vec::new();
        let mut id: usize = 0;
        while rest.len() > 0
            invariant
                id <= all.len(),
                all.len() == total,
                rest@ == all.skip(id as int),
                panes@.len() == id,
                forall|i: int|
                    0 <= i < id ==> #[trigger] panes@[i]@ == fresh_pane::<L>(
                        i as usize,
                        logs_max_size,
                        all[i],
                    ),
            decreases rest@.len(),
        {
            let cfg = rest.remove(0);
            assert(all.skip(id + 1) =~= all.skip(id as int).remove(0));
            panes.push(ProcessPane::new(id, logs_max_size, cfg));
            id = id + 1;
        }
        let s = DashboardState {
            title,
            panes,
            focused_pane: 0,
            zoomed_pane: None,
            combined_logs: VecDeque::new(),
            combined_logs_max_size: logs_max_size,
            show_combined_logs: false,
            show_combined_prefixes: false,
            global_view_top: None,
            global_area_height: 24,
            should_quit: false,
            layout,
            cached_geometries: Vec::new(),
            last_grid_area: Rect::zero(),
            layout_dirty: true,
        };
        assert forall|i: int| 0 <= i < s@.panes.len() implies #[trigger] s@.panes[i] == fresh_pane::<L>(
            i as usize,
            logs_max_size,
            all[i],
        ) by {
            assert(s@.panes[i] == s.panes@[i]@);
        }
        s
    }

    /// Appends a line of process `id` to the combined log, dropping the
    /// oldest one when it is full; a scrolled view moves along so it keeps
    /// showing the same lines.
    pub fn add_global_line(&mut self, id: usize, line: L)
        ensures
            final(self)@ == (DashView {
                combined_logs: bounded_push(old(self)@.combined_logs, (id, line), old(self)@.combined_logs_max_size),
                global_view_top: anchored_top(
                    old(self)@.combined_logs.len(),
                    old(self)@.global_view_top,
                    old(self)@.combined_logs_max_size,
                ),
                ..old(self)@
            }),
    {
        self.combined_logs.push_back((id, line));
        let max = match self.combined_logs_max_size {
            Some(m) => m,
            None => {
                return;
            },
        };
        if self.combined_logs.len() <= max {
            return;
        }
        let _ = self.combined_logs.pop_front();
        match self.global_view_top {
            Some(top) => {
                self.global_view_top = Some(
                    if top >= 1 {
                        top - 1
                    } else {
                        0
                    },
                );
            },
            None => {},
        }
    }

    /// Scrolls the combined log up by `amount` lines.
    pub fn scroll_up(&mut self, amount: usize)
        ensures
            final(self)@ == (DashView {
                global_view_top: scrolled_up(
                    old(self)@.global_view_top,
                    old(self)@.combined_logs.len(),
                    amount,
                    old(self)@.global_area_height,
                ),
                ..old(self)@
            }),
    {
        let len = self.combined_logs.len();
        let current = match self.global_view_top {
            Some(top) => top,
            None => if len >= self.global_area_height {
                len - self.global_area_height
            } else {
                0
            },
        };
        self.global_view_top = Some(
            if current >= amount {
                current - amount
            } else {
                0
            },
        );
    }

    /// Scrolls the combined log down by `amount` lines; reaching the last
    /// page goes back to following the tail.
    pub fn scroll_down(&mut self, amount: usize)
        requires
            match old(self).global_view_top {
                Some(t) => t + amount <= usize::MAX,
                None => true,
            },
        ensures
            final(self)@ == (DashView {
                global_view_top: scrolled_down(
                    old(self)@.global_view_top,
                    old(self)@.combined_logs.len(),
                    amount,
                    old(self)@.global_area_height,
                ),
                ..old(self)@
            }),
    {
        let top = match self.global_view_top {
            Some(t) => t,
            None => {
                return;
            },
        };
        let next = top + amount;
        let len = self.combined_logs.len();
        let last_page = if len >= self.global_area_height {
            len - self.global_area_height
        } else {
            0
        };
        if next >= last_page {
            self.global_view_top = None;
            return;
        }
        self.global_view_top = Some(next);
    }

    /// Zooms pane `id`, or unzooms it when it is the zoomed one; the layout
    /// is computed again.
    pub fn toggle_zoom(&mut self, id: usize)
        ensures
            final(self)@ == (DashView {
                zoomed_pane: if old(self)@.zoomed_pane == Some(id) {
                    None
                } else {
                    Some(id)
                },
                layout_dirty: true,
                ..old(self)@
            }),
    {
        self.zoomed_pane = if self.zoomed_pane == Some(id) {
            None
        } else {
            Some(id)
        };
        self.layout_dirty = true;
    }
}


/// The grid area of a terminal of `width` by `height` cells: all rows but
/// the header's and the footer's.
pub open spec fn screen_grid(m: SplitMemo, width: u16, height: u16) -> Rect {
    split_of(
        m,
        rect_at(0, 0, width, height),
        Direction::Vertical,
        seq![Constraint::Length(1), Constraint::Min(0), Constraint::Length(1)],
    )[1]
}

/// Sizing the terminals of the panes laid out in `geoms[k..]`: each
/// process pane's terminal gets its area without borders (a zoomed pane
/// keeps its full width); a terminal whose size changes is to be resized.
/// Gives the panes and the resizes `(id, columns, rows)`.
pub open spec fn resize_from<L>(
    panes: Seq<PaneView<L>>,
    geoms: Seq<PaneGeometry>,
    k: int,
    zoomed: Option<usize>,
) -> (Seq<PaneView<L>>, Seq<(usize, u16, u16)>)
    decreases geoms.len() - k,
{
    if k < 0 || k >= geoms.len() {
        (panes, Seq::empty())
    } else {
        let geo = geoms[k];
        let (next, out) = match geo.target {
            PaneTarget::Process(pid) => match pane_position(panes, pid) {
                Some(i) => {
                    let p = panes[i];
                    let rows = sat_sub(geo.area.height as int, 2) as u16;
                    let cols = if zoomed == Some(p.id) {
                        geo.area.width
                    } else {
                        sat_sub(geo.area.width as int, 2) as u16
                    };
                    if cols > 0 && rows > 0 && p.last_size != Some((cols, rows)) {
                        (panes.update(i, PaneView { last_size: Some((cols, rows)), ..p }), seq![(pid, cols, rows)])
                    } else {
                        (panes, Seq::empty())
                    }
                },
                None => (panes, Seq::empty()),
            },
            PaneTarget::CombinedLogs => (panes, Seq::empty()),
        };
        let (last, rest) = resize_from(next, geoms, k + 1, zoomed);
        (last, out + rest)
    }
}

/// Whether fitting the panes' terminals to a terminal of `width` by
/// `height` cells can place the layout when it has to be computed again.
pub open spec fn sync_fits<L>(m: SplitMemo, s: DashView<L>, raw: Seq<ProcessPane<L>>, width: u16, height: u16) -> bool {
    ||| s.panes.len() == 0
    ||| s.show_combined_logs
    ||| !(s.layout_dirty || s.last_grid_area != screen_grid(m, width, height))
    ||| layout_fits(m, screen_grid(m, width, height), raw, s.zoomed_pane, s.layout)
}

/// Fitting the panes' terminals to a terminal of `width` by `height`
/// cells: nothing in the combined log view; else the layout is computed
/// again when it is stale or the grid moved, then every pane's terminal is
/// sized to its area. `raw` are the panes themselves.
pub open spec fn sync_outcome<L>(
    m: SplitMemo,
    s: DashView<L>,
    raw: Seq<ProcessPane<L>>,
    width: u16,
    height: u16,
) -> (DashView<L>, Seq<(usize, u16, u16)>) {
    if s.panes.len() == 0 || s.show_combined_logs {
        (s, Seq::empty())
    } else {
        let grid = screen_grid(m, width, height);
        let s1 = if s.layout_dirty || s.last_grid_area != grid {
            DashView {
                cached_geometries: geometries_for(m, grid, raw, s.zoomed_pane, s.layout),
                last_grid_area: grid,
                layout_dirty: false,
                ..s
            }
        } else {
            s
        };
        let (panes, out) = resize_from(s1.panes, s1.cached_geometries, 0, s1.zoomed_pane);
        (DashView { panes, ..s1 }, out)
    }
}

/// The index of the first pane of process `id`.
pub(crate) fn pane_index<L>(panes: &Vec<ProcessPane<L>>, id: usize) -> (r: Option<usize>)
    ensures
        match r {
            Some(i) => pane_position(pane_views(panes@), id) == Some(i as int) && i < panes@.len(),
            None => pane_position(pane_views(panes@), id) is None,
        },
{
    let ghost v = pane_views(panes@);
    let mut i: usize = 0;
    while i < panes.len()
        invariant
            i <= panes@.len(),
            v == pane_views(panes@),
            forall|j: int| 0 <= j < i ==> (#[trigger] v[j]).id != id,
        decreases panes@.len() - i,
    {
        assert(v[i as int] == panes@[i as int]@);
        if panes[i].id == id {
            proof {
                assert(is_first_pane(v, id, i as int));
                let c = choose|k: int| is_first_pane(v, id, k);
                if c < i {
                    assert(v[c].id != id);
                } else if c > i {
                    assert(v[i as int].id != id);
                }
            }
            return Some(i);
        }
        i = i + 1;
    }
    proof {
        if exists|k: int| is_first_pane(v, id, k) {
            let c = choose|k: int| is_first_pane(v, id, k);
            assert(v[c].id != id);
        }
    }
    None
}

/// The outcome `r` and new dashboard `after` of fitting the terminals, the
/// splits being those of `m`: when the layout can be placed, the dashboard
/// and the resizes `sync_outcome` gives; else `None` and no change.
pub open spec fn synced_as<L>(
    m: SplitMemo,
    before: DashView<L>,
    raw: Seq<ProcessPane<L>>,
    width: u16,
    height: u16,
    after: DashView<L>,
    r: Option<Vec<(usize, u16, u16)>>,
) -> bool {
    match r {
        Some(v) => sync_fits(m, before, raw, width, height) && after == sync_outcome(m, before, raw, width, height).0
            && v@ == sync_outcome(m, before, raw, width, height).1,
        None => !sync_fits(m, before, raw, width, height) && after == before,
    }
}

impl<L> DashboardState<L> {
    /// Fits the panes' terminals to a terminal of `term_width` by
    /// `term_height` cells; gives the terminals to resize as `(id, columns,
    /// rows)`.
    pub fn sync_pty_sizes(&mut self, term_width: u16, term_height: u16) -> (r: Option<Vec<(usize, u16, u16)>>)
        ensures
            exists|m: SplitMemo|
                memo_sound(m) && #[trigger] synced_as(
                    m,
                    old(self)@,
                    old(self).panes@,
                    term_width,
                    term_height,
                    final(self)@,
                    r,
                ),
    {
        let mut out: Vec<(usize, u16, u16)> = Vec::new();
        let mut splitter = Splitter::new();
        proof {
            splitter.lemma_sound();
        }
        if self.panes.len() == 0 || self.show_combined_logs {
            assert(synced_as(splitter.memo(), self@, self.panes@, term_width, term_height, self@, Some(out)));
            return Some(out);
        }
        let ghost old_view = self@;
        let ghost old_raw = self.panes@;
        let full_area = Rect::new(0, 0, term_width, term_height);
        let mut screen: Vec<Constraint> = Vec::new();
        screen.push(Constraint::Length(1));
        screen.push(Constraint::Min(0));
        screen.push(Constraint::Length(1));
        assert(screen@ =~= seq![Constraint::Length(1), Constraint::Min(0), Constraint::Length(1)]);
        let ghost sc = screen@;
        let chunks = splitter.split(full_area, Direction::Vertical, screen);
        let ghost memo1 = splitter.memo();
        let grid_area = chunks[1];
        if self.layout_dirty || self.last_grid_area != grid_area {
            let placed = place_panes(
                &mut splitter,
                grid_area,
                self.panes.as_slice(),
                self.zoomed_pane,
                self.layout.as_slice(),
            );
            proof {
                splitter.lemma_sound();
                assert(extends(splitter.memo(), splitter.memo()));
                assert(split_of(splitter.memo(), full_area, Direction::Vertical, sc) == chunks@);
            }
            match placed {
                Some(g) => self.cached_geometries = g,
                None => {
                    assert(synced_as(splitter.memo(), old_view, old_raw, term_width, term_height, self@, None));
                    return None;
                },
            }
            self.last_grid_area = grid_area;
            self.layout_dirty = false;
        }
        let ghost mf = splitter.memo();
        proof {
            splitter.lemma_sound();
            assert(extends(mf, memo1));
            assert(extends(mf, mf));
            assert(split_of(mf, full_area, Direction::Vertical, sc) == chunks@);
        }
        let ghost s1 = self@;
        let ghost target = resize_from(s1.panes, s1.cached_geometries, 0, s1.zoomed_pane);
        let mut k: usize = 0;
        while k < self.cached_geometries.len()
            invariant
                k <= self@.cached_geometries.len(),
                self@ == (DashView { panes: self@.panes, ..s1 }),
                resize_from(self@.panes, s1.cached_geometries, k as int, s1.zoomed_pane).0 == target.0,
                out@ + resize_from(self@.panes, s1.cached_geometries, k as int, s1.zoomed_pane).1 == target.1,
            decreases self@.cached_geometries.len() - k,
        {
            let geo = self.cached_geometries[k];
            let ghost before = self@.panes;
            let ghost before_raw = self.panes@;
            if let PaneTarget::Process(proc_id) = geo.target {
                if let Some(i) = pane_index(&self.panes, proc_id) {
                    assert(before[i as int] == before_raw[i as int]@);
                    let rows: u16 = if geo.area.height >= 2 {
                        geo.area.height - 2
                    } else {
                        0
                    };
                    let cols: u16 = if self.zoomed_pane == Some(self.panes[i].id) {
                        geo.area.width
                    } else if geo.area.width >= 2 {
                        geo.area.width - 2
                    } else {
                        0
                    };
                    if cols > 0 && rows > 0 && self.panes[i].last_size != Some((cols, rows)) {
                        self.panes[i].last_size = Some((cols, rows));
                        let ghost out_before = out@;
                        out.push((proc_id, cols, rows));
                        assert(pane_views(self.panes@) =~= before.update(
                            i as int,
                            PaneView { last_size: Some((cols, rows)), ..before[i as int] },
                        ));
                        assert(out@ + resize_from(self@.panes, s1.cached_geometries, k + 1, s1.zoomed_pane).1
                            =~= out_before + (seq![(proc_id, cols, rows)] + resize_from(
                            self@.panes,
                            s1.cached_geometries,
                            k + 1,
                            s1.zoomed_pane,
                        ).1));
                    } else {
                        assert(out@ + resize_from(self@.panes, s1.cached_geometries, k + 1, s1.zoomed_pane).1
                            =~= out@ + (Seq::empty() + resize_from(
                            self@.panes,
                            s1.cached_geometries,
                            k + 1,
                            s1.zoomed_pane,
                        ).1));
                    }
                } else {
                    assert(out@ + resize_from(self@.panes, s1.cached_geometries, k + 1, s1.zoomed_pane).1
                        =~= out@ + (Seq::empty() + resize_from(
                        self@.panes,
                        s1.cached_geometries,
                        k + 1,
                        s1.zoomed_pane,
                    ).1));
                }
            } else {
                assert(out@ + resize_from(self@.panes, s1.cached_geometries, k + 1, s1.zoomed_pane).1
                    =~= out@ + (Seq::empty() + resize_from(
                    self@.panes,
                    s1.cached_geometries,
                    k + 1,
                    s1.zoomed_pane,
                ).1));
            }
            k = k + 1;
        }
        assert(out@ + Seq::<(usize, u16, u16)>::empty() =~= out@);
        assert(synced_as(mf, old_view, old_raw, term_width, term_height, self@, Some(out)));
        Some(out)
    }
}

} // verus!
