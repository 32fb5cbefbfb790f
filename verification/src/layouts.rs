//! Screen geometry of the dashboard: rectangles, visible windows of a log,
//! and the placement of panes according to the configured layout tree.
use vstd::prelude::*;
use std::collections::HashSet;
use ratatui::layout::{
    Constraint as TuiConstraint, Direction as TuiDirection, Layout as TuiLayout, Rect as TuiRect,
};
use crate::schema::{LayoutNode, LayoutEdge, LayoutDirection};
use crate::panes::{ProcessPane, sat_sub};
use crate::text::str_eq;

verus! {

broadcast use vstd::std_specs::hash::group_hash_axioms;

/// A rectangle of terminal cells.
#[derive(Debug, Clone, Copy, PartialEq, Eq, Hash, Structural)]
pub struct Rect {
    pub x: u16,
    pub y: u16,
    pub width: u16,
    pub height: u16,
}

/// The rectangle at `(x, y)` with its size clamped so that it ends within
/// the `u16` coordinate space.
pub open spec fn rect_at(x: u16, y: u16, width: u16, height: u16) -> Rect {
    Rect {
        x,
        y,
        width: if width + x > u16::MAX {
            (u16::MAX - x) as u16
        } else {
            width
        },
        height: if height + y > u16::MAX {
            (u16::MAX - y) as u16
        } else {
            height
        },
    }
}

/// Whether the cell `(x, y)` lies inside `r`.
pub open spec fn contains_cell(r: Rect, x: u16, y: u16) -> bool {
    x >= r.x && x < r.x + r.width && y >= r.y && y < r.y + r.height
}

impl Rect {
    /// A rectangle, its size clamped to the coordinate space (as
    /// `ratatui::layout::Rect::new` does).
    pub fn new(x: u16, y: u16, width: u16, height: u16) -> (r: Rect)
        ensures
            r == rect_at(x, y, width, height),
    {
        let max_width = u16::MAX - x;
        let max_height = u16::MAX - y;
        Rect {
            x,
            y,
            width: if width > max_width {
                max_width
            } else {
                width
            },
            height: if height > max_height {
                max_height
            } else {
                height
            },
        }
    }

    /// The empty rectangle at the origin.
    pub fn zero() -> (r: Rect)
        ensures
            r == (Rect { x: 0, y: 0, width: 0, height: 0 }),
    {
        Rect { x: 0, y: 0, width: 0, height: 0 }
    }
}

/// Hit testing of screen cells.
pub trait RectHitTest {
    /// Whether the cell `(x, y)` lies inside the area.
    fn hit(&self, x: u16, y: u16) -> bool;
}

impl RectHitTest for Rect {
    /// The comparison is made in wider integers, so a rectangle that reaches
    /// the end of the coordinate space is handled too.
    fn hit(&self, x: u16, y: u16) -> (r: bool)
        ensures
            r == contains_cell(*self, x, y),
    {
        let right: u32 = self.x as u32 + self.width as u32;
        let bottom: u32 = self.y as u32 + self.height as u32;
        x >= self.x && (x as u32) < right && y >= self.y && (y as u32) < bottom
    }
}

/// Axis along which an area is split.
#[derive(Debug, Clone, Copy, PartialEq, Eq, Structural)]
pub enum Direction {
    /// Children side by side, left to right.
    Horizontal,
    /// Children stacked, top to bottom.
    Vertical,
}

/// Size requested for one part of a split.
#[derive(Debug, Clone, Copy, PartialEq, Eq, Structural)]
pub enum Constraint {
    Min(u16),
    Length(u16),
    Percentage(u16),
    Ratio(u32, u32),
}

/// A record of splits made: for an area, a direction and constraints, the
/// parts that `ratatui`'s layout solver gave. The solver (cassowary) walks
/// hash maps seeded anew for each solve, so where a layout has more than one
/// optimal solution two solves may give different parts; a record holds the
/// one this computation used.
pub type SplitMemo = Map<(Rect, Direction, Seq<Constraint>), Seq<Rect>>;

/// Every part keeps the cross axis of `area` and lies within `area` along
/// the split axis.
pub open spec fn parts_along(area: Rect, direction: Direction, parts: Seq<Rect>) -> bool {
    forall|i: int|
        0 <= i < parts.len() ==> match direction {
            Direction::Horizontal => #[trigger] parts[i].y == area.y && parts[i].height == area.height
                && area.x <= parts[i].x && parts[i].x + parts[i].width <= area.x + area.width,
            Direction::Vertical => parts[i].x == area.x && parts[i].width == area.width
                && area.y <= parts[i].y && parts[i].y + parts[i].height <= area.y + area.height,
        }
}

/// What every solve gives: one part per constraint, each keeping the cross
/// axis and lying within the area.
pub open spec fn parts_fit(area: Rect, direction: Direction, n: nat, parts: Seq<Rect>) -> bool {
    parts.len() == n && parts_along(area, direction, parts)
}

/// Parts for a split that was not made: empty parts at the start of `area`.
pub open spec fn unmade_parts(area: Rect, direction: Direction, n: nat) -> Seq<Rect> {
    Seq::new(
        n,
        |i: int|
            match direction {
                Direction::Horizontal => Rect { x: area.x, y: area.y, width: 0, height: area.height },
                Direction::Vertical => Rect { x: area.x, y: area.y, width: area.width, height: 0 },
            },
    )
}

/// The parts of a split as recorded in `m`.
pub open spec fn split_of(m: SplitMemo, area: Rect, direction: Direction, constraints: Seq<Constraint>) -> Seq<Rect> {
    if m.contains_key((area, direction, constraints)) {
        m[(area, direction, constraints)]
    } else {
        unmade_parts(area, direction, constraints.len())
    }
}

/// Every recorded split is one the solver could give.
pub open spec fn memo_sound(m: SplitMemo) -> bool {
    forall|k: (Rect, Direction, Seq<Constraint>)| #[trigger] m.contains_key(k) ==> parts_fit(k.0, k.1, k.2.len(), m[k])
}

/// `m` holds every split of `base`, with the same parts.
pub open spec fn extends(m: SplitMemo, base: SplitMemo) -> bool {
    forall|k: (Rect, Direction, Seq<Constraint>)| #[trigger] base.contains_key(k) ==> m.contains_key(k) && m[k] == base[k]
}

proof fn lemma_extends_trans(a: SplitMemo, b: SplitMemo, c: SplitMemo)
    requires
        extends(a, b),
        extends(b, c),
    ensures
        extends(a, c),
{
}

proof fn lemma_sound_split_of(m: SplitMemo, area: Rect, direction: Direction, constraints: Seq<Constraint>)
    requires
        memo_sound(m),
    ensures
        parts_fit(area, direction, constraints.len(), split_of(m, area, direction, constraints)),
{
    if m.contains_key((area, direction, constraints)) {
        assert(parts_fit(area, direction, constraints.len(), m[(area, direction, constraints)]));
    }
}

/// Splits `area` with `ratatui::layout::Layout::split` (no margin, no
/// spacing). Trusted, for every solve: the result has one part per
/// constraint, and each part keeps the cross axis of `area` and lies within
/// it along the split axis (every solver variable is held by a required
/// constraint within the area's bounds, and a part runs from one variable to
/// a later one). The exact positions are not stated: they depend on the
/// solver's run.
#[verifier::external_body]
fn split_area(area: Rect, direction: Direction, constraints: Vec<Constraint>) -> (parts: Vec<Rect>)
    ensures
        parts_fit(area, direction, constraints@.len(), parts@),
{
    let dir = match direction {
        Direction::Horizontal => TuiDirection::Horizontal,
        Direction::Vertical => TuiDirection::Vertical,
    };
    let cs = constraints.iter().map(|c| match *c {
        Constraint::Min(v) => TuiConstraint::Min(v),
        Constraint::Length(v) => TuiConstraint::Length(v),
        Constraint::Percentage(v) => TuiConstraint::Percentage(v),
        Constraint::Ratio(a, b) => TuiConstraint::Ratio(a, b),
    });
    let whole = TuiRect { x: area.x, y: area.y, width: area.width, height: area.height };
    let parts = TuiLayout::new(dir, cs).split(whole);
    parts.iter().map(|r| Rect { x: r.x, y: r.y, width: r.width, height: r.height }).collect()
}

/// The key of a recorded split.
pub open spec fn split_key(e: (Rect, Direction, Vec<Constraint>, Vec<Rect>)) -> (Rect, Direction, Seq<Constraint>) {
    (e.0, e.1, e.2@)
}

/// The splits one layout computation has made, so that a split asked for
/// twice gives the same parts both times.
pub struct Splitter {
    entries: Vec<(Rect, Direction, Vec<Constraint>, Vec<Rect>)>,
    memo: Ghost<SplitMemo>,
}

fn copy_constraints(v: &Vec<Constraint>) -> (r: Vec<Constraint>)
    ensures
        r@ == v@,
{
    let mut r: Vec<Constraint> = Vec::new();
    let mut i: usize = 0;
    while i < v.len()
        invariant
            i <= v@.len(),
            r@ == v@.take(i as int),
        decreases v@.len() - i,
    {
        r.push(v[i]);
        assert(r@ =~= v@.take(i + 1));
        i = i + 1;
    }
    assert(r@ =~= v@);
    r
}

fn copy_rects(v: &Vec<Rect>) -> (r: Vec<Rect>)
    ensures
        r@ == v@,
{
    let mut r: Vec<Rect> = Vec::new();
    let mut i: usize = 0;
    while i < v.len()
        invariant
            i <= v@.len(),
            r@ == v@.take(i as int),
        decreases v@.len() - i,
    {
        r.push(v[i]);
        assert(r@ =~= v@.take(i + 1));
        i = i + 1;
    }
    assert(r@ =~= v@);
    r
}

fn same_constraints(a: &Vec<Constraint>, b: &Vec<Constraint>) -> (r: bool)
    ensures
        r == (a@ == b@),
{
    if a.len() != b.len() {
        return false;
    }
    let mut i: usize = 0;
    while i < a.len()
        invariant
            i <= a@.len(),
            a@.len() == b@.len(),
            a@.take(i as int) == b@.take(i as int),
        decreases a@.len() - i,
    {
        if a[i] != b[i] {
            assert(a@[i as int] != b@[i as int]);
            return false;
        }
        assert(a@.take(i + 1) =~= a@.take(i as int).push(a@[i as int]));
        assert(b@.take(i + 1) =~= b@.take(i as int).push(b@[i as int]));
        i = i + 1;
    }
    assert(a@ =~= a@.take(a@.len() as int));
    assert(b@ =~= b@.take(b@.len() as int));
    true
}

impl Splitter {
    /// The record is sound and lists exactly the entries.
    pub closed spec fn wf(&self) -> bool {
        &&& memo_sound(self.memo@)
        &&& forall|i: int|
            0 <= i < self.entries@.len() ==> self.memo@.contains_key(#[trigger] split_key(self.entries@[i]))
                && self.memo@[split_key(self.entries@[i])] == self.entries@[i].3@
        &&& forall|k: (Rect, Direction, Seq<Constraint>)|
            #[trigger] self.memo@.contains_key(k) ==> exists|i: int|
                0 <= i < self.entries@.len() && split_key(self.entries@[i]) == k
    }

    /// The splits made so far.
    pub closed spec fn memo(&self) -> SplitMemo {
        self.memo@
    }

    /// The splits made so far are ones the solver could give.
    pub proof fn lemma_sound(&self)
        requires
            self.wf(),
        ensures
            memo_sound(self.memo()),
    {
    }

    /// No split made yet.
    pub fn new() -> (s: Splitter)
        ensures
            s.wf(),
            s.memo() == Map::<(Rect, Direction, Seq<Constraint>), Seq<Rect>>::empty(),
    {
        Splitter { entries: Vec::new(), memo: Ghost(Map::empty()) }
    }

    /// Splits `area`: the parts recorded for this split, or a new solve,
    /// which is then recorded.
    pub fn split(&mut self, area: Rect, direction: Direction, constraints: Vec<Constraint>) -> (parts: Vec<Rect>)
        requires
            old(self).wf(),
        ensures
            final(self).wf(),
            memo_sound(final(self).memo()),
            extends(final(self).memo(), old(self).memo()),
            final(self).memo().contains_key((area, direction, constraints@)),
            parts@ == final(self).memo()[(area, direction, constraints@)],
            parts_fit(area, direction, constraints@.len(), parts@),
    {
        let mut i: usize = 0;
        while i < self.entries.len()
            invariant
                i <= self.entries@.len(),
                self.wf(),
                forall|j: int| 0 <= j < i ==> split_key(self.entries@[j]) != (area, direction, constraints@),
            decreases self.entries@.len() - i,
        {
            let e = &self.entries[i];
            if e.0 == area && e.1 == direction && same_constraints(&e.2, &constraints) {
                assert(split_key(self.entries@[i as int]) == (area, direction, constraints@));
                let parts = copy_rects(&e.3);
                assert(self.memo@.contains_key(split_key(self.entries@[i as int])));
                return parts;
            }
            i = i + 1;
        }
        let key_cs = copy_constraints(&constraints);
        let parts = split_area(area, direction, constraints);
        let kept = copy_rects(&parts);
        let ghost old_memo = self.memo@;
        let ghost old_entries = self.entries@;
        proof {
            assert(!old_memo.contains_key((area, direction, key_cs@)));
        }
        self.entries.push((area, direction, key_cs, kept));
        self.memo = Ghost(old_memo.insert((area, direction, key_cs@), parts@));
        proof {
            assert forall|j: int| 0 <= j < self.entries@.len() implies self.memo@.contains_key(
                #[trigger] split_key(self.entries@[j]),
            ) && self.memo@[split_key(self.entries@[j])] == self.entries@[j].3@ by {
                if j < old_entries.len() {
                    assert(self.entries@[j] == old_entries[j]);
                }
            }
            assert forall|k: (Rect, Direction, Seq<Constraint>)| #[trigger] self.memo@.contains_key(k) implies exists|
                j: int,
            | 0 <= j < self.entries@.len() && split_key(self.entries@[j]) == k by {
                if k == (area, direction, key_cs@) {
                    assert(split_key(self.entries@[old_entries.len() as int]) == k);
                } else {
                    let j = choose|j: int| 0 <= j < old_entries.len() && split_key(old_entries[j]) == k;
                    assert(self.entries@[j] == old_entries[j]);
                }
            }
        }
        parts
    }
}

/// The window of a log that is shown: lines `start..end`.
#[derive(Debug, Clone, Copy, PartialEq, Eq, Structural)]
pub struct Viewport {
    pub start: usize,
    pub end: usize,
    pub is_scrolled: bool,
}

/// The window shown of `total` lines in `height` rows: the tail when
/// following it, else from `top`, moved up so that the last page is full.
pub open spec fn visible_window(total: int, height: int, top: Option<usize>) -> (int, int, bool) {
    match top {
        None => (sat_sub(total, height), total, false),
        Some(t) => {
            let last_page = sat_sub(total, height);
            let first = if t <= last_page {
                t as int
            } else {
                last_page
            };
            (first, if first + height <= total {
                first + height
            } else {
                total
            }, true)
        },
    }
}

impl Viewport {
    /// The lines of a log of `total_items` lines that fit in
    /// `available_height` rows.
    pub fn visible_range(total_items: usize, available_height: usize, top_index: Option<usize>) -> (v: Viewport)
        ensures
            (v.start as int, v.end as int, v.is_scrolled) == visible_window(
                total_items as int,
                available_height as int,
                top_index,
            ),
            v.start <= v.end <= total_items,
    {
        let last_page = if total_items >= available_height {
            total_items - available_height
        } else {
            0
        };
        match top_index {
            None => Viewport { start: last_page, end: total_items, is_scrolled: false },
            Some(top) => {
                let first = if top <= last_page {
                    top
                } else {
                    last_page
                };
                let end = if available_height <= total_items - first {
                    first + available_height
                } else {
                    total_items
                };
                Viewport { start: first, end, is_scrolled: true }
            },
        }
    }
}

/// What a pane of the layout shows.
#[derive(Debug, Clone, Copy, PartialEq, Eq, Structural)]
pub enum PaneTarget {
    /// The process with this identifier.
    Process(usize),
    /// The merged log of all processes.
    CombinedLogs,
}

/// Where a pane is drawn, with the clickable buttons of its title bar.
#[derive(Debug, Clone, Copy, PartialEq, Eq, Structural)]
pub struct PaneGeometry {
    pub target: PaneTarget,
    pub area: Rect,
    pub toggle_area: Rect,
    pub restart_area: Rect,
    pub wrap_area: Rect,
    pub zoom_area: Rect,
    pub link_area: Rect,
}

/// `a + b`, or `u16::MAX` when that does not fit.
pub open spec fn sat_add16(a: u16, b: u16) -> u16 {
    if a + b > u16::MAX {
        u16::MAX
    } else {
        (a + b) as u16
    }
}

/// A one-row button of `width` cells at `(x, y)`, cut at the right edge of
/// `pane`; empty when it starts past that edge or the pane has no rows.
pub open spec fn button_rect(x: u16, y: u16, width: u16, pane: Rect) -> Rect {
    let max_x = sat_add16(pane.x, pane.width);
    let fits = x < max_x && pane.height > 0;
    let w: u16 = if !fits {
        0
    } else if width <= max_x - x {
        width
    } else {
        (max_x - x) as u16
    };
    rect_at(x, y, w, if fits {
        1
    } else {
        0
    })
}

/// The geometry of a pane over `area`: five buttons of four cells each,
/// one cell in from the left border of the title bar.
pub open spec fn geometry_of(target: PaneTarget, area: Rect) -> PaneGeometry {
    let bx = sat_add16(area.x, 1);
    PaneGeometry {
        target,
        area,
        toggle_area: button_rect(bx, area.y, 4, area),
        restart_area: button_rect(sat_add16(bx, 4), area.y, 4, area),
        wrap_area: button_rect(sat_add16(bx, 8), area.y, 4, area),
        zoom_area: button_rect(sat_add16(bx, 12), area.y, 4, area),
        link_area: button_rect(sat_add16(bx, 16), area.y, 4, area),
    }
}

fn sat_add_u16(a: u16, b: u16) -> (r: u16)
    ensures
        r == sat_add16(a, b),
{
    if a <= u16::MAX - b {
        a + b
    } else {
        u16::MAX
    }
}

impl PaneGeometry {
    /// The geometry of a pane over `area`, its buttons kept within it.
    pub fn new(target: PaneTarget, area: Rect) -> (g: PaneGeometry)
        ensures
            g == geometry_of(target, area),
    {
        let base_x = sat_add_u16(area.x, 1);
        let base_y = area.y;
        PaneGeometry {
            target,
            area,
            toggle_area: Self::bounded_button_rect(base_x, base_y, 4, area),
            restart_area: Self::bounded_button_rect(sat_add_u16(base_x, 4), base_y, 4, area),
            wrap_area: Self::bounded_button_rect(sat_add_u16(base_x, 8), base_y, 4, area),
            zoom_area: Self::bounded_button_rect(sat_add_u16(base_x, 12), base_y, 4, area),
            link_area: Self::bounded_button_rect(sat_add_u16(base_x, 16), base_y, 4, area),
        }
    }

    fn bounded_button_rect(x: u16, y: u16, width: u16, pane_area: Rect) -> (r: Rect)
        ensures
            r == button_rect(x, y, width, pane_area),
    {
        let max_x = sat_add_u16(pane_area.x, pane_area.width);
        let fits = x < max_x && pane_area.height > 0;
        let w = if !fits {
            0
        } else if width <= max_x - x {
            width
        } else {
            max_x - x
        };
        let h = if fits {
            1
        } else {
            0
        };
        Rect::new(x, y, w, h)
    }
}

/// What a layout pass has produced so far.
pub struct LayoutPass {
    /// Placed panes, in order.
    pub geometries: Seq<PaneGeometry>,
    /// Processes already placed.
    pub assigned: Set<usize>,
    /// Whether the combined log is placed.
    pub combined: bool,
    /// The first node that holds the panes no node names, and its direction.
    pub container: Option<(Rect, Option<LayoutDirection>)>,
}

/// Whether `i` is the first pane named `name`.
pub open spec fn is_first_named<L>(panes: Seq<ProcessPane<L>>, name: Seq<char>, i: int) -> bool {
    &&& 0 <= i < panes.len()
    &&& panes[i].config.name@ == name
    &&& forall|j: int| 0 <= j < i ==> (#[trigger] panes[j]).config.name@ != name
}

/// The first pane named `name`, if any.
pub open spec fn first_named<L>(panes: Seq<ProcessPane<L>>, name: Seq<char>) -> Option<int> {
    if exists|i: int| is_first_named(panes, name, i) {
        Some(choose|i: int| is_first_named(panes, name, i))
    } else {
        None
    }
}

/// The name that places the combined log.
pub open spec fn combined_logs_name() -> Seq<char> {
    "combined-logs"@
}

/// A node that names `name` over `area`: each process and the combined log
/// are placed once, at their first node; unknown names place nothing.
pub open spec fn place_named<L>(
    name: Seq<char>,
    area: Rect,
    panes: Seq<ProcessPane<L>>,
    p: LayoutPass,
) -> LayoutPass {
    if name == combined_logs_name() {
        if p.combined {
            p
        } else {
            LayoutPass {
                geometries: p.geometries.push(geometry_of(PaneTarget::CombinedLogs, area)),
                combined: true,
                ..p
            }
        }
    } else {
        match first_named(panes, name) {
            None => p,
            Some(i) => if p.assigned.contains(panes[i].id) {
                p
            } else {
                LayoutPass {
                    geometries: p.geometries.push(geometry_of(PaneTarget::Process(panes[i].id), area)),
                    assigned: p.assigned.insert(panes[i].id),
                    ..p
                }
            },
        }
    }
}

/// The direction in which a node splits among its children: as configured,
/// else stacked for a node carved from the left or right and side by side
/// otherwise.
pub open spec fn split_direction(node: LayoutNode) -> Direction {
    match node.direction {
        Some(LayoutDirection::Horizontal) => Direction::Horizontal,
        Some(LayoutDirection::Vertical) => Direction::Vertical,
        None => match node.edge {
            Some(LayoutEdge::Left) => Direction::Vertical,
            Some(LayoutEdge::Right) => Direction::Vertical,
            _ => Direction::Horizontal,
        },
    }
}

/// The sum of the sizes given to `children`, in `u16` arithmetic that
/// wraps.
pub open spec fn sized_total(children: Seq<LayoutNode>) -> u16
    decreases children.len(),
{
    if children.len() == 0 {
        0
    } else {
        let t = sized_total(children.drop_last());
        match children.last().size {
            Some(s) => t.wrapping_add(s),
            None => t,
        }
    }
}

/// How many of `children` have no size.
pub open spec fn unsized_count(children: Seq<LayoutNode>) -> nat
    decreases children.len(),
{
    if children.len() == 0 {
        0
    } else {
        unsized_count(children.drop_last()) + if children.last().size is None {
            1nat
        } else {
            0nat
        }
    }
}

/// The share of a child without size: what the sized children leave of 100
/// percent, divided among the others (their count taken as a `u16`).
pub open spec fn default_share(children: Seq<LayoutNode>) -> u16 {
    let n = unsized_count(children);
    if n > 0 {
        let rest: u16 = if sized_total(children) >= 100 {
            0
        } else {
            (100 - sized_total(children)) as u16
        };
        (rest / ((n % 65536) as u16)) as u16
    } else {
        0
    }
}

/// At most 100.
pub open spec fn at_most_100(v: u16) -> u16 {
    if v <= 100 {
        v
    } else {
        100
    }
}

/// The constraints of a split among `children`: each its percentage.
pub open spec fn child_constraints(children: Seq<LayoutNode>) -> Seq<Constraint> {
    Seq::new(
        children.len(),
        |i: int|
            Constraint::Percentage(
                at_most_100(
                    match children[i].size {
                        Some(s) => s,
                        None => default_share(children),
                    },
                ),
            ),
    )
}

/// Placing one node of the layout tree over `area`.
pub open spec fn place_node<L>(m: SplitMemo, 
    node: LayoutNode,
    area: Rect,
    panes: Seq<ProcessPane<L>>,
    p: LayoutPass,
) -> LayoutPass
    decreases node, 0nat,
{
    if area.width == 0 || area.height == 0 {
        p
    } else if node.unassigned == Some(true) {
        if p.container is None {
            LayoutPass { container: Some((area, node.direction)), ..p }
        } else {
            p
        }
    } else if node.name is Some {
        place_named(node.name->0@, area, panes, p)
    } else if node.items is Some {
        let children = node.items->0@;
        if children.len() == 0 {
            p
        } else {
            place_from(m, 
                children,
                split_of(m, area, split_direction(node), child_constraints(children)),
                0,
                panes,
                p,
            )
        }
    } else {
        p
    }
}

/// Placing `children[k..]` over the matching `parts`, in order.
pub open spec fn place_from<L>(m: SplitMemo, 
    children: Seq<LayoutNode>,
    parts: Seq<Rect>,
    k: int,
    panes: Seq<ProcessPane<L>>,
    p: LayoutPass,
) -> LayoutPass
    decreases children, children.len() - k,
{
    if k < 0 || k >= children.len() || k >= parts.len() {
        p
    } else {
        place_from(m, children, parts, k + 1, panes, place_node(m, children[k], parts[k], panes, p))
    }
}

/// Whether a split of `children` has a divisor for the share of the
/// children without size.
pub open spec fn split_is_divisible(children: Seq<LayoutNode>) -> bool {
    unsized_count(children) == 0 || unsized_count(children) % 65536 != 0
}

/// Whether placing `node` over `area` never divides by a count of size-less
/// children that is a multiple of 65536: every node reached with a
/// non-empty area that splits among its children has a divisor for their
/// shares.
pub open spec fn node_fits(m: SplitMemo, node: LayoutNode, area: Rect) -> bool
    decreases node, 0nat,
{
    if area.width == 0 || area.height == 0 {
        true
    } else if node.unassigned == Some(true) {
        true
    } else if node.name is Some {
        true
    } else if node.items is Some {
        let children = node.items->0@;
        if children.len() == 0 {
            true
        } else {
            split_is_divisible(children) && fits_from(m, 
                children,
                split_of(m, area, split_direction(node), child_constraints(children)),
                0,
            )
        }
    } else {
        true
    }
}

/// Whether `children[k..]` fit over the matching `parts`.
pub open spec fn fits_from(m: SplitMemo, children: Seq<LayoutNode>, parts: Seq<Rect>, k: int) -> bool
    decreases children, children.len() - k,
{
    if k < 0 || k >= children.len() || k >= parts.len() {
        true
    } else {
        node_fits(m, children[k], parts[k]) && fits_from(m, children, parts, k + 1)
    }
}

/// The slice carved off `edge` of `area` (`size` percent of it) and what
/// remains.
pub open spec fn carved(m: SplitMemo, area: Rect, edge: LayoutEdge, size: u16) -> (Rect, Rect) {
    let pct = Constraint::Percentage(at_most_100(size));
    let rest = Constraint::Min(0);
    match edge {
        LayoutEdge::Left => {
            let parts = split_of(m, area, Direction::Horizontal, seq![pct, rest]);
            (parts[0], parts[1])
        },
        LayoutEdge::Top => {
            let parts = split_of(m, area, Direction::Vertical, seq![pct, rest]);
            (parts[0], parts[1])
        },
        LayoutEdge::Right => {
            let parts = split_of(m, area, Direction::Horizontal, seq![rest, pct]);
            (parts[1], parts[0])
        },
        LayoutEdge::Bottom => {
            let parts = split_of(m, area, Direction::Vertical, seq![rest, pct]);
            (parts[1], parts[0])
        },
    }
}

/// Placing the top-level `items[k..]`: a node with an edge takes a slice
/// carved off the remaining area (all of it by default), a node without
/// one takes the whole remaining area. Gives the pass and what remains.
pub open spec fn place_top<L>(m: SplitMemo, 
    items: Seq<LayoutNode>,
    k: int,
    remaining: Rect,
    panes: Seq<ProcessPane<L>>,
    p: LayoutPass,
) -> (LayoutPass, Rect)
    decreases items.len() - k,
{
    if k < 0 || k >= items.len() {
        (p, remaining)
    } else {
        let item = items[k];
        let (slice, next) = match item.edge {
            Some(e) => carved(m, 
                remaining,
                e,
                match item.size {
                    Some(s) => s,
                    None => 100,
                },
            ),
            None => (remaining, remaining),
        };
        place_top(m, items, k + 1, next, panes, place_node(m, item, slice, panes, p))
    }
}

/// Whether the top-level `items[k..]` fit, each over the slice
/// `place_top` gives it.
pub open spec fn top_fits(m: SplitMemo, items: Seq<LayoutNode>, k: int, remaining: Rect) -> bool
    decreases items.len() - k,
{
    if k < 0 || k >= items.len() {
        true
    } else {
        let item = items[k];
        let (slice, next) = match item.edge {
            Some(e) => carved(m, 
                remaining,
                e,
                match item.size {
                    Some(s) => s,
                    None => 100,
                },
            ),
            None => (remaining, remaining),
        };
        node_fits(m, item, slice) && top_fits(m, items, k + 1, next)
    }
}

/// Whether the layout can be placed over `grid`: there is nothing to place,
/// a zoomed pane fills the grid, or the tree fits.
pub open spec fn layout_fits<L>(m: SplitMemo, 
    grid: Rect,
    panes: Seq<ProcessPane<L>>,
    zoomed: Option<usize>,
    items: Seq<LayoutNode>,
) -> bool {
    panes.len() == 0 || (zoomed is Some && has_pane(panes, zoomed->0)) || top_fits(m, items, 0, grid)
}

/// The identifiers of the panes not yet placed, in pane order.
pub open spec fn unassigned_ids<L>(panes: Seq<ProcessPane<L>>, assigned: Set<usize>) -> Seq<usize>
    decreases panes.len(),
{
    if panes.len() == 0 {
        Seq::empty()
    } else {
        let r = unassigned_ids(panes.drop_last(), assigned);
        if assigned.contains(panes.last().id) {
            r
        } else {
            r.push(panes.last().id)
        }
    }
}

/// Size of a group of the grid of unplaced panes: `n` panes over `groups`
/// groups, the first ones one larger.
pub open spec fn group_len(n: nat, groups: nat, g: int) -> nat {
    (n / groups + if g < (n % groups) as int {
        1nat
    } else {
        0nat
    }) as nat
}

/// The geometries of the groups `g..` of the grid, group `g` starting at
/// pane `start` of `ids`.
pub open spec fn groups_from(m: SplitMemo, 
    ids: Seq<usize>,
    areas: Seq<Rect>,
    secondary: Direction,
    groups: nat,
    g: int,
    start: int,
) -> Seq<PaneGeometry>
    decreases areas.len() - g,
{
    if g < 0 || g >= areas.len() || g >= groups {
        Seq::empty()
    } else {
        let len = group_len(ids.len(), groups, g);
        let parts = split_of(m, 
            areas[g],
            secondary,
            Seq::new(len, |j: int| Constraint::Ratio(1, len as u32)),
        );
        Seq::new(len, |j: int| geometry_of(PaneTarget::Process(ids[start + j]), parts[j]))
            + groups_from(m, ids, areas, secondary, groups, g + 1, start + len)
    }
}

/// The grid of unplaced panes over `target`: groups of at most four, the
/// groups stacked and their panes side by side when the area is wide (or
/// configured horizontal), the other way round otherwise.
pub open spec fn grid_geometries(m: SplitMemo, 
    ids: Seq<usize>,
    target: Rect,
    direction: Option<LayoutDirection>,
) -> Seq<PaneGeometry> {
    if ids.len() == 0 || target.width == 0 || target.height == 0 {
        Seq::empty()
    } else {
        let n = ids.len();
        let horizontal = match direction {
            Some(LayoutDirection::Horizontal) => true,
            Some(LayoutDirection::Vertical) => false,
            None => target.width >= target.height.wrapping_mul(2),
        };
        let groups: nat = n / 4 + if n % 4 != 0 {
            1nat
        } else {
            0nat
        };
        let primary = if horizontal {
            Direction::Vertical
        } else {
            Direction::Horizontal
        };
        let secondary = if horizontal {
            Direction::Horizontal
        } else {
            Direction::Vertical
        };
        let areas = split_of(m, 
            target,
            primary,
            Seq::new(groups, |i: int| Constraint::Ratio(1, groups as u32)),
        );
        groups_from(m, ids, areas, secondary, groups, 0, 0)
    }
}

/// The empty pass.
pub open spec fn empty_pass() -> LayoutPass {
    LayoutPass {
        geometries: Seq::empty(),
        assigned: Set::empty(),
        combined: false,
        container: None,
    }
}

/// Whether some pane has identifier `id`.
pub open spec fn has_pane<L>(panes: Seq<ProcessPane<L>>, id: usize) -> bool {
    exists|i: int| 0 <= i < panes.len() && panes[i].id == id
}

/// The geometries of all panes over `grid`: nothing without panes; the
/// zoomed pane over the whole grid when it exists; else the layout tree,
/// then the unplaced panes in a grid over the first node that holds them
/// (or over what the tree left).
pub open spec fn geometries_for<L>(m: SplitMemo, 
    grid: Rect,
    panes: Seq<ProcessPane<L>>,
    zoomed: Option<usize>,
    items: Seq<LayoutNode>,
) -> Seq<PaneGeometry> {
    if panes.len() == 0 {
        Seq::empty()
    } else if zoomed is Some && has_pane(panes, zoomed->0) {
        seq![geometry_of(PaneTarget::Process(zoomed->0), grid)]
    } else {
        let (pass, remaining) = place_top(m, items, 0, grid, panes, empty_pass());
        let (target, direction) = match pass.container {
            Some(c) => c,
            None => (remaining, None),
        };
        pass.geometries + grid_geometries(m, unassigned_ids(panes, pass.assigned), target, direction)
    }
}


/// A zoomed pane is drawn alone, over the whole grid, whatever the layout.
pub proof fn law_zoomed_pane_fills_grid<L>(m: SplitMemo, grid: Rect, panes: Seq<ProcessPane<L>>, id: usize, items: Seq<LayoutNode>)
    requires
        has_pane(panes, id),
    ensures
        geometries_for(m, grid, panes, Some(id), items) == seq![geometry_of(PaneTarget::Process(id), grid)],
{
}

/// No two geometries draw the same process, and the combined log is drawn
/// at most once.
pub open spec fn drawn_once(gs: Seq<PaneGeometry>) -> bool {
    forall|i: int, j: int| 0 <= i < j < gs.len() ==> (#[trigger] gs[i]).target != (#[trigger] gs[j]).target
}

/// No two panes share an identifier.
pub open spec fn distinct_ids<L>(panes: Seq<ProcessPane<L>>) -> bool {
    forall|i: int, j: int| 0 <= i < j < panes.len() ==> (#[trigger] panes[i]).id != (#[trigger] panes[j]).id
}

/// A pass draws nothing twice, and records what it drew.
spec fn pass_ok(p: LayoutPass) -> bool {
    &&& drawn_once(p.geometries)
    &&& forall|i: int|
        0 <= i < p.geometries.len() ==> match (#[trigger] p.geometries[i]).target {
            PaneTarget::Process(id) => p.assigned.contains(id),
            PaneTarget::CombinedLogs => p.combined,
        }
}

proof fn lemma_place_named<L>(name: Seq<char>, area: Rect, panes: Seq<ProcessPane<L>>, p: LayoutPass)
    requires
        pass_ok(p),
    ensures
        pass_ok(place_named(name, area, panes, p)),
{
    let q = place_named(name, area, panes, p);
    if q.geometries.len() > p.geometries.len() {
        assert forall|i: int| 0 <= i < p.geometries.len() implies q.geometries[i] == p.geometries[i] by {}
        let last = q.geometries.len() - 1;
        assert forall|i: int| 0 <= i < last implies (#[trigger] q.geometries[i]).target != q.geometries[last].target by {
            assert(q.geometries[i] == p.geometries[i]);
        }
    }
}

proof fn lemma_place_node<L>(m: SplitMemo, node: LayoutNode, area: Rect, panes: Seq<ProcessPane<L>>, p: LayoutPass)
    requires
        pass_ok(p),
    ensures
        pass_ok(place_node(m, node, area, panes, p)),
    decreases node, 0nat,
{
    if area.width == 0 || area.height == 0 {
    } else if node.unassigned == Some(true) {
    } else if node.name is Some {
        lemma_place_named(node.name->0@, area, panes, p);
    } else if node.items is Some {
        let children = node.items->0@;
        if children.len() != 0 {
            lemma_place_from(m, 
                children,
                split_of(m, area, split_direction(node), child_constraints(children)),
                0,
                panes,
                p,
            );
        }
    }
}

proof fn lemma_place_from<L>(m: SplitMemo, children: Seq<LayoutNode>, parts: Seq<Rect>, k: int, panes: Seq<ProcessPane<L>>, p: LayoutPass)
    requires
        pass_ok(p),
    ensures
        pass_ok(place_from(m, children, parts, k, panes, p)),
    decreases children, children.len() - k,
{
    if k < 0 || k >= children.len() || k >= parts.len() {
    } else {
        lemma_place_node(m, children[k], parts[k], panes, p);
        lemma_place_from(m, children, parts, k + 1, panes, place_node(m, children[k], parts[k], panes, p));
    }
}

proof fn lemma_place_top<L>(m: SplitMemo, items: Seq<LayoutNode>, k: int, remaining: Rect, panes: Seq<ProcessPane<L>>, p: LayoutPass)
    requires
        pass_ok(p),
    ensures
        pass_ok(place_top(m, items, k, remaining, panes, p).0),
    decreases items.len() - k,
{
    if k < 0 || k >= items.len() {
    } else {
        let item = items[k];
        let (slice, next) = match item.edge {
            Some(e) => carved(m, 
                remaining,
                e,
                match item.size {
                    Some(s) => s,
                    None => 100,
                },
            ),
            None => (remaining, remaining),
        };
        lemma_place_node(m, item, slice, panes, p);
        lemma_place_top(m, items, k + 1, next, panes, place_node(m, item, slice, panes, p));
    }
}

proof fn lemma_unassigned_ids<L>(panes: Seq<ProcessPane<L>>, assigned: Set<usize>)
    requires
        distinct_ids(panes),
    ensures
        forall|a: int, b: int|
            0 <= a < b < unassigned_ids(panes, assigned).len() ==> (#[trigger] unassigned_ids(panes, assigned)[a])
                != (#[trigger] unassigned_ids(panes, assigned)[b]),
        forall|a: int|
            0 <= a < unassigned_ids(panes, assigned).len() ==> !assigned.contains(
                #[trigger] unassigned_ids(panes, assigned)[a],
            ),
        forall|a: int|
            #![trigger unassigned_ids(panes, assigned)[a]]
            0 <= a < unassigned_ids(panes, assigned).len() ==> exists|i: int|
                0 <= i < panes.len() && (#[trigger] panes[i]).id == unassigned_ids(panes, assigned)[a],
    decreases panes.len(),
{
    if panes.len() > 0 {
        let init = panes.drop_last();
        assert forall|i: int, j: int| 0 <= i < j < init.len() implies (#[trigger] init[i]).id != (#[trigger] init[j]).id by {
            assert(init[i] == panes[i] && init[j] == panes[j]);
        }
        lemma_unassigned_ids(init, assigned);
        let r = unassigned_ids(init, assigned);
        let last = panes.last();
        if !assigned.contains(last.id) {
            assert forall|a: int| 0 <= a < r.len() implies r[a] != last.id by {
                let i = choose|i: int| 0 <= i < init.len() && (#[trigger] init[i]).id == r[a];
                assert(init[i] == panes[i]);
                assert(panes[i].id != panes[panes.len() - 1].id);
            }
            let u = r.push(last.id);
            assert(unassigned_ids(panes, assigned) == u);
            assert forall|a: int| #![trigger u[a]] 0 <= a < u.len() implies exists|i: int|
                0 <= i < panes.len() && (#[trigger] panes[i]).id == u[a] by {
                if a < r.len() {
                    let i = choose|i: int| 0 <= i < init.len() && (#[trigger] init[i]).id == r[a];
                    assert(init[i] == panes[i]);
                } else {
                    assert(panes[panes.len() - 1].id == u[a]);
                }
            }
        } else {
            assert(unassigned_ids(panes, assigned) == r);
            assert forall|a: int| #![trigger r[a]] 0 <= a < r.len() implies exists|i: int|
                0 <= i < panes.len() && (#[trigger] panes[i]).id == r[a] by {
                let i = choose|i: int| 0 <= i < init.len() && (#[trigger] init[i]).id == r[a];
                assert(init[i] == panes[i]);
            }
        }
    }
}

proof fn lemma_groups_from_targets(m: SplitMemo, 
    ids: Seq<usize>,
    areas: Seq<Rect>,
    secondary: Direction,
    groups: nat,
    g: int,
    start: int,
)
    requires
        groups > 0,
        0 <= g <= groups,
        start == g * (ids.len() / groups) + (if g < ids.len() % groups {
            g
        } else {
            (ids.len() % groups) as int
        }),
    ensures
        start + groups_from(m, ids, areas, secondary, groups, g, start).len() <= ids.len(),
        forall|i: int|
            0 <= i < groups_from(m, ids, areas, secondary, groups, g, start).len() ==> (#[trigger] groups_from(m, 
                ids,
                areas,
                secondary,
                groups,
                g,
                start,
            )[i]).target == PaneTarget::Process(ids[start + i]),
    decreases areas.len() - g,
{
    let n = ids.len();
    if g < 0 || g >= areas.len() || g >= groups {
        assert(start <= n) by (nonlinear_arith)
            requires
                groups > 0,
                0 <= g <= groups,
                start == g * (n / groups) + (if g < n % groups { g } else { (n % groups) as int }),
        {
            let q = n / groups;
            let rm = n % groups;
            assert(n == groups * q + rm);
            assert(g * q <= groups * q);
        }
    } else {
        lemma_group_bounds(n, groups, g as nat);
        let len = group_len(n, groups, g);
        let parts = split_of(m, 
            areas[g],
            secondary,
            Seq::new(len, |j: int| Constraint::Ratio(1, len as u32)),
        );
        let head = Seq::new(len, |j: int| geometry_of(PaneTarget::Process(ids[start + j]), parts[j]));
        lemma_groups_from_targets(m, ids, areas, secondary, groups, g + 1, start + len);
        let rest = groups_from(m, ids, areas, secondary, groups, g + 1, start + len);
        let res = groups_from(m, ids, areas, secondary, groups, g, start);
        assert(res == head + rest);
        assert forall|i: int| 0 <= i < res.len() implies (#[trigger] res[i]).target == PaneTarget::Process(
            ids[start + i],
        ) by {
            if i < len {
                assert(res[i] == head[i]);
            } else {
                assert(res[i] == rest[i - len]);
            }
        }
    }
}

proof fn lemma_grid_targets(m: SplitMemo, ids: Seq<usize>, target: Rect, direction: Option<LayoutDirection>)
    ensures
        grid_geometries(m, ids, target, direction).len() <= ids.len(),
        forall|i: int|
            0 <= i < grid_geometries(m, ids, target, direction).len() ==> (#[trigger] grid_geometries(m, 
                ids,
                target,
                direction,
            )[i]).target == PaneTarget::Process(ids[i]),
{
    if ids.len() == 0 || target.width == 0 || target.height == 0 {
    } else {
        let n = ids.len();
        let horizontal = match direction {
            Some(LayoutDirection::Horizontal) => true,
            Some(LayoutDirection::Vertical) => false,
            None => target.width >= target.height.wrapping_mul(2),
        };
        let groups: nat = n / 4 + if n % 4 != 0 {
            1nat
        } else {
            0nat
        };
        let primary = if horizontal {
            Direction::Vertical
        } else {
            Direction::Horizontal
        };
        let secondary = if horizontal {
            Direction::Horizontal
        } else {
            Direction::Vertical
        };
        let areas = split_of(m, 
            target,
            primary,
            Seq::new(groups, |i: int| Constraint::Ratio(1, groups as u32)),
        );
        assert(0 * (n / groups) == 0);
        lemma_groups_from_targets(m, ids, areas, secondary, groups, 0, 0);
    }
}

/// `a` lies within `b`.
pub open spec fn lies_within(a: Rect, b: Rect) -> bool {
    &&& b.x <= a.x
    &&& a.x + a.width <= b.x + b.width
    &&& b.y <= a.y
    &&& a.y + a.height <= b.y + b.height
}

/// Everything a pass has placed, and the area it keeps for the unplaced
/// panes, lies within `grid`.
spec fn pass_within(p: LayoutPass, grid: Rect) -> bool {
    &&& forall|i: int| 0 <= i < p.geometries.len() ==> lies_within((#[trigger] p.geometries[i]).area, grid)
    &&& match p.container {
        Some(c) => lies_within(c.0, grid),
        None => true,
    }
}

proof fn lemma_split_within(m: SplitMemo, area: Rect, direction: Direction, constraints: Seq<Constraint>, grid: Rect)
    requires
        memo_sound(m),
        lies_within(area, grid),
    ensures
        split_of(m, area, direction, constraints).len() == constraints.len(),
        forall|i: int|
            0 <= i < split_of(m, area, direction, constraints).len() ==> lies_within(
                #[trigger] split_of(m, area, direction, constraints)[i],
                grid,
            ),
{
    lemma_sound_split_of(m, area, direction, constraints);
    let parts = split_of(m, area, direction, constraints);
    assert forall|i: int| 0 <= i < parts.len() implies lies_within(#[trigger] parts[i], grid) by {
        assert(parts_fit(area, direction, constraints.len(), parts));
        assert(parts_along(area, direction, parts));
        let y = parts[i].y;
        let x = parts[i].x;
    }
}

proof fn lemma_place_named_within<L>(name: Seq<char>, area: Rect, panes: Seq<ProcessPane<L>>, p: LayoutPass, grid: Rect)
    requires
        pass_within(p, grid),
        lies_within(area, grid),
    ensures
        pass_within(place_named(name, area, panes, p), grid),
{
    let q = place_named(name, area, panes, p);
    assert forall|i: int| 0 <= i < q.geometries.len() implies lies_within((#[trigger] q.geometries[i]).area, grid) by {
        if i < p.geometries.len() {
            assert(q.geometries[i] == p.geometries[i]);
        }
    }
}

proof fn lemma_place_node_within<L>(m: SplitMemo, node: LayoutNode, area: Rect, panes: Seq<ProcessPane<L>>, p: LayoutPass, grid: Rect)
    requires
        memo_sound(m),
        pass_within(p, grid),
        lies_within(area, grid),
    ensures
        pass_within(place_node(m, node, area, panes, p), grid),
    decreases node, 0nat,
{
    if area.width == 0 || area.height == 0 {
    } else if node.unassigned == Some(true) {
    } else if node.name is Some {
        lemma_place_named_within(node.name->0@, area, panes, p, grid);
    } else if node.items is Some {
        let children = node.items->0@;
        if children.len() != 0 {
            let cs = child_constraints(children);
            lemma_split_within(m, area, split_direction(node), cs, grid);
            lemma_place_from_within(m, children, split_of(m, area, split_direction(node), cs), 0, panes, p, grid);
        }
    }
}

proof fn lemma_place_from_within<L>(
    m: SplitMemo,
    children: Seq<LayoutNode>,
    parts: Seq<Rect>,
    k: int,
    panes: Seq<ProcessPane<L>>,
    p: LayoutPass,
    grid: Rect,
)
    requires
        memo_sound(m),
        pass_within(p, grid),
        forall|i: int| 0 <= i < parts.len() ==> lies_within(#[trigger] parts[i], grid),
    ensures
        pass_within(place_from(m, children, parts, k, panes, p), grid),
    decreases children, children.len() - k,
{
    if k < 0 || k >= children.len() || k >= parts.len() {
    } else {
        lemma_place_node_within(m, children[k], parts[k], panes, p, grid);
        lemma_place_from_within(m, children, parts, k + 1, panes, place_node(m, children[k], parts[k], panes, p), grid);
    }
}

proof fn lemma_place_top_within<L>(
    m: SplitMemo,
    items: Seq<LayoutNode>,
    k: int,
    remaining: Rect,
    panes: Seq<ProcessPane<L>>,
    p: LayoutPass,
    grid: Rect,
)
    requires
        memo_sound(m),
        pass_within(p, grid),
        lies_within(remaining, grid),
    ensures
        pass_within(place_top(m, items, k, remaining, panes, p).0, grid),
        lies_within(place_top(m, items, k, remaining, panes, p).1, grid),
    decreases items.len() - k,
{
    if k < 0 || k >= items.len() {
    } else {
        let item = items[k];
        let (slice, next) = match item.edge {
            Some(e) => carved(
                m,
                remaining,
                e,
                match item.size {
                    Some(s) => s,
                    None => 100,
                },
            ),
            None => (remaining, remaining),
        };
        match item.edge {
            Some(e) => {
                let size = match item.size {
                    Some(s) => s,
                    None => 100,
                };
                let pct = Constraint::Percentage(at_most_100(size));
                let rest = Constraint::Min(0);
                lemma_split_within(m, remaining, Direction::Horizontal, seq![pct, rest], grid);
                lemma_split_within(m, remaining, Direction::Vertical, seq![pct, rest], grid);
                lemma_split_within(m, remaining, Direction::Horizontal, seq![rest, pct], grid);
                lemma_split_within(m, remaining, Direction::Vertical, seq![rest, pct], grid);
                assert(lies_within(slice, grid) && lies_within(next, grid));
            },
            None => {},
        }
        lemma_place_node_within(m, item, slice, panes, p, grid);
        lemma_place_top_within(m, items, k + 1, next, panes, place_node(m, item, slice, panes, p), grid);
    }
}

proof fn lemma_groups_within(
    m: SplitMemo,
    ids: Seq<usize>,
    areas: Seq<Rect>,
    secondary: Direction,
    groups: nat,
    g: int,
    start: int,
    grid: Rect,
)
    requires
        memo_sound(m),
        forall|i: int| 0 <= i < areas.len() ==> lies_within(#[trigger] areas[i], grid),
    ensures
        forall|i: int|
            0 <= i < groups_from(m, ids, areas, secondary, groups, g, start).len() ==> lies_within(
                (#[trigger] groups_from(m, ids, areas, secondary, groups, g, start)[i]).area,
                grid,
            ),
    decreases areas.len() - g,
{
    if g < 0 || g >= areas.len() || g >= groups {
    } else {
        let len = group_len(ids.len(), groups, g);
        let cs = Seq::new(len, |j: int| Constraint::Ratio(1, len as u32));
        let parts = split_of(m, areas[g], secondary, cs);
        lemma_split_within(m, areas[g], secondary, cs, grid);
        let head = Seq::new(len, |j: int| geometry_of(PaneTarget::Process(ids[start + j]), parts[j]));
        lemma_groups_within(m, ids, areas, secondary, groups, g + 1, start + len, grid);
        let rest = groups_from(m, ids, areas, secondary, groups, g + 1, start + len);
        let res = groups_from(m, ids, areas, secondary, groups, g, start);
        assert(res == head + rest);
        assert forall|i: int| 0 <= i < res.len() implies lies_within((#[trigger] res[i]).area, grid) by {
            if i < len {
                assert(res[i] == head[i]);
                assert(lies_within(parts[i], grid));
            } else {
                assert(res[i] == rest[i - len]);
            }
        }
    }
}

proof fn lemma_grid_within(m: SplitMemo, ids: Seq<usize>, target: Rect, direction: Option<LayoutDirection>, grid: Rect)
    requires
        memo_sound(m),
        lies_within(target, grid),
    ensures
        forall|i: int|
            0 <= i < grid_geometries(m, ids, target, direction).len() ==> lies_within(
                (#[trigger] grid_geometries(m, ids, target, direction)[i]).area,
                grid,
            ),
{
    if ids.len() == 0 || target.width == 0 || target.height == 0 {
    } else {
        let n = ids.len();
        let horizontal = match direction {
            Some(LayoutDirection::Horizontal) => true,
            Some(LayoutDirection::Vertical) => false,
            None => target.width >= target.height.wrapping_mul(2),
        };
        let groups: nat = n / 4 + if n % 4 != 0 {
            1nat
        } else {
            0nat
        };
        let primary = if horizontal {
            Direction::Vertical
        } else {
            Direction::Horizontal
        };
        let secondary = if horizontal {
            Direction::Horizontal
        } else {
            Direction::Vertical
        };
        let cs = Seq::new(groups, |i: int| Constraint::Ratio(1, groups as u32));
        lemma_split_within(m, target, primary, cs, grid);
        lemma_groups_within(m, ids, split_of(m, target, primary, cs), secondary, groups, 0, 0, grid);
    }
}

/// Every pane the layout draws lies within the grid, whatever parts the
/// layout solver gives (each within the area it splits).
pub proof fn law_panes_lie_within_grid<L>(
    m: SplitMemo,
    grid: Rect,
    panes: Seq<ProcessPane<L>>,
    zoomed: Option<usize>,
    items: Seq<LayoutNode>,
)
    requires
        memo_sound(m),
    ensures
        forall|i: int|
            0 <= i < geometries_for(m, grid, panes, zoomed, items).len() ==> lies_within(
                (#[trigger] geometries_for(m, grid, panes, zoomed, items)[i]).area,
                grid,
            ),
{
    if panes.len() == 0 {
    } else if zoomed is Some && has_pane(panes, zoomed->0) {
    } else {
        let e = empty_pass();
        assert(pass_within(e, grid));
        lemma_place_top_within(m, items, 0, grid, panes, e, grid);
        let (pass, remaining) = place_top(m, items, 0, grid, panes, e);
        let (target, direction) = match pass.container {
            Some(c) => c,
            None => (remaining, None),
        };
        let ids = unassigned_ids(panes, pass.assigned);
        lemma_grid_within(m, ids, target, direction, grid);
        let gp = grid_geometries(m, ids, target, direction);
        let all = pass.geometries + gp;
        assert(all == geometries_for(m, grid, panes, zoomed, items));
        assert forall|i: int| 0 <= i < all.len() implies lies_within((#[trigger] all[i]).area, grid) by {
            if i < pass.geometries.len() {
                assert(all[i] == pass.geometries[i]);
            } else {
                assert(all[i] == gp[i - pass.geometries.len()]);
            }
        }
    }
}

/// Laying out the panes draws no process twice and the combined log at most
/// once, whatever the layout tree names (a process named by several nodes
/// is drawn at the first).
pub proof fn law_layout_draws_each_pane_once<L>(m: SplitMemo, 
    grid: Rect,
    panes: Seq<ProcessPane<L>>,
    zoomed: Option<usize>,
    items: Seq<LayoutNode>,
)
    requires
        distinct_ids(panes),
    ensures
        drawn_once(geometries_for(m, grid, panes, zoomed, items)),
{
    if panes.len() == 0 {
    } else if zoomed is Some && has_pane(panes, zoomed->0) {
    } else {
        let e = empty_pass();
        assert(pass_ok(e));
        lemma_place_top(m, items, 0, grid, panes, e);
        let (pass, remaining) = place_top(m, items, 0, grid, panes, e);
        let (target, direction) = match pass.container {
            Some(c) => c,
            None => (remaining, None),
        };
        let ids = unassigned_ids(panes, pass.assigned);
        lemma_unassigned_ids(panes, pass.assigned);
        let grid_part = grid_geometries(m, ids, target, direction);
        lemma_grid_targets(m, ids, target, direction);
        let all = pass.geometries + grid_part;
        assert(all == geometries_for(m, grid, panes, zoomed, items));
        let n = pass.geometries.len();
        assert forall|i: int, j: int| 0 <= i < j < all.len() implies (#[trigger] all[i]).target != (
        #[trigger] all[j]).target by {
            if j < n {
                assert(all[i] == pass.geometries[i] && all[j] == pass.geometries[j]);
            } else if i >= n {
                assert(all[i] == grid_part[i - n] && all[j] == grid_part[j - n]);
                assert(grid_part[i - n].target == PaneTarget::Process(ids[i - n]));
                assert(grid_part[j - n].target == PaneTarget::Process(ids[j - n]));
            } else {
                assert(all[i] == pass.geometries[i] && all[j] == grid_part[j - n]);
                assert(grid_part[j - n].target == PaneTarget::Process(ids[j - n]));
                assert(!pass.assigned.contains(ids[j - n]));
                match pass.geometries[i].target {
                    PaneTarget::Process(id) => assert(pass.assigned.contains(id)),
                    PaneTarget::CombinedLogs => {},
                }
            }
        }
    }
}

/// The first pane named `name`, if any.
fn find_named<L>(panes: &[ProcessPane<L>], name: &str) -> (r: Option<usize>)
    ensures
        match r {
            Some(i) => first_named(panes@, name@) == Some(i as int),
            None => first_named(panes@, name@) is None,
        },
{
    let mut i: usize = 0;
    while i < panes.len()
        invariant
            i <= panes@.len(),
            forall|j: int| 0 <= j < i ==> (#[trigger] panes@[j]).config.name@ != name@,
        decreases panes@.len() - i,
    {
        if str_eq(panes[i].config.name.as_str(), name) {
            proof {
                assert(is_first_named(panes@, name@, i as int));
                let c = choose|k: int| is_first_named(panes@, name@, k);
                if c < i {
                    assert(panes@[c].config.name@ != name@);
                } else if c > i {
                    assert(panes@[i as int].config.name@ != name@);
                }
            }
            return Some(i);
        }
        i = i + 1;
    }
    proof {
        if exists|k: int| is_first_named(panes@, name@, k) {
            let c = choose|k: int| is_first_named(panes@, name@, k);
            assert(panes@[c].config.name@ != name@);
        }
    }
    None
}

/// Which processes and whether the combined log are placed during one pass.
struct PaneResolver {
    assigned_panes: HashSet<usize>,
    include_combined_logs: bool,
}

/// The pass made of a resolver, the placed geometries and the container.
pub open spec fn pass_of(
    assigned: Set<usize>,
    combined: bool,
    geometries: Seq<PaneGeometry>,
    container: Option<(Rect, Option<LayoutDirection>)>,
) -> LayoutPass {
    LayoutPass { geometries, assigned, combined, container }
}

impl PaneResolver {
    fn with_capacity(capacity: usize) -> (r: Self)
        ensures
            r.assigned_panes@ == Set::<usize>::empty(),
            !r.include_combined_logs,
    {
        PaneResolver { assigned_panes: HashSet::with_capacity(capacity), include_combined_logs: false }
    }

    /// The target of a node named `name`: the combined log or the first
    /// process of that name, each given out once per pass.
    fn resolve_target<L>(&mut self, name: &str, panes: &[ProcessPane<L>]) -> (r: Option<PaneTarget>)
        ensures
            name@ == combined_logs_name() ==> {
                &&& r == if old(self).include_combined_logs {
                    None
                } else {
                    Some(PaneTarget::CombinedLogs)
                }
                &&& final(self).include_combined_logs
                &&& final(self).assigned_panes@ == old(self).assigned_panes@
            },
            name@ != combined_logs_name() ==> {
                &&& final(self).include_combined_logs == old(self).include_combined_logs
                &&& match first_named(panes@, name@) {
                    None => r is None && final(self).assigned_panes@ == old(self).assigned_panes@,
                    Some(i) => if old(self).assigned_panes@.contains(panes@[i].id) {
                        r is None && final(self).assigned_panes@ == old(self).assigned_panes@
                    } else {
                        r == Some(PaneTarget::Process(panes@[i].id))
                            && final(self).assigned_panes@ == old(self).assigned_panes@.insert(panes@[i].id)
                    },
                }
            },
    {
        if str_eq(name, "combined-logs") {
            if self.include_combined_logs {
                return None;
            }
            self.include_combined_logs = true;
            return Some(PaneTarget::CombinedLogs);
        }
        let found = find_named(panes, name);
        match found {
            None => None,
            Some(i) => {
                let id = panes[i].id;
                if self.assigned_panes.insert(id) {
                    Some(PaneTarget::Process(id))
                } else {
                    proof {
                        assert(old(self).assigned_panes@.insert(id) =~= old(self).assigned_panes@);
                    }
                    None
                }
            },
        }
    }
}


fn split_direction_of(node: &LayoutNode) -> (d: Direction)
    ensures
        d == split_direction(*node),
{
    match node.direction {
        Some(LayoutDirection::Horizontal) => Direction::Horizontal,
        Some(LayoutDirection::Vertical) => Direction::Vertical,
        None => match node.edge {
            Some(LayoutEdge::Left) => Direction::Vertical,
            Some(LayoutEdge::Right) => Direction::Vertical,
            _ => Direction::Horizontal,
        },
    }
}

proof fn lemma_take_step(s: Seq<LayoutNode>, i: int)
    requires
        0 <= i < s.len(),
    ensures
        sized_total(s.take(i + 1)) == match s[i].size {
            Some(v) => sized_total(s.take(i)).wrapping_add(v),
            None => sized_total(s.take(i)),
        },
        unsized_count(s.take(i + 1)) == unsized_count(s.take(i)) + if s[i].size is None {
            1nat
        } else {
            0nat
        },
{
    assert(s.take(i + 1).drop_last() =~= s.take(i));
    assert(s.take(i + 1).last() == s[i]);
}

/// The percentages of a split among `children`.
fn child_constraints_of(children: &Vec<LayoutNode>) -> (r: Vec<Constraint>)
    requires
        split_is_divisible(children@),
    ensures
        r@ == child_constraints(children@),
{
    let mut total: u16 = 0;
    let mut unsized_n: usize = 0;
    let mut i: usize = 0;
    while i < children.len()
        invariant
            i <= children@.len(),
            total == sized_total(children@.take(i as int)),
            unsized_n == unsized_count(children@.take(i as int)),
            unsized_n <= i,
        decreases children@.len() - i,
    {
        proof {
            lemma_take_step(children@, i as int);
        }
        match children[i].size {
            Some(s) => {
                total = total.wrapping_add(s);
            },
            None => {
                unsized_n = unsized_n + 1;
            },
        }
        i = i + 1;
    }
    assert(children@.take(children@.len() as int) =~= children@);
    let remaining_pct: u16 = if total >= 100 {
        0
    } else {
        100 - total
    };
    let default_pct: u16 = if unsized_n > 0 {
        remaining_pct / ((unsized_n % 65536) as u16)
    } else {
        0
    };
    let mut r: Vec<Constraint> = Vec::new();
    let mut j: usize = 0;
    while j < children.len()
        invariant
            j <= children@.len(),
            r@.len() == j,
            default_pct == default_share(children@),
            forall|t: int| 0 <= t < j ==> r@[t] == child_constraints(children@)[t],
        decreases children@.len() - j,
    {
        let pct = match children[j].size {
            Some(s) => s,
            None => default_pct,
        };
        r.push(Constraint::Percentage(if pct <= 100 { pct } else { 100 }));
        j = j + 1;
    }
    assert(r@ =~= child_constraints(children@));
    r
}

/// Places one node of the layout tree over `area`, splitting it among the
/// node's children in turn; `splitter` records the splits made.
fn process_layout_node<L>(
    splitter: &mut Splitter,
    node: &LayoutNode,
    area: Rect,
    panes: &[ProcessPane<L>],
    resolver: &mut PaneResolver,
    geometries: &mut Vec<PaneGeometry>,
    unassigned_container: &mut Option<(Rect, Option<LayoutDirection>)>,
) -> (fits: bool)
    requires
        old(splitter).wf(),
    ensures
        final(splitter).wf(),
        extends(final(splitter).memo(), old(splitter).memo()),
        forall|m: SplitMemo|
            #[trigger] extends(m, final(splitter).memo()) ==> {
                &&& fits == node_fits(m, *node, area)
                &&& fits ==> pass_of(
                    final(resolver).assigned_panes@,
                    final(resolver).include_combined_logs,
                    final(geometries)@,
                    *final(unassigned_container),
                ) == place_node(
                    m,
                    *node,
                    area,
                    panes@,
                    pass_of(
                        old(resolver).assigned_panes@,
                        old(resolver).include_combined_logs,
                        old(geometries)@,
                        *old(unassigned_container),
                    ),
                )
            },
    decreases node,
{
    if area.width == 0 || area.height == 0 {
        return true;
    }
    let is_unassigned = match node.unassigned {
        Some(b) => b,
        None => false,
    };
    if is_unassigned {
        if unassigned_container.is_none() {
            *unassigned_container = Some((area, node.direction));
        }
        return true;
    }
    if let Some(name) = &node.name {
        if let Some(target) = resolver.resolve_target(name.as_str(), panes) {
            geometries.push(PaneGeometry::new(target, area));
        }
        return true;
    }
    if let Some(children) = &node.items {
        if children.len() == 0 {
            return true;
        }
        if !split_divisible_of(children) {
            return false;
        }
        let direction = split_direction_of(node);
        let constraints = child_constraints_of(children);
        let ghost cs = constraints@;
        let ghost memo0 = splitter.memo();
        let parts = splitter.split(area, direction, constraints);
        let ghost memo1 = splitter.memo();
        let ghost p0 = pass_of(
            resolver.assigned_panes@,
            resolver.include_combined_logs,
            geometries@,
            *unassigned_container,
        );
        assert forall|m: SplitMemo| #[trigger] extends(m, memo1) implies {
            &&& node_fits(m, *node, area) == fits_from(m, children@, parts@, 0)
            &&& place_node(m, *node, area, panes@, p0) == place_from(m, children@, parts@, 0, panes@, p0)
        } by {
            assert(split_of(m, area, split_direction(*node), child_constraints(children@)) == parts@);
        }
        let mut k: usize = 0;
        while k < children.len()
            invariant
                k <= children@.len(),
                node.items == Some(*children),
                parts@.len() == children@.len(),
                splitter.wf(),
                extends(splitter.memo(), memo1),
                extends(memo1, memo0),
                memo0 == old(splitter).memo(),
                forall|m: SplitMemo|
                    #[trigger] extends(m, splitter.memo()) ==> {
                        &&& node_fits(m, *node, area) == fits_from(m, children@, parts@, k as int)
                        &&& place_node(m, *node, area, panes@, p0) == place_from(
                            m,
                            children@,
                            parts@,
                            k as int,
                            panes@,
                            pass_of(
                                resolver.assigned_panes@,
                                resolver.include_combined_logs,
                                geometries@,
                                *unassigned_container,
                            ),
                        )
                    },
            decreases children@.len() - k,
        {
            proof {
                let ghost items = node.items;
                assert(decreases_to!(*node => items));
                assert(decreases_to!(items => items->0));
                assert(decreases_to!(items->0 => items->0@));
                assert(decreases_to!(items->0@ => items->0@[k as int]));
                assert(decreases_to!(*node => children@[k as int]));
            }
            let ghost memo_k = splitter.memo();
            let ghost pass_k = pass_of(
                resolver.assigned_panes@,
                resolver.include_combined_logs,
                geometries@,
                *unassigned_container,
            );
            let ok = process_layout_node(
                splitter,
                &children[k],
                parts[k],
                panes,
                resolver,
                geometries,
                unassigned_container,
            );
            proof {
                lemma_extends_trans(splitter.memo(), memo_k, memo1);
                assert forall|m: SplitMemo| #[trigger] extends(m, splitter.memo()) implies extends(m, memo_k) by {
                    lemma_extends_trans(m, splitter.memo(), memo_k);
                }
            }
            if !ok {
                assert forall|m: SplitMemo| #[trigger] extends(m, splitter.memo()) implies !node_fits(
                    m,
                    *node,
                    area,
                ) by {
                    assert(extends(m, memo_k));
                    assert(!fits_from(m, children@, parts@, k as int));
                }
                proof {
                    lemma_extends_trans(splitter.memo(), memo1, memo0);
                }
                return false;
            }
            assert forall|m: SplitMemo| #[trigger] extends(m, splitter.memo()) implies {
                &&& node_fits(m, *node, area) == fits_from(m, children@, parts@, k + 1)
                &&& place_node(m, *node, area, panes@, p0) == place_from(
                    m,
                    children@,
                    parts@,
                    k + 1,
                    panes@,
                    pass_of(
                        resolver.assigned_panes@,
                        resolver.include_combined_logs,
                        geometries@,
                        *unassigned_container,
                    ),
                )
            } by {
                assert(extends(m, memo_k));
                assert(place_from(m, children@, parts@, k as int, panes@, pass_k) == place_from(
                    m,
                    children@,
                    parts@,
                    k + 1,
                    panes@,
                    place_node(m, children@[k as int], parts@[k as int], panes@, pass_k),
                ));
            }
            k = k + 1;
        }
        proof {
            lemma_extends_trans(splitter.memo(), memo1, memo0);
        }
    }
    true
}

/// Carves a `size` percent slice off `edge` of `area`; gives the slice and
/// what remains.
fn carve_layout_edge(splitter: &mut Splitter, area: Rect, edge: LayoutEdge, size: u16) -> (r: (Rect, Rect))
    requires
        old(splitter).wf(),
    ensures
        final(splitter).wf(),
        extends(final(splitter).memo(), old(splitter).memo()),
        forall|m: SplitMemo| #[trigger] extends(m, final(splitter).memo()) ==> r == carved(m, area, edge, size),
{
    let percentage = if size <= 100 {
        size
    } else {
        100
    };
    let pct = Constraint::Percentage(percentage);
    let rest = Constraint::Min(0);
    let mut constraints: Vec<Constraint> = Vec::new();
    let direction = match edge {
        LayoutEdge::Left | LayoutEdge::Right => Direction::Horizontal,
        LayoutEdge::Top | LayoutEdge::Bottom => Direction::Vertical,
    };
    match edge {
        LayoutEdge::Left | LayoutEdge::Top => {
            constraints.push(pct);
            constraints.push(rest);
        },
        LayoutEdge::Right | LayoutEdge::Bottom => {
            constraints.push(rest);
            constraints.push(pct);
        },
    }
    let ghost cs = constraints@;
    let parts = splitter.split(area, direction, constraints);
    match edge {
        LayoutEdge::Left | LayoutEdge::Top => {
            assert(cs =~= seq![pct, rest]);
            assert forall|m: SplitMemo| #[trigger] extends(m, splitter.memo()) implies (parts@[0], parts@[1])
                == carved(m, area, edge, size) by {
                assert(split_of(m, area, direction, cs) == parts@);
            }
            (parts[0], parts[1])
        },
        LayoutEdge::Right | LayoutEdge::Bottom => {
            assert(cs =~= seq![rest, pct]);
            assert forall|m: SplitMemo| #[trigger] extends(m, splitter.memo()) implies (parts@[1], parts@[0])
                == carved(m, area, edge, size) by {
                assert(split_of(m, area, direction, cs) == parts@);
            }
            (parts[1], parts[0])
        },
    }
}

/// The identifiers of the panes not in `assigned`, in pane order.
fn unassigned_of<L>(panes: &[ProcessPane<L>], assigned: &HashSet<usize>) -> (r: Vec<usize>)
    ensures
        r@ == unassigned_ids(panes@, assigned@),
{
    let mut r: Vec<usize> = Vec::new();
    let mut i: usize = 0;
    while i < panes.len()
        invariant
            i <= panes@.len(),
            r@ == unassigned_ids(panes@.take(i as int), assigned@),
        decreases panes@.len() - i,
    {
        assert(panes@.take(i + 1).drop_last() =~= panes@.take(i as int));
        let id = panes[i].id;
        if !assigned.contains(&id) {
            r.push(id);
        }
        i = i + 1;
    }
    assert(panes@.take(panes@.len() as int) =~= panes@);
    r
}

/// `count` equal ratios.
fn equal_ratios(count: usize) -> (r: Vec<Constraint>)
    ensures
        r@ == Seq::new(count as nat, |i: int| Constraint::Ratio(1, count as u32)),
{
    let mut r: Vec<Constraint> = Vec::new();
    let mut i: usize = 0;
    while i < count
        invariant
            i <= count,
            r@ == Seq::new(i as nat, |t: int| Constraint::Ratio(1, count as u32)),
        decreases count - i,
    {
        r.push(Constraint::Ratio(1, count as u32));
        i = i + 1;
        assert(r@ =~= Seq::new(i as nat, |t: int| Constraint::Ratio(1, count as u32)));
    }
    r
}

proof fn lemma_group_bounds(n: nat, groups: nat, g: nat)
    requires
        groups > 0,
        g < groups,
    ensures
        g * (n / groups) + (if g < n % groups { g } else { n % groups }) + group_len(n, groups, g as int)
            == (g + 1) * (n / groups) + (if g + 1 < n % groups { g + 1 } else { n % groups }),
        (g + 1) * (n / groups) + (if g + 1 < n % groups { g + 1 } else { n % groups }) <= n,
{
    let q = n / groups;
    let m = n % groups;
    assert(n == groups * q + m) by (nonlinear_arith)
        requires
            groups > 0,
            q == n / groups,
            m == n % groups,
    ;
    assert((g + 1) * q <= groups * q) by (nonlinear_arith)
        requires
            g + 1 <= groups,
    ;
    assert((g + 1) * q == g * q + q) by (nonlinear_arith);
}

/// Arranges the panes `ids` in a grid over `target_area`: groups of at most
/// four panes, the groups stacked and their panes side by side when the
/// area is wide or the direction is horizontal, the other way round else.
/// As in a release build, twice the height is computed in wrapping `u16`
/// arithmetic.
fn layout_unassigned_panes(
    splitter: &mut Splitter,
    ids: &Vec<usize>,
    target_area: Rect,
    configured_direction: Option<LayoutDirection>,
    geometries: &mut Vec<PaneGeometry>,
)
    requires
        old(splitter).wf(),
    ensures
        final(splitter).wf(),
        extends(final(splitter).memo(), old(splitter).memo()),
        forall|m: SplitMemo|
            #[trigger] extends(m, final(splitter).memo()) ==> final(geometries)@ == old(geometries)@
                + grid_geometries(m, ids@, target_area, configured_direction),
{
    if ids.len() == 0 || target_area.width == 0 || target_area.height == 0 {
        assert(old(geometries)@ + Seq::<PaneGeometry>::empty() =~= old(geometries)@);
        return;
    }
    let num_panes = ids.len();
    let use_horizontal = match configured_direction {
        Some(LayoutDirection::Horizontal) => true,
        Some(LayoutDirection::Vertical) => false,
        None => target_area.width >= target_area.height.wrapping_mul(2),
    };
    let num_groups: usize = num_panes / 4 + if num_panes % 4 != 0 {
        1
    } else {
        0
    };
    let (primary_dir, secondary_dir) = if use_horizontal {
        (Direction::Vertical, Direction::Horizontal)
    } else {
        (Direction::Horizontal, Direction::Vertical)
    };
    let ratios = equal_ratios(num_groups);
    let ghost rs = ratios@;
    let ghost memo0 = splitter.memo();
    let primary_areas = splitter.split(target_area, primary_dir, ratios);
    let ghost memo1 = splitter.memo();
    let base_size = num_panes / num_groups;
    let remainder = num_panes % num_groups;
    let ghost old_g = geometries@;
    assert forall|m: SplitMemo| #[trigger] extends(m, memo1) implies old_g + grid_geometries(
        m,
        ids@,
        target_area,
        configured_direction,
    ) == geometries@ + groups_from(m, ids@, primary_areas@, secondary_dir, num_groups as nat, 0, 0) by {
        assert(split_of(m, target_area, primary_dir, rs) == primary_areas@);
    }
    let mut start_idx: usize = 0;
    let mut group_idx: usize = 0;
    while group_idx < primary_areas.len()
        invariant
            primary_areas@.len() == num_groups,
            num_groups > 0,
            num_panes == ids@.len(),
            base_size == num_panes / num_groups,
            remainder == num_panes % num_groups,
            group_idx <= num_groups,
            start_idx == group_idx * base_size + if group_idx < remainder {
                group_idx
            } else {
                remainder
            },
            start_idx <= num_panes,
            splitter.wf(),
            extends(splitter.memo(), memo1),
            extends(memo1, memo0),
            forall|m: SplitMemo|
                #[trigger] extends(m, splitter.memo()) ==> old_g + grid_geometries(
                    m,
                    ids@,
                    target_area,
                    configured_direction,
                ) == geometries@ + groups_from(
                    m,
                    ids@,
                    primary_areas@,
                    secondary_dir,
                    num_groups as nat,
                    group_idx as int,
                    start_idx as int,
                ),
        decreases num_groups - group_idx,
    {
        proof {
            lemma_group_bounds(num_panes as nat, num_groups as nat, group_idx as nat);
        }
        let group_len_now: usize = base_size + if group_idx < remainder {
            1
        } else {
            0
        };
        let end_idx = start_idx + group_len_now;
        let sub = equal_ratios(group_len_now);
        let ghost subs = sub@;
        let ghost memo_g = splitter.memo();
        let parts = splitter.split(primary_areas[group_idx], secondary_dir, sub);
        proof {
            lemma_extends_trans(splitter.memo(), memo_g, memo1);
        }
        let ghost before = geometries@;
        let ghost group = Seq::new(
            group_len_now as nat,
            |j: int| geometry_of(PaneTarget::Process(ids@[start_idx + j]), parts@[j]),
        );
        let mut j: usize = 0;
        while j < group_len_now
            invariant
                j <= group_len_now,
                num_panes == ids@.len(),
                parts@.len() == group_len_now,
                start_idx + group_len_now <= ids@.len(),
                group == Seq::new(
                    group_len_now as nat,
                    |t: int| geometry_of(PaneTarget::Process(ids@[start_idx + t]), parts@[t]),
                ),
                geometries@ == before + group.take(j as int),
            decreases group_len_now - j,
        {
            geometries.push(PaneGeometry::new(PaneTarget::Process(ids[start_idx + j]), parts[j]));
            assert(group.take(j + 1) =~= group.take(j as int).push(group[j as int]));
            j = j + 1;
            assert(geometries@ =~= before + group.take(j as int));
        }
        assert(group.take(group_len_now as int) =~= group);
        assert forall|m: SplitMemo| #[trigger] extends(m, splitter.memo()) implies old_g + grid_geometries(
            m,
            ids@,
            target_area,
            configured_direction,
        ) == geometries@ + groups_from(
            m,
            ids@,
            primary_areas@,
            secondary_dir,
            num_groups as nat,
            group_idx + 1,
            end_idx as int,
        ) by {
            lemma_extends_trans(m, splitter.memo(), memo_g);
            assert(split_of(m, primary_areas@[group_idx as int], secondary_dir, subs) == parts@);
            assert(before + groups_from(
                m,
                ids@,
                primary_areas@,
                secondary_dir,
                num_groups as nat,
                group_idx as int,
                start_idx as int,
            ) =~= (before + group) + groups_from(
                m,
                ids@,
                primary_areas@,
                secondary_dir,
                num_groups as nat,
                group_idx + 1,
                end_idx as int,
            ));
        }
        start_idx = end_idx;
        group_idx = group_idx + 1;
    }
    proof {
        lemma_extends_trans(splitter.memo(), memo1, memo0);
    }
    assert(geometries@ + Seq::<PaneGeometry>::empty() =~= geometries@);
}

/// Whether the panes hold one with identifier `id`.
fn contains_pane<L>(panes: &[ProcessPane<L>], id: usize) -> (r: bool)
    ensures
        r == has_pane(panes@, id),
{
    let mut i: usize = 0;
    while i < panes.len()
        invariant
            i <= panes@.len(),
            forall|j: int| 0 <= j < i ==> (#[trigger] panes@[j]).id != id,
        decreases panes@.len() - i,
    {
        if panes[i].id == id {
            return true;
        }
        i = i + 1;
    }
    false
}

/// Computes where each pane is drawn in `grid_area`: the zoomed pane alone
/// over the whole grid; otherwise the layout tree, its top-level nodes with
/// an edge carving slices off the remaining area in turn, then the panes
/// that no node names arranged in a grid over the first `unassigned` node
/// (or over what the tree left). `None` where a split has no divisor for
/// the shares of its size-less children.
pub fn compute_pane_geometries<L>(
    grid_area: Rect,
    panes: &[ProcessPane<L>],
    zoomed_pane: Option<usize>,
    layout_items: &[LayoutNode],
) -> (r: Option<Vec<PaneGeometry>>)
    ensures
        exists|m: SplitMemo|
            memo_sound(m) && #[trigger] placed_as(m, r, grid_area, panes@, zoomed_pane, layout_items@),
        r is Some ==> forall|i: int|
            0 <= i < r->0@.len() ==> lies_within((#[trigger] r->0@[i]).area, grid_area),
{
    let mut splitter = Splitter::new();
    let r = place_panes(&mut splitter, grid_area, panes, zoomed_pane, layout_items);
    proof {
        splitter.lemma_sound();
        assert(extends(splitter.memo(), splitter.memo()));
        assert(placed_as(splitter.memo(), r, grid_area, panes@, zoomed_pane, layout_items@));
        law_panes_lie_within_grid(splitter.memo(), grid_area, panes@, zoomed_pane, layout_items@);
    }
    r
}

/// `r` is the placement of the panes under the splits of `m`: the
/// geometries when the layout fits, else `None`.
pub open spec fn placed_as<L>(
    m: SplitMemo,
    r: Option<Vec<PaneGeometry>>,
    grid: Rect,
    panes: Seq<ProcessPane<L>>,
    zoomed: Option<usize>,
    items: Seq<LayoutNode>,
) -> bool {
    match r {
        Some(g) => layout_fits(m, grid, panes, zoomed, items) && g@ == geometries_for(m, grid, panes, zoomed, items),
        None => !layout_fits(m, grid, panes, zoomed, items),
    }
}

/// The placement of the panes, with the splits recorded in `splitter`: the
/// result is the placement under every record that keeps the splits this
/// call made, each keyed by the area, direction and constraints it was
/// asked for.
pub fn place_panes<L>(
    splitter: &mut Splitter,
    grid_area: Rect,
    panes: &[ProcessPane<L>],
    zoomed_pane: Option<usize>,
    layout_items: &[LayoutNode],
) -> (r: Option<Vec<PaneGeometry>>)
    requires
        old(splitter).wf(),
    ensures
        final(splitter).wf(),
        extends(final(splitter).memo(), old(splitter).memo()),
        forall|m: SplitMemo|
            #[trigger] extends(m, final(splitter).memo()) ==> placed_as(
                m,
                r,
                grid_area,
                panes@,
                zoomed_pane,
                layout_items@,
            ),
{
    if panes.len() == 0 {
        return Some(Vec::new());
    }
    if let Some(zoom_id) = zoomed_pane {
        if contains_pane(panes, zoom_id) {
            let mut single: Vec<PaneGeometry> = Vec::new();
            single.push(PaneGeometry::new(PaneTarget::Process(zoom_id), grid_area));
            assert(single@ =~= seq![geometry_of(PaneTarget::Process(zoom_id), grid_area)]);
            return Some(single);
        }
    }
    let ghost memo0 = splitter.memo();
    let mut geometries: Vec<PaneGeometry> = Vec::new();
    let mut remaining_area = grid_area;
    let mut resolver = PaneResolver::with_capacity(panes.len());
    let mut unassigned_container: Option<(Rect, Option<LayoutDirection>)> = None;
    assert(geometries@ =~= Seq::<PaneGeometry>::empty());
    let ghost start_pass = pass_of(resolver.assigned_panes@, resolver.include_combined_logs, geometries@, unassigned_container);
    assert(start_pass == empty_pass());
    let mut k: usize = 0;
    while k < layout_items.len()
        invariant
            k <= layout_items@.len(),
            panes@.len() > 0,
            !(zoomed_pane is Some && has_pane(panes@, zoomed_pane->0)),
            splitter.wf(),
            extends(splitter.memo(), memo0),
            memo0 == old(splitter).memo(),
            forall|m: SplitMemo|
                #[trigger] extends(m, splitter.memo()) ==> {
                    &&& top_fits(m, layout_items@, 0, grid_area) == top_fits(
                        m,
                        layout_items@,
                        k as int,
                        remaining_area,
                    )
                    &&& place_top(m, layout_items@, 0, grid_area, panes@, empty_pass()) == place_top(
                        m,
                        layout_items@,
                        k as int,
                        remaining_area,
                        panes@,
                        pass_of(
                            resolver.assigned_panes@,
                            resolver.include_combined_logs,
                            geometries@,
                            unassigned_container,
                        ),
                    )
                },
        decreases layout_items@.len() - k,
    {
        let item = &layout_items[k];
        let ghost rem0 = remaining_area;
        let ghost memo_k = splitter.memo();
        let ghost pass_k = pass_of(
            resolver.assigned_panes@,
            resolver.include_combined_logs,
            geometries@,
            unassigned_container,
        );
        let carved_area = match item.edge {
            Some(edge) => {
                let size = match item.size {
                    Some(s) => s,
                    None => 100,
                };
                let (slice, next) = carve_layout_edge(splitter, remaining_area, edge, size);
                remaining_area = next;
                slice
            },
            None => remaining_area,
        };
        let ghost memo_c = splitter.memo();
        proof {
            lemma_extends_trans(memo_c, memo_c, memo_k);
        }
        let ok = process_layout_node(
            splitter,
            item,
            carved_area,
            panes,
            &mut resolver,
            &mut geometries,
            &mut unassigned_container,
        );
        proof {
            lemma_extends_trans(splitter.memo(), memo_c, memo_k);
            lemma_extends_trans(splitter.memo(), memo_k, memo0);
            assert forall|m: SplitMemo| #[trigger] extends(m, splitter.memo()) implies {
                &&& extends(m, memo_c)
                &&& extends(m, memo_k)
                &&& (carved_area, remaining_area) == match layout_items@[k as int].edge {
                    Some(e) => carved(
                        m,
                        rem0,
                        e,
                        match layout_items@[k as int].size {
                            Some(s) => s,
                            None => 100,
                        },
                    ),
                    None => (rem0, rem0),
                }
            } by {
                lemma_extends_trans(m, splitter.memo(), memo_c);
                lemma_extends_trans(m, memo_c, memo_k);
            }
        }
        if !ok {
            assert forall|m: SplitMemo| #[trigger] extends(m, splitter.memo()) implies placed_as(
                m,
                None::<Vec<PaneGeometry>>,
                grid_area,
                panes@,
                zoomed_pane,
                layout_items@,
            ) by {
                assert(extends(m, memo_k));
                assert(!top_fits(m, layout_items@, k as int, rem0));
            }
            return None;
        }
        assert forall|m: SplitMemo| #[trigger] extends(m, splitter.memo()) implies {
            &&& top_fits(m, layout_items@, 0, grid_area) == top_fits(
                m,
                layout_items@,
                k + 1,
                remaining_area,
            )
            &&& place_top(m, layout_items@, 0, grid_area, panes@, empty_pass()) == place_top(
                m,
                layout_items@,
                k + 1,
                remaining_area,
                panes@,
                pass_of(
                    resolver.assigned_panes@,
                    resolver.include_combined_logs,
                    geometries@,
                    unassigned_container,
                ),
            )
        } by {
            assert(extends(m, memo_k));
            assert(top_fits(m, layout_items@, k as int, rem0) == (node_fits(m, layout_items@[k as int], carved_area)
                && top_fits(m, layout_items@, k + 1, remaining_area)));
        }
        k = k + 1;
    }
    let ids = unassigned_of(panes, &resolver.assigned_panes);
    let (target_area, configured_direction) = match unassigned_container {
        Some(c) => c,
        None => (remaining_area, None),
    };
    let ghost memo_l = splitter.memo();
    let ghost pass_l = pass_of(
        resolver.assigned_panes@,
        resolver.include_combined_logs,
        geometries@,
        unassigned_container,
    );
    layout_unassigned_panes(splitter, &ids, target_area, configured_direction, &mut geometries);
    proof {
        lemma_extends_trans(splitter.memo(), memo_l, memo0);
        assert forall|m: SplitMemo| #[trigger] extends(m, splitter.memo()) implies placed_as(
            m,
            Some(geometries),
            grid_area,
            panes@,
            zoomed_pane,
            layout_items@,
        ) by {
            lemma_extends_trans(m, splitter.memo(), memo_l);
            assert(place_top(m, layout_items@, 0, grid_area, panes@, empty_pass()) == (pass_l, remaining_area));
        }
    }
    Some(geometries)
}

/// Whether the size-less children of a split leave a divisor for their
/// shares (their count, taken as a `u16`, is not zero when there are any).
fn split_divisible_of(children: &Vec<LayoutNode>) -> (r: bool)
    ensures
        r == split_is_divisible(children@),
{
    let mut unsized_n: usize = 0;
    let mut i: usize = 0;
    while i < children.len()
        invariant
            i <= children@.len(),
            unsized_n == unsized_count(children@.take(i as int)),
            unsized_n <= i,
        decreases children@.len() - i,
    {
        proof {
            lemma_take_step(children@, i as int);
        }
        if children[i].size.is_none() {
            unsized_n = unsized_n + 1;
        }
        i = i + 1;
    }
    assert(children@.take(children@.len() as int) =~= children@);
    !(unsized_n > 0 && unsized_n % 65536 == 0)
}

/// Columns stack and rows line up: a node on the left or right edge with no
/// direction of its own splits its children vertically (each child keeps
/// the node's x and width, stacked along y); one on the top or bottom edge,
/// or on no edge, splits them horizontally (each keeps the node's y and
/// height); an explicit direction is followed.
pub proof fn law_edge_columns_stack_their_children(
    m: SplitMemo,
    node: LayoutNode,
    area: Rect,
    constraints: Seq<Constraint>,
)
    requires
        memo_sound(m),
    ensures
        ({
            let parts = split_of(m, area, split_direction(node), constraints);
            let stacked = forall|i: int|
                0 <= i < parts.len() ==> (#[trigger] parts[i]).x == area.x && parts[i].width == area.width
                    && area.y <= parts[i].y && parts[i].y + parts[i].height <= area.y + area.height;
            let side_by_side = forall|i: int|
                0 <= i < parts.len() ==> (#[trigger] parts[i]).y == area.y && parts[i].height == area.height
                    && area.x <= parts[i].x && parts[i].x + parts[i].width <= area.x + area.width;
            &&& parts.len() == constraints.len()
            &&& node.direction == Some(LayoutDirection::Vertical) ==> stacked
            &&& node.direction == Some(LayoutDirection::Horizontal) ==> side_by_side
            &&& node.direction is None && (node.edge == Some(LayoutEdge::Left) || node.edge == Some(
                LayoutEdge::Right,
            )) ==> stacked
            &&& node.direction is None && !(node.edge == Some(LayoutEdge::Left) || node.edge == Some(
                LayoutEdge::Right,
            )) ==> side_by_side
        }),
{
    let d = split_direction(node);
    let parts = split_of(m, area, d, constraints);
    lemma_sound_split_of(m, area, d, constraints);
    assert forall|i: int| 0 <= i < parts.len() implies match d {
        Direction::Horizontal => (#[trigger] parts[i]).y == area.y && parts[i].height == area.height
            && area.x <= parts[i].x && parts[i].x + parts[i].width <= area.x + area.width,
        Direction::Vertical => parts[i].x == area.x && parts[i].width == area.width && area.y
            <= parts[i].y && parts[i].y + parts[i].height <= area.y + area.height,
    } by {
        assert(parts_fit(area, d, constraints.len(), parts));
        assert(parts_along(area, d, parts));
        let y = parts[i].y;
        let x = parts[i].x;
    }
}

} // verus!
