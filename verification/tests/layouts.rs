use pinch::config::ProcessConfig;
use pinch::layouts::{compute_pane_geometries, place_panes, Splitter, PaneGeometry, PaneTarget, Rect, RectHitTest, Viewport};
use pinch::panes::ProcessPane;
use pinch::runners::RunMode;
use pinch::schema::{LayoutDirection, LayoutEdge, LayoutNode, PaneMode};

fn cfg(name: &str) -> ProcessConfig {
    ProcessConfig {
        name: name.into(),
        title: name.into(),
        cmd: vec!["true".into()],
        link: None,
        cwd: None,
        watch: vec![],
        watch_settle_time_ms: 800,
        mode: PaneMode::Log,
        auto_start: false,
        auto_restart: false,
        grace_period: 0,
        run_mode: RunMode::Exec,
    }
}

fn panes(n: usize) -> Vec<ProcessPane<String>> {
    (0..n).map(|i| ProcessPane::new(i, None, cfg(&format!("p{i}")))).collect()
}

fn node() -> LayoutNode {
    LayoutNode { edge: None, size: None, direction: None, name: None, unassigned: None, items: None }
}

fn named(name: &str) -> LayoutNode {
    let mut n = node();
    n.name = Some(name.to_string());
    n
}

fn areas(g: &[PaneGeometry]) -> Vec<(PaneTarget, (u16, u16, u16, u16))> {
    g.iter().map(|x| (x.target, (x.area.x, x.area.y, x.area.width, x.area.height))).collect()
}

#[test]
fn no_panes_no_geometries() {
    let g = compute_pane_geometries(Rect::new(0, 0, 100, 50), &panes(0), None, &[]).unwrap();
    assert!(g.is_empty());
}

#[test]
fn unassigned_panes_fill_a_wide_grid_side_by_side() {
    let g = compute_pane_geometries(Rect::new(0, 0, 100, 50), &panes(2), None, &[]).unwrap();
    assert_eq!(
        areas(&g),
        vec![(PaneTarget::Process(0), (0, 0, 50, 50)), (PaneTarget::Process(1), (50, 0, 50, 50))]
    );
}

#[test]
fn unassigned_panes_stack_in_a_tall_grid() {
    let g = compute_pane_geometries(Rect::new(0, 0, 40, 40), &panes(2), None, &[]).unwrap();
    assert_eq!(
        areas(&g),
        vec![(PaneTarget::Process(0), (0, 0, 40, 20)), (PaneTarget::Process(1), (0, 20, 40, 20))]
    );
}

#[test]
fn zoomed_pane_takes_the_whole_grid() {
    let g = compute_pane_geometries(Rect::new(0, 0, 100, 50), &panes(3), Some(1), &[]).unwrap();
    assert_eq!(areas(&g), vec![(PaneTarget::Process(1), (0, 0, 100, 50))]);
    let g = compute_pane_geometries(Rect::new(0, 0, 100, 50), &panes(3), Some(9), &[]).unwrap();
    assert_eq!(g.len(), 3);
}

#[test]
fn edge_nodes_carve_the_remaining_area() {
    let mut left = named("p0");
    left.edge = Some(LayoutEdge::Left);
    left.size = Some(30);
    let g = compute_pane_geometries(Rect::new(0, 0, 100, 50), &panes(2), None, &[left]).unwrap();
    assert_eq!(
        areas(&g),
        vec![(PaneTarget::Process(0), (0, 0, 30, 50)), (PaneTarget::Process(1), (30, 0, 70, 50))]
    );
}

#[test]
fn combined_logs_can_be_placed_once() {
    let mut bottom = named("combined-logs");
    bottom.edge = Some(LayoutEdge::Bottom);
    bottom.size = Some(20);
    let again = named("combined-logs");
    let g = compute_pane_geometries(Rect::new(0, 0, 100, 50), &panes(2), None, &[bottom, again]).unwrap();
    assert_eq!(
        areas(&g),
        vec![
            (PaneTarget::CombinedLogs, (0, 40, 100, 10)),
            (PaneTarget::Process(0), (0, 0, 50, 40)),
            (PaneTarget::Process(1), (50, 0, 50, 40)),
        ]
    );
}

#[test]
fn a_process_named_twice_is_placed_once_and_unknown_names_are_ignored() {
    let mut split = node();
    split.direction = Some(LayoutDirection::Horizontal);
    split.items = Some(vec![named("p0"), named("p0"), named("ghost")]);
    let g = compute_pane_geometries(Rect::new(0, 0, 300, 30), &panes(1), None, &[split]).unwrap();
    assert_eq!(g.len(), 1);
    assert_eq!(g[0].target, PaneTarget::Process(0));
    assert_eq!((g[0].area.x, g[0].area.width), (0, 99));
}

#[test]
fn unassigned_node_receives_the_remaining_panes() {
    let mut col = node();
    col.direction = Some(LayoutDirection::Vertical);
    let mut holder = node();
    holder.unassigned = Some(true);
    holder.direction = Some(LayoutDirection::Vertical);
    col.items = Some(vec![named("p0"), holder]);
    let g = compute_pane_geometries(Rect::new(0, 0, 100, 40), &panes(3), None, &[col]).unwrap();
    assert_eq!(
        areas(&g),
        vec![
            (PaneTarget::Process(0), (0, 0, 100, 20)),
            (PaneTarget::Process(1), (0, 20, 100, 10)),
            (PaneTarget::Process(2), (0, 30, 100, 10)),
        ]
    );
}

#[test]
fn groups_hold_at_most_four_panes() {
    let g = compute_pane_geometries(Rect::new(0, 0, 200, 40), &panes(5), None, &[]).unwrap();
    assert_eq!(g.len(), 5);
    let rows: Vec<u16> = g.iter().map(|x| x.area.y).collect();
    assert_eq!(rows, vec![0, 0, 0, 20, 20]);
}

#[test]
fn buttons_sit_in_the_title_bar_and_are_cut_at_the_edge() {
    let g = PaneGeometry::new(PaneTarget::Process(0), Rect::new(10, 5, 12, 8));
    assert_eq!((g.toggle_area.x, g.toggle_area.y, g.toggle_area.width, g.toggle_area.height), (11, 5, 4, 1));
    assert_eq!((g.restart_area.x, g.restart_area.width), (15, 4));
    assert_eq!((g.wrap_area.x, g.wrap_area.width), (19, 3));
    assert_eq!((g.zoom_area.width, g.zoom_area.height), (0, 0));
    assert!(g.toggle_area.hit(11, 5));
    assert!(!g.toggle_area.hit(15, 5));
    assert!(!g.toggle_area.hit(11, 6));
}

#[test]
fn rect_new_clamps_to_the_coordinate_space() {
    let r = Rect::new(65530, 0, 100, 3);
    assert_eq!(r.width, 5);
}

#[test]
fn viewport_follows_the_tail_or_the_scrolled_top() {
    let v = Viewport::visible_range(100, 10, None);
    assert_eq!((v.start, v.end, v.is_scrolled), (90, 100, false));
    let v = Viewport::visible_range(100, 10, Some(95));
    assert_eq!((v.start, v.end, v.is_scrolled), (90, 100, true));
    let v = Viewport::visible_range(5, 10, Some(3));
    assert_eq!((v.start, v.end, v.is_scrolled), (0, 5, true));
}

#[test]
fn a_split_without_a_divisor_is_refused_only_where_it_is_reached() {
    let mut split = node();
    split.items = Some((0..65536).map(|_| node()).collect());
    assert!(compute_pane_geometries(Rect::new(0, 0, 100, 50), &panes(1), None, &[split]).is_none());
    let mut split = node();
    split.items = Some((0..65536).map(|_| node()).collect());
    assert!(compute_pane_geometries(Rect::new(0, 0, 0, 50), &panes(1), None, &[split]).is_some());
    let mut split = node();
    split.items = Some((0..65536).map(|_| node()).collect());
    assert!(compute_pane_geometries(Rect::new(0, 0, 100, 50), &panes(1), Some(0), &[split]).is_some());
}

#[test]
fn a_process_named_twice_is_drawn_once() {
    let mut split = node();
    split.items = Some(vec![named("p0"), named("p0"), named("combined-logs"), named("combined-logs")]);
    let g = compute_pane_geometries(Rect::new(0, 0, 100, 50), &panes(3), None, &[split]).unwrap();
    let targets: Vec<PaneTarget> = g.iter().map(|x| x.target).collect();
    assert_eq!(targets.iter().filter(|t| **t == PaneTarget::Process(0)).count(), 1);
    assert_eq!(targets.iter().filter(|t| **t == PaneTarget::CombinedLogs).count(), 1);
    for i in 0..targets.len() {
        for j in (i + 1)..targets.len() {
            assert_ne!(targets[i], targets[j]);
        }
    }
}

#[test]
fn every_pane_lies_within_an_offset_grid() {
    let grid = Rect::new(7, 3, 61, 29);
    let mut left = named("p0");
    left.edge = Some(LayoutEdge::Left);
    left.size = Some(20);
    for (n, items) in [(1usize, vec![]), (5, vec![]), (3, vec![left])] {
        let g = compute_pane_geometries(grid, &panes(n), None, &items).unwrap();
        assert!(!g.is_empty());
        for p in &g {
            let a = p.area;
            assert!(a.x >= grid.x && a.y >= grid.y, "{:?}", a);
            assert!(a.x + a.width <= grid.x + grid.width, "{:?}", a);
            assert!(a.y + a.height <= grid.y + grid.height, "{:?}", a);
        }
    }
}

#[test]
fn placing_with_a_shared_splitter_repeats_the_same_geometries() {
    let mut splitter = Splitter::new();
    let grid = Rect::new(0, 0, 100, 50);
    let first = place_panes(&mut splitter, grid, &panes(3), None, &[]).unwrap();
    let again = place_panes(&mut splitter, grid, &panes(3), None, &[]).unwrap();
    assert_eq!(areas(&first), areas(&again));
    assert_eq!(areas(&first), areas(&compute_pane_geometries(grid, &panes(3), None, &[]).unwrap()));
}
