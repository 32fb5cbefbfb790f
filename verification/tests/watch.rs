use pinch::watch::{route_change, Debouncer, WatchRoute};

fn path(s: &str) -> Vec<String> {
    s.split('/').map(|c| c.to_string()).collect()
}

#[test]
fn a_change_goes_to_the_first_pane_watching_its_directory() {
    let routes = vec![
        WatchRoute { path: path("/srv/app"), pane: 1 },
        WatchRoute { path: path("/srv"), pane: 2 },
    ];
    assert_eq!(route_change(&routes, &path("/srv/app/src/main.rs")), Some(1));
    assert_eq!(route_change(&routes, &path("/srv/other.txt")), Some(2));
    assert_eq!(route_change(&routes, &path("/srv/application")), Some(2));
    assert_eq!(route_change(&routes, &path("/tmp/x")), None);
}

#[test]
fn changes_are_released_once_they_settle() {
    let mut d = Debouncer::new();
    let settle = vec![100, 500];
    d.note(0, 1_000);
    d.note(1, 1_000);
    assert!(d.take_due(1_050, &settle).is_empty());
    assert_eq!(d.take_due(1_100, &settle), vec![0]);
    assert!(d.take_due(1_200, &settle).is_empty());
    d.note(1, 1_400);
    assert!(d.take_due(1_600, &settle).is_empty());
    assert_eq!(d.take_due(1_900, &settle), vec![1]);
}

#[test]
fn panes_without_a_settle_time_wait_800_ms() {
    let mut d = Debouncer::new();
    d.note(7, 0);
    assert!(d.take_due(799, &vec![]).is_empty());
    assert_eq!(d.take_due(800, &vec![]), vec![7]);
}
