use ironpath::navigation::RouteProgress;

#[test]
fn single_waypoint_route_advances_until_done() {
    let mut route = RouteProgress::new(1);
    assert_eq!(route.active_index(), Some(0));
    assert!(!route.update(false));
    assert!(route.update(true));
    assert!(route.is_finished());
    assert_eq!(route.active_index(), None);
}

#[test]
fn waypoints_are_visited_in_order() {
    let mut route = RouteProgress::new(4);
    assert_eq!(route.active_index(), Some(0));
    assert!(!route.update(true));
    assert_eq!(route.active_index(), Some(1));
    assert!(!route.update(false));
    assert_eq!(route.active_index(), Some(1));
    assert!(!route.update(true));
    assert!(!route.update(true));
    assert_eq!(route.active_index(), Some(3));
    assert!(route.update(true));
    assert_eq!(route.active_index(), None);
}

#[test]
fn finished_route_stays_finished() {
    let mut route = RouteProgress::new(2);
    assert!(!route.update(true));
    assert!(route.update(true));
    assert!(route.update(true));
    assert!(route.update(false));
    assert!(route.is_finished());
    assert_eq!(route.active_index(), None);
}

#[test]
fn empty_route_is_finished_from_the_start() {
    let mut route = RouteProgress::new(0);
    assert!(route.is_finished());
    assert_eq!(route.active_index(), None);
    assert!(route.update(true));
}

#[test]
fn arrivals_count_up_to_route_length() {
    let mut route = RouteProgress::new(3);
    let reached = [true, false, true, false, false, true, true, true];
    let mut count = 0;
    for r in reached {
        route.update(r);
        if r {
            count += 1;
        }
        let expected = if count < 3 { Some(count) } else { None };
        assert_eq!(route.active_index(), expected);
    }
}
