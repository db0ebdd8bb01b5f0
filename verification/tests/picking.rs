use bevy_easy_portals::{portal_hover_routes, HoverHit, Route, RouteKind};

fn hit(pointer: u64, portal: u64, reads_inputs: bool) -> HoverHit {
    HoverHit { pointer, portal, reads_inputs }
}

fn route(input: usize, portal: u64, kind: RouteKind) -> Route {
    Route { input, portal, kind }
}

#[test]
fn hovering_pointer_inputs_go_through_the_hovered_portal() {
    let portals = vec![100, 200];
    let hits = vec![hit(1, 100, true)];
    let inputs = vec![1, 2, 1, 3];
    let routes = portal_hover_routes(&portals, &hits, &inputs, &vec![]);
    assert_eq!(routes, vec![route(0, 100, RouteKind::Hover), route(2, 100, RouteKind::Hover)]);
}

#[test]
fn only_the_first_reading_hit_receives_inputs() {
    let portals = vec![100, 200];
    let hits = vec![hit(1, 100, false), hit(2, 200, true), hit(1, 100, true)];
    let inputs = vec![1, 2, 2];
    let routes = portal_hover_routes(&portals, &hits, &inputs, &vec![]);
    assert_eq!(routes, vec![route(1, 200, RouteKind::Hover), route(2, 200, RouteKind::Hover)]);
}

#[test]
fn dragged_unhovered_portal_receives_all_inputs() {
    let portals = vec![100, 200];
    let hits = vec![hit(1, 100, false)];
    let inputs = vec![5, 6];
    // 100 is hovered (though its inputs were not read), 300 is no portal, 200 is dragged
    let drags = vec![100, 300, 200, 200];
    let routes = portal_hover_routes(&portals, &hits, &inputs, &drags);
    assert_eq!(routes, vec![route(0, 200, RouteKind::Drag), route(1, 200, RouteKind::Drag)]);
}

#[test]
fn drags_receive_nothing_once_a_hover_read_the_inputs() {
    let portals = vec![100, 200];
    let hits = vec![hit(1, 100, true)];
    let inputs = vec![2, 2];
    let routes = portal_hover_routes(&portals, &hits, &inputs, &vec![200]);
    assert!(routes.is_empty());
}

#[test]
fn nothing_routed_without_hits_or_drags() {
    let routes = portal_hover_routes(&vec![100], &vec![], &vec![1, 2, 3], &vec![]);
    assert!(routes.is_empty());
    let routes = portal_hover_routes(&vec![100], &vec![hit(1, 100, true)], &vec![], &vec![100]);
    assert!(routes.is_empty());
}

#[test]
fn each_input_is_routed_at_most_once() {
    let portals = vec![100, 200];
    let hits = vec![hit(7, 100, true), hit(7, 200, true)];
    let inputs = vec![7, 7, 7];
    let routes = portal_hover_routes(&portals, &hits, &inputs, &vec![100, 200]);
    assert_eq!(routes.len(), 3);
    for (k, r) in routes.iter().enumerate() {
        assert_eq!(r.input, k);
        assert_eq!(r.portal, 100);
    }
}
