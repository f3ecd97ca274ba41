use rendering::definitions::UiAtlas;
use rendering::interface::Interface;
use rendering::router::AppLogic;
use rendering::router::AppState;
use rendering::router::CursorKind;
use rendering::router::Edge;
use rendering::router::InputEvent;
use rendering::router::ResizePlan;
use rendering::router::classify_edge;
use rendering::router::compute_resize;
use rendering::router::cursor_for_edge;
use rendering::router::edge_zone_width;

fn test_logic() -> AppLogic {
    let atlas = UiAtlas::new(0, 0);
    let interface = Interface::new(UiAtlas::new(0, 0));
    AppLogic::new(interface, atlas)
}

fn check_resize_edge(logic: &AppLogic, window_size: [u32; 2], edge_to_test: Edge) {
    let cursor_position: [i64; 2] = match edge_to_test {
        Edge::Left => [0, window_size[1] as i64 / 2],
        Edge::BottomLeft => [0, window_size[1] as i64],
        Edge::Bottom => [window_size[0] as i64 / 2, window_size[1] as i64],
        Edge::BottomRight => [window_size[0] as i64, window_size[1] as i64],
        Edge::Right => [window_size[0] as i64, window_size[1] as i64 / 2],
        Edge::NoEdge => [window_size[0] as i64 / 2, window_size[1] as i64 / 2],
    };
    let result = logic.handle_resizing(cursor_position, window_size);
    assert_eq!(
        edge_to_test, result,
        "We failed testing resize_edges, edge: {:#?} | returned: {:#?}",
        edge_to_test, result
    );
}

#[test]
fn resizing_check() {
    let logic = test_logic();
    let window_size: [u32; 2] = [800, 800];

    check_resize_edge(&logic, window_size, Edge::Left);
    check_resize_edge(&logic, window_size, Edge::BottomLeft);
    check_resize_edge(&logic, window_size, Edge::Bottom);
    check_resize_edge(&logic, window_size, Edge::BottomRight);
    check_resize_edge(&logic, window_size, Edge::Right);
}

#[test]
fn left_edge_at_mid_height() {
    // Window 800x800, cursor at the left boundary, default zone width.
    assert_eq!(classify_edge([0, 400], [800, 800], 2), Edge::Left);
}

#[test]
fn bottom_right_corner() {
    assert_eq!(classify_edge([800, 800], [800, 800], 2), Edge::BottomRight);
}

#[test]
fn interior_is_no_edge() {
    assert_eq!(classify_edge([400, 400], [800, 800], 2), Edge::NoEdge);
    assert_eq!(classify_edge([3, 400], [800, 800], 2), Edge::NoEdge);
}

#[test]
fn narrow_window_maps_to_no_edge() {
    // A cursor on the left and right zone at once resolves to no edge.
    assert_eq!(classify_edge([1, 50], [2, 800], 2), Edge::NoEdge);
}

#[test]
fn zone_widths_by_state() {
    assert_eq!(edge_zone_width(AppState::Default), 2);
    assert_eq!(edge_zone_width(AppState::Resizing), 100);
}

#[test]
fn hysteresis_band_while_resizing() {
    let mut logic = test_logic();
    logic.app_data.state = AppState::Resizing;
    // 60 pixels from the right edge: outside the 2-pixel default zone,
    // inside the 100-pixel resizing zone.
    assert_eq!(logic.handle_resizing([740, 400], [800, 800]), Edge::Right);
    logic.app_data.state = AppState::Default;
    assert_eq!(logic.handle_resizing([740, 400], [800, 800]), Edge::NoEdge);
}

#[test]
fn cursor_icons_for_edges() {
    assert_eq!(cursor_for_edge(Edge::Left), CursorKind::WResize);
    assert_eq!(cursor_for_edge(Edge::Right), CursorKind::EResize);
    assert_eq!(cursor_for_edge(Edge::Bottom), CursorKind::SResize);
    assert_eq!(cursor_for_edge(Edge::BottomLeft), CursorKind::SwResize);
    assert_eq!(cursor_for_edge(Edge::BottomRight), CursorKind::SeResize);
    assert_eq!(cursor_for_edge(Edge::NoEdge), CursorKind::Default);
}

#[test]
fn resize_floor_clamps_to_exactly_100() {
    // Shrinking 200 pixels by 150 would leave 50; the floor is 100.
    let plan = compute_resize(Edge::Right, [200, 200], 0, [-150, 0]);
    assert_eq!(plan, ResizePlan { new_width: 100, new_height: 200, new_position_x: 0 });

    // Exactly at the floor: no clamping artifact.
    let plan = compute_resize(Edge::Right, [150, 200], 0, [-50, 0]);
    assert_eq!(plan.new_width, 100);

    let plan = compute_resize(Edge::Bottom, [300, 120], 7, [0, -90]);
    assert_eq!(plan, ResizePlan { new_width: 300, new_height: 100, new_position_x: 7 });
}

#[test]
fn left_edge_shifts_outer_position() {
    // Dragging the left edge 50 pixels right shrinks the window and
    // moves its outer x so the right boundary stays anchored.
    let plan = compute_resize(Edge::Left, [800, 600], 10, [50, 0]);
    assert_eq!(plan, ResizePlan { new_width: 750, new_height: 600, new_position_x: 60 });
}

#[test]
fn bottom_right_applies_both_deltas() {
    let plan = compute_resize(Edge::BottomRight, [800, 600], -5, [20, 30]);
    assert_eq!(plan, ResizePlan { new_width: 820, new_height: 630, new_position_x: -5 });
}

#[test]
fn no_edge_leaves_geometry_unchanged() {
    let plan = compute_resize(Edge::NoEdge, [800, 600], 42, [100, 100]);
    assert_eq!(plan, ResizePlan { new_width: 800, new_height: 600, new_position_x: 42 });
}

#[test]
fn press_in_zone_starts_resizing() {
    let mut logic = test_logic();
    logic.app_data.last_logged_cursor_position = [0, 400];
    let _actions = logic.default_state_event_handler(&InputEvent::MouseLeftPressed, [800, 800]);
    assert_eq!(logic.app_data.state, AppState::Resizing);
}

#[test]
fn press_in_interior_stays_default() {
    let mut logic = test_logic();
    logic.app_data.last_logged_cursor_position = [400, 400];
    let _actions = logic.default_state_event_handler(&InputEvent::MouseLeftPressed, [800, 800]);
    assert_eq!(logic.app_data.state, AppState::Default);
}

#[test]
fn release_ends_resizing() {
    let mut logic = test_logic();
    logic.app_data.state = AppState::Resizing;
    let _actions =
        logic.resizing_state_event_handler(&InputEvent::MouseLeftReleased, [800, 800], [0, 0]);
    assert_eq!(logic.app_data.state, AppState::Default);
}

#[test]
fn losing_every_zone_aborts_the_drag() {
    let mut logic = test_logic();
    logic.app_data.state = AppState::Resizing;
    logic.app_data.last_logged_cursor_position = [790, 400];
    // The cursor moves deep into the interior: no zone matches even at
    // the widened band, so the drag is abandoned.
    let _actions = logic.resizing_state_event_handler(
        &InputEvent::CursorMoved { x: 400, y: 400 },
        [800, 800],
        [0, 0],
    );
    assert_eq!(logic.app_data.state, AppState::Default);
}

#[test]
fn drag_on_right_edge_requests_new_size() {
    let mut logic = test_logic();
    logic.app_data.state = AppState::Resizing;
    logic.app_data.last_logged_cursor_position = [795, 400];
    let actions = logic.resizing_state_event_handler(
        &InputEvent::CursorMoved { x: 815, y: 400 },
        [800, 800],
        [3, 9],
    );
    assert_eq!(logic.app_data.state, AppState::Resizing);
    assert!(actions.contains(&rendering::router::AppAction::RequestInnerSize {
        width: 820,
        height: 800
    }));
    assert!(actions.contains(&rendering::router::AppAction::SetOuterPosition { x: 3, y: 9 }));
    assert_eq!(logic.app_data.last_logged_cursor_position, [815, 400]);
}
