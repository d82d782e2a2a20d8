use screen_overlay::geometry::{Point, Rect, WindowPoint};
use screen_overlay::overlay::{
    FrameAction, FrameInput, OverlayWindow, POLL_INTERVAL_NANOS,
};
use screen_overlay::scale::DpiScale;
use screen_overlay::selection::{SharedState, MIN_SELECTION_SIZE};
use screen_overlay::topology::DisplayDescriptor;

fn monitor(x: i32, y: i32, width: u32, height: u32, per_mille: u32, index: usize) -> DisplayDescriptor {
    DisplayDescriptor {
        x,
        y,
        width,
        height,
        scale: DpiScale::from_per_mille(per_mille),
        index,
        source: index,
    }
}

fn window(d: DisplayDescriptor) -> OverlayWindow {
    let bounds = Rect { min_x: 0, min_y: 0, max_x: 4480, max_y: 1440 };
    OverlayWindow::new(d, bounds, Some((d.width, d.height)))
}

fn rect(min_x: i64, min_y: i64, max_x: i64, max_y: i64) -> Rect {
    Rect { min_x, min_y, max_x, max_y }
}

fn at(x: i32, y: i32) -> Option<WindowPoint> {
    Some(WindowPoint { x, y })
}

fn down(p: Option<WindowPoint>) -> FrameInput {
    FrameInput { pointer: p, primary_pressed: true, primary_released: false, escape_pressed: false }
}

fn hover(p: Option<WindowPoint>) -> FrameInput {
    FrameInput { pointer: p, primary_pressed: false, primary_released: false, escape_pressed: false }
}

fn up(p: Option<WindowPoint>) -> FrameInput {
    FrameInput { pointer: p, primary_pressed: false, primary_released: true, escape_pressed: false }
}

fn escape(p: Option<WindowPoint>) -> FrameInput {
    FrameInput { pointer: p, primary_pressed: false, primary_released: false, escape_pressed: true }
}

#[test]
fn the_default_state_is_fresh() {
    let s = SharedState::default();
    assert_eq!(s.selection_rect, None);
    assert_eq!(s.drag_start, None);
    assert!(!s.is_dragging);
    assert!(!s.should_close);
    assert_eq!(MIN_SELECTION_SIZE, 5);
}

#[test]
fn the_state_hands_out_and_takes_its_parts() {
    let mut s = SharedState::default();
    assert_eq!(s.to_rect(), None);
    assert_eq!(s.drag_start_pos(), None);
    s.set_rect(Some(rect(1, 2, 30, 40)));
    s.set_drag_start(Some(Point { x: 1, y: 2 }));
    assert_eq!(s.to_rect(), Some(rect(1, 2, 30, 40)));
    assert_eq!(s.drag_start_pos(), Some(Point { x: 1, y: 2 }));
    assert!(!s.is_dragging && !s.should_close);
    s.set_rect(None);
    s.set_drag_start(None);
    assert_eq!(s, SharedState::default());
}

#[test]
fn pointer_down_starts_a_drag_with_a_selection_of_no_size() {
    let s = SharedState::default().pointer_down(Point { x: 7, y: -3 });
    assert!(s.is_dragging);
    assert_eq!(s.drag_start, Some(Point { x: 7, y: -3 }));
    assert_eq!(s.selection_rect, Some(rect(7, -3, 7, -3)));
    assert!(!s.should_close);
}

#[test]
fn pointer_move_follows_the_pointer_in_any_direction() {
    let s = SharedState::default().pointer_down(Point { x: 100, y: 100 });
    assert_eq!(s.pointer_move(Some(Point { x: 200, y: 150 })).selection_rect, Some(rect(100, 100, 200, 150)));
    assert_eq!(s.pointer_move(Some(Point { x: 0, y: 150 })).selection_rect, Some(rect(0, 100, 100, 150)));
    assert_eq!(s.pointer_move(Some(Point { x: 0, y: 50 })).selection_rect, Some(rect(0, 50, 100, 100)));
    assert_eq!(s.pointer_move(Some(Point { x: 200, y: 50 })).selection_rect, Some(rect(100, 50, 200, 100)));
}

#[test]
fn pointer_move_drops_a_selection_below_the_minimum() {
    let s = SharedState::default().pointer_down(Point { x: 100, y: 100 });
    assert_eq!(s.pointer_move(Some(Point { x: 105, y: 105 })).selection_rect, Some(rect(100, 100, 105, 105)));
    assert_eq!(s.pointer_move(Some(Point { x: 104, y: 105 })).selection_rect, None);
    assert_eq!(s.pointer_move(Some(Point { x: 105, y: 104 })).selection_rect, None);
    assert_eq!(s.pointer_move(Some(Point { x: 95, y: 95 })).selection_rect, Some(rect(95, 95, 100, 100)));
    assert_eq!(s.pointer_move(Some(Point { x: 96, y: 0 })).selection_rect, None);
    assert_eq!(s.pointer_move(Some(Point { x: 100, y: 100 })).selection_rect, None);
}

#[test]
fn pointer_move_outside_a_drag_changes_nothing() {
    let idle = SharedState { selection_rect: Some(rect(0, 0, 9, 9)), ..SharedState::default() };
    assert_eq!(idle.pointer_move(Some(Point { x: 50, y: 50 })), idle);
    let no_start = SharedState { is_dragging: true, ..idle };
    assert_eq!(no_start.pointer_move(Some(Point { x: 50, y: 50 })), no_start);
    let dragging = idle.pointer_down(Point { x: 1, y: 1 });
    assert_eq!(dragging.pointer_move(None), dragging);
}

#[test]
fn pointer_move_stands_coordinates_at_the_ends_of_the_range() {
    let s = SharedState::default().pointer_down(Point { x: i64::MIN, y: i64::MIN });
    let moved = s.pointer_move(Some(Point { x: i64::MAX, y: i64::MAX }));
    assert_eq!(moved.selection_rect, Some(rect(i64::MIN, i64::MIN, i64::MAX, i64::MAX)));
}

#[test]
fn pointer_up_ends_the_drag_and_keeps_the_selection() {
    let s = SharedState::default()
        .pointer_down(Point { x: 10, y: 10 })
        .pointer_move(Some(Point { x: 60, y: 70 }))
        .pointer_up();
    assert!(!s.is_dragging);
    assert_eq!(s.selection_rect, Some(rect(10, 10, 60, 70)));
    assert_eq!(s.drag_start, None);
}

#[test]
fn cancel_asks_every_window_to_close() {
    let s = SharedState::default().pointer_down(Point { x: 10, y: 10 });
    let c = s.cancel();
    assert!(c.should_close);
    assert_eq!(SharedState { should_close: false, ..c }, s);
    assert!(c.pointer_move(Some(Point { x: 90, y: 90 })).should_close);
    assert_eq!(c.pointer_up().drag_start, None);
    assert!(c.pointer_up().should_close);
    assert!(c.pointer_down(Point { x: 0, y: 0 }).should_close);
}

#[test]
fn a_window_moves_points_by_the_origin_of_its_display() {
    let w = window(monitor(1920, -200, 2560, 1440, 1250, 1));
    assert_eq!(w.window_to_virtual(WindowPoint { x: 50, y: 50 }), Point { x: 1970, y: -150 });
    assert_eq!(w.virtual_to_window(Point { x: 1970, y: -150 }), Point { x: 50, y: 50 });
    assert_eq!(w.virtual_to_window(Point { x: 0, y: 0 }), Point { x: -1920, y: 200 });
    let far = window(monitor(i32::MAX, i32::MIN, 1, 1, 1000, 0));
    assert_eq!(
        far.window_to_virtual(WindowPoint { x: i32::MAX, y: i32::MIN }),
        Point { x: 2 * (i32::MAX as i64), y: 2 * (i32::MIN as i64) }
    );
    assert_eq!(
        far.virtual_to_window(Point { x: i64::MIN, y: i64::MAX }),
        Point { x: i64::MIN, y: i64::MAX }
    );
}

#[test]
fn scenario_drag_across_two_displays() {
    let mut first = window(monitor(0, 0, 1920, 1080, 1000, 0));
    let mut second = window(monitor(1920, 0, 2560, 1440, 1250, 1));
    let pressed = first.handle_input(SharedState::default(), &down(at(100, 100)));
    assert!(pressed.written);
    assert!(pressed.state.is_dragging);
    assert_eq!(pressed.state.drag_start, Some(Point { x: 100, y: 100 }));
    assert_eq!(pressed.state.selection_rect, None);
    let moved = second.handle_input(pressed.state, &hover(at(50, 50)));
    assert!(moved.written);
    assert_eq!(second.cursor, Some(Point { x: 1970, y: 50 }));
    assert_eq!(moved.state.selection_rect, Some(rect(100, 50, 1970, 100)));
    let released = second.handle_input(moved.state, &up(at(50, 50)));
    assert!(released.written);
    assert!(!released.state.is_dragging);
    assert_eq!(released.state.drag_start, None);
    assert_eq!(released.state.selection_rect, Some(rect(100, 50, 1970, 100)));
    assert!(!released.state.should_close);
}

#[test]
fn scenario_drag_below_the_minimum() {
    let mut w = window(monitor(0, 0, 1920, 1080, 1000, 0));
    let pressed = w.handle_input(SharedState::default(), &down(at(10, 10)));
    assert_eq!(pressed.state.selection_rect, None);
    let a = w.handle_input(pressed.state, &hover(at(11, 11)));
    assert_eq!(a.state.selection_rect, None);
    let b = w.handle_input(a.state, &hover(at(12, 12)));
    assert_eq!(b.state.selection_rect, None);
    assert!(b.state.is_dragging);
    let released = w.handle_input(b.state, &up(at(12, 12)));
    assert_eq!(released.state.selection_rect, None);
    assert!(!released.state.is_dragging);
}

#[test]
fn a_drag_yields_the_rectangle_between_its_ends() {
    let ends = [((0, 0), (5, 5)), ((300, 20), (10, 400)), ((50, 50), (45, 45)), ((7, 9), (1000, 14))];
    for ((x0, y0), (x1, y1)) in ends {
        let mut w = window(monitor(-100, 40, 1920, 1080, 1000, 0));
        let s1 = w.handle_input(SharedState::default(), &down(at(x0, y0))).state;
        let s2 = w.handle_input(s1, &hover(at(x1, y1))).state;
        let s3 = w.handle_input(s2, &up(at(x1, y1))).state;
        let expected = rect(
            (x0.min(x1) - 100) as i64,
            (y0.min(y1) + 40) as i64,
            (x0.max(x1) - 100) as i64,
            (y0.max(y1) + 40) as i64,
        );
        assert_eq!(s3.selection_rect, Some(expected));
        assert!(!s3.is_dragging);
    }
}

#[test]
fn a_drag_that_is_too_short_in_one_axis_yields_nothing() {
    let ends = [((0, 0), (4, 100)), ((0, 0), (100, 4)), ((9, 9), (9, 9)), ((20, 20), (16, 0))];
    for ((x0, y0), (x1, y1)) in ends {
        let mut w = window(monitor(0, 0, 1920, 1080, 1000, 0));
        let s1 = w.handle_input(SharedState::default(), &down(at(x0, y0))).state;
        let s2 = w.handle_input(s1, &hover(at(x1, y1))).state;
        let s3 = w.handle_input(s2, &up(at(x1, y1))).state;
        assert_eq!(s3.selection_rect, None);
        assert!(!s3.is_dragging);
    }
}

#[test]
fn a_frame_without_input_writes_nothing() {
    let mut w = window(monitor(0, 0, 1920, 1080, 1000, 0));
    let s = SharedState { selection_rect: Some(rect(0, 0, 50, 50)), ..SharedState::default() };
    let out = w.handle_input(s, &hover(at(5, 5)));
    assert!(!out.written);
    assert_eq!(out.state, s);
    assert_eq!(w.cursor, Some(Point { x: 5, y: 5 }));
    let gone = w.handle_input(s, &hover(None));
    assert!(!gone.written);
    assert_eq!(w.cursor, None);
    let pressed_nowhere = w.handle_input(s, &down(None));
    assert!(!pressed_nowhere.written);
    assert_eq!(pressed_nowhere.state, s);
    let released_idle = w.handle_input(s, &up(at(1, 1)));
    assert!(!released_idle.written);
    assert_eq!(released_idle.state, s);
}

#[test]
fn a_release_in_the_frame_of_the_press_ends_the_drag_at_once() {
    let mut w = window(monitor(0, 0, 1920, 1080, 1000, 0));
    let both = FrameInput { pointer: at(3, 4), primary_pressed: true, primary_released: true, escape_pressed: false };
    let out = w.handle_input(SharedState::default(), &both);
    assert!(out.written);
    assert!(!out.state.is_dragging);
    assert_eq!(out.state.selection_rect, None);
    assert_eq!(out.state.drag_start, None);
}

#[test]
fn input_with_the_cancellation_key_sets_the_close_flag() {
    let mut w = window(monitor(0, 0, 1920, 1080, 1000, 0));
    let out = w.handle_input(SharedState::default(), &escape(None));
    assert!(out.written);
    assert!(out.state.should_close);
    assert_eq!(out.state.selection_rect, None);
}

#[test]
fn update_on_cancellation_closes_and_writes_the_flag() {
    let mut w = window(monitor(0, 0, 1920, 1080, 1000, 0));
    let s = SharedState::default().pointer_down(Point { x: 1, y: 1 });
    let out = w.update(s, &escape(at(500, 500)), 0);
    assert_eq!(out.action, FrameAction::Close);
    assert!(out.written);
    assert!(!out.polled);
    assert_eq!(out.state, s.cancel());
    assert_eq!(w.cursor, None);
}

#[test]
fn update_closes_on_an_observed_close_request_and_writes_nothing() {
    let mut w = window(monitor(0, 0, 1920, 1080, 1000, 0));
    let s = SharedState::default().pointer_down(Point { x: 1, y: 1 }).cancel();
    let out = w.update(s, &hover(at(500, 500)), POLL_INTERVAL_NANOS + 1);
    assert_eq!(out.action, FrameAction::Close);
    assert!(!out.written);
    assert_eq!(out.state, s);
    assert_eq!(w.cursor, None);
    let pressed = w.update(s, &down(at(2, 2)), u128::MAX);
    assert_eq!(pressed.action, FrameAction::Close);
    assert!(!pressed.written);
    assert_eq!(pressed.state, s);
}

#[test]
fn update_looks_for_a_close_request_only_after_the_interval() {
    let mut w = window(monitor(0, 0, 1920, 1080, 1000, 0));
    let s = SharedState::default().cancel();
    let early = w.update(s, &hover(at(1, 1)), POLL_INTERVAL_NANOS);
    assert_eq!(early.action, FrameAction::Continue);
    assert!(!early.polled);
    assert!(early.state.should_close);
    let at_zero = w.update(s, &hover(at(1, 1)), 0);
    assert_eq!(at_zero.action, FrameAction::Continue);
    assert_eq!(POLL_INTERVAL_NANOS, 100_000_000);
}

#[test]
fn update_starts_the_interval_anew_after_a_look_that_found_nothing() {
    let mut w = window(monitor(10, 20, 1920, 1080, 1000, 0));
    let out = w.update(SharedState::default(), &down(at(5, 5)), POLL_INTERVAL_NANOS + 1);
    assert_eq!(out.action, FrameAction::Continue);
    assert!(out.polled);
    assert!(out.written);
    assert!(out.state.is_dragging);
    assert_eq!(out.state.drag_start, Some(Point { x: 15, y: 25 }));
    assert_eq!(w.cursor, Some(Point { x: 15, y: 25 }));
}

#[test]
fn a_close_request_survives_every_frame() {
    let mut w = window(monitor(0, 0, 1920, 1080, 1000, 0));
    let s = SharedState::default().cancel();
    for input in [down(at(1, 1)), hover(at(80, 80)), up(at(80, 80)), hover(None), escape(None)] {
        assert!(w.handle_input(s, &input).state.should_close);
        assert!(w.update(s, &input, 0).state.should_close);
        assert!(w.update(s, &input, u128::MAX).state.should_close);
    }
}

#[test]
fn a_new_window_takes_the_size_of_its_texture() {
    let bounds = rect(0, 0, 4480, 1440);
    let large = monitor(1920, 0, 2560, 1440, 1250, 1);
    let shown = OverlayWindow::new(large, bounds, Some((3200, 1800)));
    assert_eq!((shown.texture_width, shown.texture_height), (2048, 1152));
    assert_eq!(shown.cursor, None);
    assert_eq!(shown.virtual_desktop_bounds, bounds);
    assert_eq!(shown.monitor, large);
    let blind = OverlayWindow::new(large, bounds, None);
    assert_eq!((blind.texture_width, blind.texture_height), (2560, 1440));
    let small = OverlayWindow::new(monitor(0, 0, 1920, 1080, 1000, 0), bounds, Some((1, 1)));
    assert_eq!((small.texture_width, small.texture_height), (1920, 1080));
}

#[test]
fn a_missing_document_reads_as_the_fresh_state() {
    assert_eq!(SharedState::read_state(None), SharedState::default());
    let s = SharedState::default().pointer_down(Point { x: 3, y: 4 }).cancel();
    assert_eq!(SharedState::read_state(Some(s)), s);
}

#[test]
fn bounds_are_written_as_four_numbers() {
    let b = rect(-1280, 0, 4480, 1440);
    assert_eq!(b.to_array(), [-1280, 0, 4480, 1440]);
    assert_eq!(Rect::from_array([-1280, 0, 4480, 1440]), b);
}

#[test]
fn a_release_read_from_the_channel_clears_the_start_of_the_drag() {
    let mut w = window(monitor(0, 0, 1920, 1080, 1000, 0));
    let read = SharedState {
        selection_rect: Some(rect(10, 10, 60, 70)),
        is_dragging: true,
        drag_start: Some(Point { x: 10, y: 10 }),
        should_close: false,
    };
    let out = w.handle_input(read, &up(None));
    assert!(out.written);
    assert!(!out.state.is_dragging);
    assert_eq!(out.state.drag_start, None);
    assert_eq!(out.state.selection_rect, Some(rect(10, 10, 60, 70)));
}

#[test]
fn no_frame_makes_a_selection_once_the_state_asks_to_close() {
    let closing = SharedState {
        selection_rect: Some(rect(10, 10, 60, 70)),
        is_dragging: true,
        drag_start: Some(Point { x: 10, y: 10 }),
        should_close: true,
    };
    let idle = SharedState::default().cancel();
    for state in [closing, idle] {
        for input in [down(at(1, 1)), hover(at(500, 400)), up(at(500, 400)), hover(None)] {
            let mut w = window(monitor(0, 0, 1920, 1080, 1000, 0));
            let handled = w.handle_input(state, &input);
            assert_eq!(handled.state, state);
            assert!(!handled.written);
            for elapsed in [0, POLL_INTERVAL_NANOS, POLL_INTERVAL_NANOS + 1] {
                let out = w.update(state, &input, elapsed);
                assert_eq!(out.state, state);
                assert!(!out.written);
            }
        }
        let mut w = window(monitor(0, 0, 1920, 1080, 1000, 0));
        let again = w.handle_input(state, &escape(at(1, 1)));
        assert_eq!(again.state, state);
        assert!(again.written);
    }
}
