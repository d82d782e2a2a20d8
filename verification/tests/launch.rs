use screen_overlay::launch::{
    detect_monitor_at_cursor, get_cursor_position, launch_screenshot_overlay,
    launch_screenshot_overlay_active_monitor, launch_screenshot_overlay_all_monitors, monitor_at,
    CursorQuery,
};
use screen_overlay::scale::DpiScale;
use screen_overlay::topology::{resolve, RawDisplay};

fn display(x: i32, y: i32, width: u32, height: u32) -> RawDisplay {
    RawDisplay { x, y, width, height, scale: DpiScale::one() }
}

fn desk() -> Vec<RawDisplay> {
    vec![display(1920, 0, 2560, 1440), display(0, 0, 1920, 1080), display(-1280, 100, 1280, 1024)]
}

fn words(list: &[&str]) -> Vec<String> {
    list.iter().map(|w| w.to_string()).collect()
}

#[test]
fn the_cursor_position_is_what_the_platform_answered() {
    assert_eq!(get_cursor_position(CursorQuery::At(12, -7)), Ok((12, -7)));
    assert_eq!(get_cursor_position(CursorQuery::At(i32::MIN, i32::MAX)), Ok((i32::MIN, i32::MAX)));
}

#[test]
fn a_missing_cursor_position_has_its_reason() {
    assert_eq!(
        get_cursor_position(CursorQuery::Failed),
        Err("Failed to get cursor position".to_string())
    );
    assert_eq!(
        get_cursor_position(CursorQuery::Unsupported),
        Err("Cursor detection only supported on Windows".to_string())
    );
}

#[test]
fn the_display_under_the_cursor_is_named_by_its_index() {
    assert_eq!(detect_monitor_at_cursor((-1000, 500), &desk()), 0);
    assert_eq!(detect_monitor_at_cursor((100, 100), &desk()), 1);
    assert_eq!(detect_monitor_at_cursor((2000, 1200), &desk()), 2);
}

#[test]
fn the_borders_of_a_display_belong_to_its_upper_left() {
    assert_eq!(detect_monitor_at_cursor((1919, 0), &desk()), 1);
    assert_eq!(detect_monitor_at_cursor((1920, 0), &desk()), 2);
    assert_eq!(detect_monitor_at_cursor((4479, 1439), &desk()), 2);
    assert_eq!(detect_monitor_at_cursor((0, 1079), &desk()), 1);
    assert_eq!(detect_monitor_at_cursor((-1, 100), &desk()), 0);
    assert_eq!(detect_monitor_at_cursor((-1280, 1123), &desk()), 0);
}

#[test]
fn a_cursor_on_no_display_counts_as_on_the_first() {
    assert_eq!(detect_monitor_at_cursor((4480, 0), &desk()), 0);
    assert_eq!(detect_monitor_at_cursor((100, 1080), &desk()), 0);
    assert_eq!(detect_monitor_at_cursor((-1281, 500), &desk()), 0);
    assert_eq!(detect_monitor_at_cursor((0, 0), &Vec::new()), 0);
}

#[test]
fn the_first_display_from_the_left_wins_where_two_overlap() {
    let overlapping = vec![display(50, 0, 100, 100), display(0, 0, 100, 100), display(0, 0, 60, 60)];
    assert_eq!(detect_monitor_at_cursor((55, 55), &overlapping), 0);
    assert_eq!(detect_monitor_at_cursor((99, 99), &overlapping), 0);
    assert_eq!(detect_monitor_at_cursor((120, 10), &overlapping), 2);
    let resolved = resolve(&overlapping).unwrap();
    assert_eq!(monitor_at(&resolved, (55, 55)), 0);
}

#[test]
fn detection_stands_displays_at_the_end_of_the_range() {
    let far = vec![display(i32::MAX, i32::MAX, u32::MAX, u32::MAX), display(i32::MIN, i32::MIN, 1, 1)];
    assert_eq!(detect_monitor_at_cursor((i32::MAX, i32::MAX), &far), 1);
    assert_eq!(detect_monitor_at_cursor((i32::MIN, i32::MIN), &far), 0);
}

#[test]
fn an_overlay_over_all_displays_takes_no_arguments() {
    assert!(launch_screenshot_overlay_all_monitors().is_empty());
    assert!(launch_screenshot_overlay().is_empty());
}

#[test]
fn an_overlay_over_the_active_display_names_it() {
    let monitors = Ok(desk());
    assert_eq!(
        launch_screenshot_overlay_active_monitor(CursorQuery::At(2000, 10), &monitors),
        Ok(words(&["--only-monitor", "2"]))
    );
    assert_eq!(
        launch_screenshot_overlay_active_monitor(CursorQuery::At(-5, 200), &monitors),
        Ok(words(&["--only-monitor", "0"]))
    );
    assert_eq!(
        launch_screenshot_overlay_active_monitor(CursorQuery::At(9000, 9000), &monitors),
        Ok(words(&["--only-monitor", "0"]))
    );
}

#[test]
fn an_overlay_without_a_cursor_position_is_an_error() {
    let monitors = Ok(desk());
    assert_eq!(
        launch_screenshot_overlay_active_monitor(CursorQuery::Failed, &monitors),
        Err("Failed to get cursor position".to_string())
    );
    let none: Result<Vec<RawDisplay>, String> = Err("no backend".to_string());
    assert_eq!(
        launch_screenshot_overlay_active_monitor(CursorQuery::Unsupported, &none),
        Err("Cursor detection only supported on Windows".to_string())
    );
}

#[test]
fn an_overlay_without_displays_is_an_error() {
    let none: Result<Vec<RawDisplay>, String> = Err("no backend".to_string());
    assert_eq!(
        launch_screenshot_overlay_active_monitor(CursorQuery::At(1, 1), &none),
        Err("Failed to get monitors: no backend".to_string())
    );
}
