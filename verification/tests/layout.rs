use screen_overlay::geometry::{Point, Rect};
use screen_overlay::layout::{dark_regions, SelectionLabel};
use screen_overlay::overlay::OverlayWindow;
use screen_overlay::scale::DpiScale;
use screen_overlay::selection::SharedState;
use screen_overlay::topology::DisplayDescriptor;

fn rect(min_x: i64, min_y: i64, max_x: i64, max_y: i64) -> Rect {
    Rect { min_x, min_y, max_x, max_y }
}

fn window(x: i32, y: i32, width: u32, height: u32, index: usize) -> OverlayWindow {
    let d = DisplayDescriptor { x, y, width, height, scale: DpiScale::one(), index, source: index };
    OverlayWindow::new(d, rect(0, 0, 3000, 1000), Some((width, height)))
}

fn selecting(r: Rect) -> SharedState {
    SharedState { selection_rect: Some(r), ..SharedState::default() }
}

fn holds(r: &Rect, x: i64, y: i64) -> bool {
    r.min_x <= x && x < r.max_x && r.min_y <= y && y < r.max_y
}

#[test]
fn rectangles_meet_in_what_they_share() {
    let a = rect(0, 0, 10, 10);
    assert_eq!(a.intersect(&rect(5, -5, 20, 5)), rect(5, 0, 10, 5));
    assert_eq!(a.intersect(&rect(2, 3, 4, 5)), rect(2, 3, 4, 5));
    assert!(!a.intersect(&rect(10, 0, 20, 10)).is_negative());
    assert!(a.intersect(&rect(11, 0, 20, 10)).is_negative());
    assert!(a.intersect(&rect(0, -20, 10, -1)).is_negative());
    assert_eq!(Rect::from_corners(Point { x: 9, y: 1 }, Point { x: 2, y: 8 }), rect(2, 1, 9, 8));
    assert_eq!(Rect::at(Point { x: 4, y: 5 }), rect(4, 5, 4, 5));
    assert!(rect(0, 0, 5, 5).at_least(5));
    assert!(!rect(0, 0, 5, 4).at_least(5));
    assert!(rect(i64::MIN, i64::MIN, i64::MAX, i64::MAX).at_least(i64::MAX));
    assert!(!rect(3, 3, 0, 0).at_least(0));
}

#[test]
fn without_a_cutout_the_whole_window_is_dark() {
    assert_eq!(dark_regions(rect(0, 0, 100, 50), None), vec![rect(0, 0, 100, 50)]);
}

#[test]
fn a_cutout_in_the_middle_leaves_four_strips() {
    let regions = dark_regions(rect(0, 0, 100, 50), Some(rect(20, 10, 60, 30)));
    assert_eq!(
        regions,
        vec![rect(0, 0, 100, 10), rect(0, 30, 100, 50), rect(0, 10, 20, 30), rect(60, 10, 100, 30)]
    );
}

#[test]
fn a_cutout_at_a_border_leaves_no_strip_there() {
    assert_eq!(
        dark_regions(rect(0, 0, 100, 50), Some(rect(0, 0, 60, 30))),
        vec![rect(0, 30, 100, 50), rect(60, 0, 100, 30)]
    );
    assert_eq!(
        dark_regions(rect(0, 0, 100, 50), Some(rect(-40, 20, 500, 90))),
        vec![rect(0, 0, 100, 20)]
    );
    assert_eq!(dark_regions(rect(0, 0, 100, 50), Some(rect(-1, -1, 101, 51))), Vec::<Rect>::new());
}

#[test]
fn a_cutout_outside_the_window_darkens_nothing() {
    assert_eq!(dark_regions(rect(0, 0, 100, 50), Some(rect(101, 0, 200, 50))), Vec::<Rect>::new());
    assert_eq!(dark_regions(rect(0, 0, 100, 50), Some(rect(0, -20, 100, -1))), Vec::<Rect>::new());
}

#[test]
fn the_dark_strips_tile_the_window_around_the_cutout() {
    let full = rect(0, 0, 12, 9);
    for cutout in [rect(3, 2, 8, 6), rect(-4, 1, 5, 20), rect(0, 0, 12, 9), rect(11, 8, 12, 9), rect(5, 5, 5, 5)] {
        let regions = dark_regions(full, Some(cutout));
        for y in -2..12 {
            for x in -2..15 {
                let dark = regions.iter().filter(|r| holds(r, x, y)).count();
                let expected = if holds(&full, x, y) && !holds(&cutout, x, y) { 1 } else { 0 };
                assert_eq!(dark, expected, "pixel ({}, {}) around {:?}", x, y, cutout);
            }
        }
    }
}

#[test]
fn a_window_darkens_around_its_part_of_the_selection() {
    let w = window(1000, 0, 800, 600, 1);
    let layout = w.render_overlay(&selecting(rect(900, 100, 1200, 300)));
    assert_eq!(layout.border, Some(rect(0, 100, 200, 300)));
    assert_eq!(layout.dark, vec![rect(0, 0, 800, 100), rect(0, 300, 800, 600), rect(200, 100, 800, 300)]);
    assert_eq!(layout.label, None);
    assert_eq!(layout.hint, None);
    assert_eq!(
        w.render_dark_overlay_with_cutout(Some(rect(-100, 100, 200, 300))),
        layout.dark
    );
}

#[test]
fn a_window_that_the_selection_misses_shows_neither_border_nor_dark() {
    let w = window(1000, 0, 800, 600, 1);
    let layout = w.render_overlay(&selecting(rect(0, 0, 500, 500)));
    assert_eq!(layout.border, None);
    assert!(layout.dark.is_empty());
    assert_eq!(layout.label, None);
}

#[test]
fn a_window_without_a_selection_is_all_dark() {
    let w = window(1000, 0, 800, 600, 1);
    let layout = w.render_overlay(&SharedState::default());
    assert_eq!(layout.dark, vec![rect(0, 0, 800, 600)]);
    assert_eq!(layout.border, None);
    assert_eq!(layout.label, None);
    assert_eq!(layout.hint, None);
}

#[test]
fn the_first_display_shows_the_hint_while_nothing_is_selected() {
    let w = window(0, 0, 801, 600, 0);
    assert_eq!(w.render_overlay(&SharedState::default()).hint, Some(Point { x: 400, y: 20 }));
    assert_eq!(w.render_overlay(&selecting(rect(0, 0, 50, 50))).hint, None);
    assert_eq!(w.render_overlay(&selecting(rect(5000, 0, 6000, 50))).hint, None);
}

#[test]
fn the_first_display_labels_the_selection() {
    let w = window(-200, 50, 800, 600, 0);
    let layout = w.render_overlay(&selecting(rect(-100, 100, 1970, 400)));
    assert_eq!(layout.border, Some(rect(100, 50, 800, 350)));
    assert_eq!(
        layout.label,
        Some(SelectionLabel { position: Point { x: 100, y: 25 }, width: 2070, height: 300 })
    );
    let missed = w.render_overlay(&selecting(rect(700, 100, 1970, 400)));
    assert_eq!(missed.border, None);
    assert_eq!(missed.label, None);
}

#[test]
fn the_label_stands_extreme_selections() {
    let w = window(0, 0, 800, 600, 0);
    let layout = w.render_overlay(&selecting(rect(i64::MIN, i64::MIN, i64::MAX, i64::MAX)));
    assert_eq!(layout.border, Some(rect(0, 0, 800, 600)));
    assert_eq!(
        layout.label,
        Some(SelectionLabel {
            position: Point { x: i64::MIN, y: i64::MIN },
            width: i64::MAX,
            height: i64::MAX
        })
    );
    assert!(layout.dark.is_empty());
}
