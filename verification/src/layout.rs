//! What an overlay window draws over its display: the darkened parts
//! around the selection, the selection's border and its label.

use crate::geometry::{Point, Rect};
use crate::overlay::{clamp_i64, to_window, OverlayWindow};
use crate::selection::SharedState;
use vstd::prelude::*;

verus! {

/// How far above the selection its label stands, in pixels.
pub const LABEL_RISE: i64 = 25;

/// Where the hint for the user stands below the upper border, in pixels.
pub const HINT_DROP: i64 = 20;

/// The label of a selection: where it stands in the window, and the size
/// of the selection that it tells.
#[derive(Clone, Copy, Debug, PartialEq, Eq, Structural)]
pub struct SelectionLabel {
    pub position: Point,
    pub width: i64,
    pub height: i64,
}

/// What a window draws over the image of its display.
#[derive(Debug)]
pub struct OverlayLayout {
    /// The parts of the window that are darkened.
    pub dark: Vec<Rect>,
    /// The part of the selection that lies in the window, to be framed.
    pub border: Option<Rect>,
    /// The label of the selection. Only the first display shows it.
    pub label: Option<SelectionLabel>,
    /// Where the hint for the user is centred. Only the first display
    /// shows it, and only while there is no selection.
    pub hint: Option<Point>,
}

/// The whole of a window whose texture is `width` by `height` pixels.
pub open spec fn window_rect(width: u32, height: u32) -> Rect {
    Rect { min_x: 0, min_y: 0, max_x: width as i64, max_y: height as i64 }
}

/// The strip of `full` above `cut`, over the whole width, if there is one.
pub open spec fn strip_above(full: Rect, cut: Rect) -> Seq<Rect> {
    if cut.min_y > full.min_y {
        seq![Rect { min_x: full.min_x, min_y: full.min_y, max_x: full.max_x, max_y: cut.min_y }]
    } else {
        seq![]
    }
}

/// The strip of `full` below `cut`, over the whole width, if there is one.
pub open spec fn strip_below(full: Rect, cut: Rect) -> Seq<Rect> {
    if cut.max_y < full.max_y {
        seq![Rect { min_x: full.min_x, min_y: cut.max_y, max_x: full.max_x, max_y: full.max_y }]
    } else {
        seq![]
    }
}

/// The strip of `full` left of `cut`, as high as `cut`, if there is one.
pub open spec fn strip_left(full: Rect, cut: Rect) -> Seq<Rect> {
    if cut.min_x > full.min_x {
        seq![Rect { min_x: full.min_x, min_y: cut.min_y, max_x: cut.min_x, max_y: cut.max_y }]
    } else {
        seq![]
    }
}

/// The strip of `full` right of `cut`, as high as `cut`, if there is one.
pub open spec fn strip_right(full: Rect, cut: Rect) -> Seq<Rect> {
    if cut.max_x < full.max_x {
        seq![Rect { min_x: cut.max_x, min_y: cut.min_y, max_x: full.max_x, max_y: cut.max_y }]
    } else {
        seq![]
    }
}

/// The parts of `full` that are darkened around `cutout`: the strips above
/// and below it, then the strips left and right of it. Without a cutout
/// the whole is darkened; with a cutout that has nothing in common with
/// `full`, nothing is.
pub open spec fn spec_dark_regions(full: Rect, cutout: Option<Rect>) -> Seq<Rect> {
    match cutout {
        None => seq![full],
        Some(c) => {
            let cut = c.common(full);
            if cut.negative() {
                seq![]
            } else {
                strip_above(full, cut) + strip_below(full, cut) + strip_left(full, cut)
                    + strip_right(full, cut)
            }
        },
    }
}

/// The parts of `full` that are darkened around `cutout`.
pub fn dark_regions(full: Rect, cutout: Option<Rect>) -> (regions: Vec<Rect>)
    ensures
        regions@ == spec_dark_regions(full, cutout),
{
    let mut regions: Vec<Rect> = Vec::new();
    match cutout {
        None => {
            regions.push(full);
        },
        Some(c) => {
            let cut = c.intersect(&full);
            if cut.is_negative() {
                assert(regions@ =~= spec_dark_regions(full, cutout));
                return regions;
            }
            if cut.min_y > full.min_y {
                regions.push(
                    Rect { min_x: full.min_x, min_y: full.min_y, max_x: full.max_x, max_y: cut.min_y },
                );
            }
            if cut.max_y < full.max_y {
                regions.push(
                    Rect { min_x: full.min_x, min_y: cut.max_y, max_x: full.max_x, max_y: full.max_y },
                );
            }
            if cut.min_x > full.min_x {
                regions.push(
                    Rect { min_x: full.min_x, min_y: cut.min_y, max_x: cut.min_x, max_y: cut.max_y },
                );
            }
            if cut.max_x < full.max_x {
                regions.push(
                    Rect { min_x: cut.max_x, min_y: cut.min_y, max_x: full.max_x, max_y: cut.max_y },
                );
            }
        },
    }
    assert(regions@ =~= spec_dark_regions(full, cutout));
    regions
}

/// How many of the rectangles hold the pixel at (`x`, `y`).
pub open spec fn holders(regions: Seq<Rect>, x: int, y: int) -> nat
    decreases regions.len(),
{
    if regions.len() == 0 {
        0
    } else {
        holders(regions.drop_last(), x, y) + if regions.last().holds(x, y) {
            1nat
        } else {
            0nat
        }
    }
}

proof fn lemma_holders_of_sum(a: Seq<Rect>, b: Seq<Rect>, x: int, y: int)
    ensures
        holders(a + b, x, y) == holders(a, x, y) + holders(b, x, y),
    decreases b.len(),
{
    if b.len() == 0 {
        assert(a + b =~= a);
    } else {
        lemma_holders_of_sum(a, b.drop_last(), x, y);
        assert((a + b).drop_last() =~= a + b.drop_last());
    }
}

proof fn lemma_holders_of_few(r: Rect, x: int, y: int)
    ensures
        holders(seq![r], x, y) == (if r.holds(x, y) {
            1nat
        } else {
            0nat
        }),
        holders(Seq::<Rect>::empty(), x, y) == 0,
{
    assert(holders(Seq::<Rect>::empty(), x, y) == 0);
    assert(seq![r].drop_last() =~= Seq::<Rect>::empty());
    assert(seq![r].last() == r);
}

proof fn lemma_holders_of_strip(strip: Seq<Rect>, x: int, y: int)
    requires
        strip.len() <= 1,
    ensures
        holders(strip, x, y) == (if strip.len() == 1 && strip[0].holds(x, y) {
            1nat
        } else {
            0nat
        }),
{
    if strip.len() == 1 {
        lemma_holders_of_few(strip[0], x, y);
        assert(strip =~= seq![strip[0]]);
    }
}

/// Around a cutout that has something in common with the window, every
/// pixel of the window is either in the cutout or darkened once: the dark
/// parts lie in the window, do not overlap and leave out the cutout alone.
pub proof fn lemma_dark_regions_tile(full: Rect, cutout: Rect, x: int, y: int)
    requires
        full.is_normalized(),
        !cutout.common(full).negative(),
    ensures
        holders(spec_dark_regions(full, Some(cutout)), x, y) == (if full.holds(x, y)
            && !cutout.holds(x, y) {
            1nat
        } else {
            0nat
        }),
{
    let cut = cutout.common(full);
    let top = strip_above(full, cut);
    let bottom = strip_below(full, cut);
    let left = strip_left(full, cut);
    let right = strip_right(full, cut);
    lemma_holders_of_sum(top + bottom + left, right, x, y);
    lemma_holders_of_sum(top + bottom, left, x, y);
    lemma_holders_of_sum(top, bottom, x, y);
    lemma_holders_of_strip(top, x, y);
    lemma_holders_of_strip(bottom, x, y);
    lemma_holders_of_strip(left, x, y);
    lemma_holders_of_strip(right, x, y);
}

/// Without a cutout the whole window is darkened, once.
pub proof fn lemma_dark_without_cutout(full: Rect, x: int, y: int)
    ensures
        holders(spec_dark_regions(full, None), x, y) == (if full.holds(x, y) {
            1nat
        } else {
            0nat
        }),
{
    lemma_holders_of_few(full, x, y);
}


/// A rectangle of the virtual desktop in the coordinates of the window of
/// `window`.
pub open spec fn rect_in_window(window: OverlayWindow, rect: Rect) -> Rect {
    let min = to_window(window.monitor, Point { x: rect.min_x, y: rect.min_y });
    let max = to_window(window.monitor, Point { x: rect.max_x, y: rect.max_y });
    Rect { min_x: min.x, min_y: min.y, max_x: max.x, max_y: max.y }
}

/// The selection in the coordinates of the window, if there is one.
pub open spec fn selection_in_window(window: OverlayWindow, state: SharedState) -> Option<Rect> {
    match state.selection_rect {
        Some(rect) => Some(rect_in_window(window, rect)),
        None => None,
    }
}

/// The part of the selection that lies in the window, if there is one.
pub open spec fn spec_border(window: OverlayWindow, state: SharedState) -> Option<Rect> {
    let full = window_rect(window.texture_width, window.texture_height);
    match selection_in_window(window, state) {
        Some(selection) => if full.common(selection).negative() {
            None
        } else {
            Some(full.common(selection))
        },
        None => None,
    }
}

/// The label of the selection: it stands `LABEL_RISE` pixels above the
/// selection's first corner and tells the selection's size. The window of
/// the first display shows it while a part of the selection lies in it.
pub open spec fn spec_label(window: OverlayWindow, state: SharedState) -> Option<SelectionLabel> {
    if spec_border(window, state) is Some && window.monitor.index == 0 {
        let rect = state.selection_rect->0;
        Some(
            SelectionLabel {
                position: to_window(
                    window.monitor,
                    Point { x: rect.min_x, y: clamp_i64(rect.min_y - LABEL_RISE) as i64 },
                ),
                width: clamp_i64(rect.width()) as i64,
                height: clamp_i64(rect.height()) as i64,
            },
        )
    } else {
        None
    }
}

/// Where the hint for the user is centred: in the middle of the window's
/// width, `HINT_DROP` pixels below its upper border. The window of the
/// first display shows it while there is no selection.
pub open spec fn spec_hint(window: OverlayWindow, state: SharedState) -> Option<Point> {
    if window.monitor.index == 0 && state.selection_rect is None {
        Some(Point { x: (window.texture_width / 2) as i64, y: HINT_DROP })
    } else {
        None
    }
}

fn clamped(v: i128) -> (r: i64)
    ensures
        r == clamp_i64(v as int),
{
    if v < i64::MIN as i128 {
        i64::MIN
    } else if v > i64::MAX as i128 {
        i64::MAX
    } else {
        v as i64
    }
}

impl OverlayWindow {
    /// What the window draws over the image of its display, given the
    /// shared state as it was read.
    pub fn render_overlay(&self, state: &SharedState) -> (layout: OverlayLayout)
        ensures
            layout.dark@ == spec_dark_regions(
                window_rect(self.texture_width, self.texture_height),
                selection_in_window(*self, *state),
            ),
            layout.border == spec_border(*self, *state),
            layout.label == spec_label(*self, *state),
            layout.hint == spec_hint(*self, *state),
    {
        let full = Rect {
            min_x: 0,
            min_y: 0,
            max_x: self.texture_width as i64,
            max_y: self.texture_height as i64,
        };
        let selection: Option<Rect> = match state.to_rect() {
            Some(rect) => {
                let min = self.virtual_to_window(Point { x: rect.min_x, y: rect.min_y });
                let max = self.virtual_to_window(Point { x: rect.max_x, y: rect.max_y });
                Some(Rect { min_x: min.x, min_y: min.y, max_x: max.x, max_y: max.y })
            },
            None => None,
        };
        let dark = self.render_dark_overlay_with_cutout(selection);
        let mut border: Option<Rect> = None;
        let mut label: Option<SelectionLabel> = None;
        if let Some(selection_window) = selection {
            let intersection = full.intersect(&selection_window);
            if !intersection.is_negative() {
                border = Some(intersection);
                if self.monitor.index == 0 {
                    if let Some(rect) = state.to_rect() {
                        let above = Point {
                            x: rect.min_x,
                            y: clamped(rect.min_y as i128 - LABEL_RISE as i128),
                        };
                        label = Some(
                            SelectionLabel {
                                position: self.virtual_to_window(above),
                                width: clamped(rect.max_x as i128 - rect.min_x as i128),
                                height: clamped(rect.max_y as i128 - rect.min_y as i128),
                            },
                        );
                    }
                }
            }
        }
        let hint: Option<Point> = if self.monitor.index == 0 && state.selection_rect.is_none() {
            Some(Point { x: (self.texture_width / 2) as i64, y: HINT_DROP })
        } else {
            None
        };
        OverlayLayout { dark, border, label, hint }
    }

    /// The parts of the window that are darkened around `cutout`, a
    /// rectangle in the window's coordinates.
    pub fn render_dark_overlay_with_cutout(&self, cutout: Option<Rect>) -> (regions: Vec<Rect>)
        ensures
            regions@ == spec_dark_regions(
                window_rect(self.texture_width, self.texture_height),
                cutout,
            ),
    {
        let full = Rect {
            min_x: 0,
            min_y: 0,
            max_x: self.texture_width as i64,
            max_y: self.texture_height as i64,
        };
        dark_regions(full, cutout)
    }
}

} // verus!
