//! The displays of a session: their order, their indices and the rectangle
//! that bounds them.

use crate::geometry::{spec_max, spec_min, Rect};
use crate::scale::DpiScale;
use vstd::prelude::*;

verus! {

/// A display as the platform enumerates it, before any ordering.
#[derive(Clone, Copy, Debug, PartialEq, Eq, Structural)]
pub struct RawDisplay {
    pub x: i32,
    pub y: i32,
    pub width: u32,
    pub height: u32,
    pub scale: DpiScale,
}

/// A display of the session. `index` counts the displays from left to
/// right; `source` is the place the display had in the enumeration that it
/// was resolved from.
#[derive(Clone, Copy, Debug, PartialEq, Eq, Structural)]
pub struct DisplayDescriptor {
    pub x: i32,
    pub y: i32,
    pub width: u32,
    pub height: u32,
    pub scale: DpiScale,
    pub index: usize,
    pub source: usize,
}

/// Why no topology could be resolved.
#[derive(Clone, Copy, Debug, PartialEq, Eq, Structural)]
pub enum TopologyError {
    /// The enumeration held no display.
    NoDisplays,
}

impl RawDisplay {
    /// The part of the virtual desktop that the display covers.
    pub open spec fn area(self) -> Rect {
        Rect {
            min_x: self.x as i64,
            min_y: self.y as i64,
            max_x: (self.x + self.width) as i64,
            max_y: (self.y + self.height) as i64,
        }
    }

    /// A display from what the platform could tell of it. What it could
    /// not tell is taken as: origin 0, 1920 by 1080 pixels, scale 1.0.
    pub fn from_platform(
        x: Option<i32>,
        y: Option<i32>,
        width: Option<u32>,
        height: Option<u32>,
        scale: Option<DpiScale>,
    ) -> (d: RawDisplay)
        ensures
            d.x == (if x is Some { x->0 } else { 0i32 }),
            d.y == (if y is Some { y->0 } else { 0i32 }),
            d.width == (if width is Some { width->0 } else { 1920u32 }),
            d.height == (if height is Some { height->0 } else { 1080u32 }),
            d.scale == (if scale is Some { scale->0 } else { DpiScale { numerator: 1, denominator: 1 } }),
    {
        RawDisplay {
            x: match x { Some(v) => v, None => 0 },
            y: match y { Some(v) => v, None => 0 },
            width: match width { Some(v) => v, None => 1920 },
            height: match height { Some(v) => v, None => 1080 },
            scale: match scale { Some(v) => v, None => DpiScale::one() },
        }
    }
}

impl DisplayDescriptor {
    /// The part of the virtual desktop that the display covers.
    pub open spec fn area(self) -> Rect {
        self.as_raw().area()
    }

    /// The display without its place in the session.
    pub open spec fn as_raw(self) -> RawDisplay {
        RawDisplay { x: self.x, y: self.y, width: self.width, height: self.height, scale: self.scale }
    }

    pub fn to_raw(&self) -> (r: RawDisplay)
        ensures
            r == self.as_raw(),
    {
        RawDisplay { x: self.x, y: self.y, width: self.width, height: self.height, scale: self.scale }
    }
}

/// Display `i` of the enumeration comes before display `j` in the session:
/// it starts further left, or at the same `x` and earlier in the enumeration.
pub open spec fn comes_before(raw: Seq<RawDisplay>, i: int, j: int) -> bool {
    raw[i].x < raw[j].x || (raw[i].x == raw[j].x && i < j)
}

/// Some place of `order` holds `i`.
pub open spec fn listed(order: Seq<usize>, i: int) -> bool {
    exists|k: int| 0 <= k < order.len() && #[trigger] order[k] == i
}

/// `order` lists every place of the enumeration once, from left to right,
/// displays with the same `x` in the order of the enumeration.
pub open spec fn is_left_to_right(order: Seq<usize>, raw: Seq<RawDisplay>) -> bool {
    &&& order.len() == raw.len()
    &&& forall|k: int| 0 <= k < order.len() ==> 0 <= #[trigger] order[k] < raw.len()
    &&& forall|j: int, k: int|
        0 <= j < k < order.len() ==> comes_before(raw, #[trigger] order[j] as int, #[trigger] order[k] as int)
    &&& forall|i: int| 0 <= i < raw.len() ==> #[trigger] listed(order, i)
}

/// `out` is the session's view of the enumeration `raw`: the same
/// displays, from left to right, each with its place as its index.
pub open spec fn is_resolution(out: Seq<DisplayDescriptor>, raw: Seq<RawDisplay>) -> bool {
    &&& is_left_to_right(out.map_values(|d: DisplayDescriptor| d.source), raw)
    &&& forall|k: int|
        0 <= k < out.len() ==> (#[trigger] out[k]).index == k && out[k].as_raw() == raw[out[k].source as int]
}

/// In a resolution every display has an index of its own, and the indices
/// grow from left to right.
pub proof fn lemma_indices_follow_positions(
    raw: Seq<RawDisplay>,
    out: Seq<DisplayDescriptor>,
    j: int,
    k: int,
)
    requires
        is_resolution(out, raw),
        0 <= j < k < out.len(),
    ensures
        out[j].index < out[k].index,
        out[j].x <= out[k].x,
        out[j].source != out[k].source,
{
    let sources = out.map_values(|d: DisplayDescriptor| d.source);
    assert(sources[j] == out[j].source && sources[k] == out[k].source);
    assert(comes_before(raw, sources[j] as int, sources[k] as int));
}

/// `order` lists the first `n` places of the enumeration once each, from
/// left to right.
pub open spec fn orders_first(order: Seq<usize>, raw: Seq<RawDisplay>, n: int) -> bool {
    &&& order.len() == n
    &&& forall|k: int| 0 <= k < order.len() ==> 0 <= #[trigger] order[k] < n
    &&& forall|j: int, k: int|
        0 <= j < k < order.len() ==> comes_before(raw, #[trigger] order[j] as int, #[trigger] order[k] as int)
    &&& forall|s: int| 0 <= s < n ==> #[trigger] listed(order, s)
}

/// The next place of the enumeration, put behind every place that does
/// not start further right and before every place that does, keeps the
/// order from left to right.
proof fn lemma_insert_keeps_order(raw: Seq<RawDisplay>, before: Seq<usize>, i: usize, p: int)
    requires
        orders_first(before, raw, i as int),
        i < raw.len(),
        0 <= p <= before.len(),
        forall|k: int| 0 <= k < p ==> raw[#[trigger] before[k] as int].x <= raw[i as int].x,
        forall|k: int| p <= k < before.len() ==> raw[#[trigger] before[k] as int].x > raw[i as int].x,
    ensures
        orders_first(before.insert(p, i), raw, i + 1),
{
    before.insert_ensures(p, i);
    let after = before.insert(p, i);
    assert forall|j: int, k: int| 0 <= j < k < after.len() implies comes_before(
        raw,
        #[trigger] after[j] as int,
        #[trigger] after[k] as int,
    ) by {
        if k < p {
            assert(after[j] == before[j] && after[k] == before[k]);
        } else if k == p {
            assert(after[j] == before[j]);
        } else if j < p {
            assert(after[j] == before[j] && after[k] == before[k - 1]);
        } else if j == p {
            assert(after[k] == before[k - 1]);
        } else {
            assert(after[j] == before[j - 1] && after[k] == before[k - 1]);
        }
    }
    assert forall|k: int| 0 <= k < after.len() implies 0 <= #[trigger] after[k] < i + 1 by {
        if k < p {
            assert(after[k] == before[k]);
        } else if k > p {
            assert(after[k] == before[k - 1]);
        }
    }
    assert forall|s: int| 0 <= s < i + 1 implies #[trigger] listed(after, s) by {
        if s == i {
            assert(after[p] == s);
        } else {
            assert(listed(before, s));
            let k = choose|k: int| 0 <= k < before.len() && #[trigger] before[k] == s;
            if k < p {
                assert(after[k] == s);
            } else {
                assert(after[k + 1] == before[k]);
                assert(after[k + 1] == s);
            }
        }
    }
}

/// The places of the enumeration, ordered from left to right.
pub fn left_to_right(raw: &Vec<RawDisplay>) -> (order: Vec<usize>)
    ensures
        is_left_to_right(order@, raw@),
{
    let mut order: Vec<usize> = Vec::new();
    let mut i: usize = 0;
    while i < raw.len()
        invariant
            i <= raw.len(),
            orders_first(order@, raw@, i as int),
        decreases raw.len() - i,
    {
        let x: i32 = raw[i].x;
        let mut p: usize = order.len();
        while p > 0 && raw[order[p - 1]].x > x
            invariant
                p <= order.len(),
                i < raw.len(),
                x == raw[i as int].x,
                orders_first(order@, raw@, i as int),
                forall|k: int| p <= k < order.len() ==> raw[#[trigger] order[k] as int].x > x,
            decreases p,
        {
            p = p - 1;
        }
        proof {
            assert forall|k: int| 0 <= k < p implies raw[#[trigger] order[k] as int].x <= x by {
                if k < p - 1 {
                    assert(comes_before(raw@, order[k] as int, order[p - 1] as int));
                }
            }
            lemma_insert_keeps_order(raw@, order@, i, p as int);
        }
        order.insert(p, i);
        i = i + 1;
    }
    order
}

/// The displays of `raw` from left to right, each with its index. Displays
/// that start at the same `x` keep the order of the enumeration. An empty
/// enumeration is an error.
pub fn resolve(raw: &Vec<RawDisplay>) -> (r: Result<Vec<DisplayDescriptor>, TopologyError>)
    ensures
        r is Err <==> raw.len() == 0,
        r matches Ok(out) ==> is_resolution(out@, raw@),
{
    if raw.len() == 0 {
        return Err(TopologyError::NoDisplays);
    }
    let order = left_to_right(raw);
    let mut out: Vec<DisplayDescriptor> = Vec::new();
    let mut k: usize = 0;
    while k < order.len()
        invariant
            k <= order.len(),
            out.len() == k,
            is_left_to_right(order@, raw@),
            forall|j: int|
                0 <= j < k ==> (#[trigger] out[j]).index == j && out[j].source == order[j]
                    && out[j].as_raw() == raw[order[j] as int],
        decreases order.len() - k,
    {
        let source: usize = order[k];
        let d = raw[source];
        out.push(
            DisplayDescriptor {
                x: d.x,
                y: d.y,
                width: d.width,
                height: d.height,
                scale: d.scale,
                index: k,
                source,
            },
        );
        k = k + 1;
    }
    proof {
        assert(out@.map_values(|d: DisplayDescriptor| d.source) =~= order@);
    }
    Ok(out)
}


/// The areas of the displays, in their order.
pub open spec fn areas_of(displays: Seq<DisplayDescriptor>) -> Seq<Rect> {
    Seq::new(displays.len(), |i: int| displays[i].area())
}

/// The areas of the displays of an enumeration, in their order.
pub open spec fn raw_areas_of(raw: Seq<RawDisplay>) -> Seq<Rect> {
    Seq::new(raw.len(), |i: int| raw[i].area())
}

/// What bounds no display at all: every later display lies beyond it.
pub open spec fn empty_bounds() -> Rect {
    Rect { min_x: i32::MAX as i64, min_y: i32::MAX as i64, max_x: i32::MIN as i64, max_y: i32::MIN as i64 }
}

/// `bounds` widened just enough to hold `area`.
pub open spec fn extended(bounds: Rect, area: Rect) -> Rect {
    Rect {
        min_x: spec_min(bounds.min_x as int, area.min_x as int) as i64,
        min_y: spec_min(bounds.min_y as int, area.min_y as int) as i64,
        max_x: spec_max(bounds.max_x as int, area.max_x as int) as i64,
        max_y: spec_max(bounds.max_y as int, area.max_y as int) as i64,
    }
}

/// The bounds of the virtual desktop: `empty_bounds` widened by every area
/// in turn.
pub open spec fn bounding_box(areas: Seq<Rect>) -> Rect
    decreases areas.len(),
{
    if areas.len() == 0 {
        empty_bounds()
    } else {
        extended(bounding_box(areas.drop_last()), areas.last())
    }
}

/// An area as a display can have it: it starts and ends within reach of
/// 32-bit coordinates.
pub open spec fn display_sized(area: Rect) -> bool {
    &&& i32::MIN <= area.min_x <= i32::MAX
    &&& i32::MIN <= area.min_y <= i32::MAX
    &&& i32::MIN <= area.max_x
    &&& i32::MIN <= area.max_y
}

/// `bounds` is the smallest rectangle that holds every area: it holds
/// each, and on each of its four sides some area reaches it.
pub open spec fn tightly_bounds(bounds: Rect, areas: Seq<Rect>) -> bool {
    &&& forall|i: int| 0 <= i < areas.len() ==> bounds.covers(#[trigger] areas[i])
    &&& exists|i: int| 0 <= i < areas.len() && (#[trigger] areas[i]).min_x == bounds.min_x
    &&& exists|i: int| 0 <= i < areas.len() && (#[trigger] areas[i]).min_y == bounds.min_y
    &&& exists|i: int| 0 <= i < areas.len() && (#[trigger] areas[i]).max_x == bounds.max_x
    &&& exists|i: int| 0 <= i < areas.len() && (#[trigger] areas[i]).max_y == bounds.max_y
}

/// The bounding box of one or more displays is the exact box around their
/// union.
pub proof fn lemma_bounding_box_is_tight(areas: Seq<Rect>)
    requires
        areas.len() > 0,
        forall|i: int| 0 <= i < areas.len() ==> display_sized(#[trigger] areas[i]),
    ensures
        tightly_bounds(bounding_box(areas), areas),
    decreases areas.len(),
{
    let rest = areas.drop_last();
    let last = areas.last();
    let b = bounding_box(areas);
    let n = areas.len() - 1;
    assert(display_sized(areas[n]));
    if rest.len() == 0 {
        assert(bounding_box(rest) == empty_bounds());
        assert(areas[n].min_x == b.min_x);
        assert(areas[n].min_y == b.min_y);
        assert(areas[n].max_x == b.max_x);
        assert(areas[n].max_y == b.max_y);
    } else {
        assert forall|i: int| 0 <= i < rest.len() implies display_sized(#[trigger] rest[i]) by {
            assert(rest[i] == areas[i]);
        }
        lemma_bounding_box_is_tight(rest);
        let rb = bounding_box(rest);
        assert forall|i: int| 0 <= i < areas.len() implies b.covers(#[trigger] areas[i]) by {
            if i < n {
                assert(rb.covers(rest[i]));
            }
        }
        let i0 = choose|i: int| 0 <= i < rest.len() && (#[trigger] rest[i]).min_x == rb.min_x;
        let i1 = choose|i: int| 0 <= i < rest.len() && (#[trigger] rest[i]).min_y == rb.min_y;
        let i2 = choose|i: int| 0 <= i < rest.len() && (#[trigger] rest[i]).max_x == rb.max_x;
        let i3 = choose|i: int| 0 <= i < rest.len() && (#[trigger] rest[i]).max_y == rb.max_y;
        assert(areas[i0] == rest[i0] && areas[i1] == rest[i1] && areas[i2] == rest[i2] && areas[i3]
            == rest[i3]);
        assert(areas[i0].min_x == b.min_x || areas[n].min_x == b.min_x);
        assert(areas[i1].min_y == b.min_y || areas[n].min_y == b.min_y);
        assert(areas[i2].max_x == b.max_x || areas[n].max_x == b.max_x);
        assert(areas[i3].max_y == b.max_y || areas[n].max_y == b.max_y);
    }
}

/// Two rectangles that both bound the same areas tightly are one.
pub proof fn lemma_tight_bounds_are_unique(a: Rect, b: Rect, areas: Seq<Rect>)
    requires
        tightly_bounds(a, areas),
        tightly_bounds(b, areas),
    ensures
        a == b,
{
    let a0 = choose|i: int| 0 <= i < areas.len() && (#[trigger] areas[i]).min_x == a.min_x;
    let a1 = choose|i: int| 0 <= i < areas.len() && (#[trigger] areas[i]).min_y == a.min_y;
    let a2 = choose|i: int| 0 <= i < areas.len() && (#[trigger] areas[i]).max_x == a.max_x;
    let a3 = choose|i: int| 0 <= i < areas.len() && (#[trigger] areas[i]).max_y == a.max_y;
    let b0 = choose|i: int| 0 <= i < areas.len() && (#[trigger] areas[i]).min_x == b.min_x;
    let b1 = choose|i: int| 0 <= i < areas.len() && (#[trigger] areas[i]).min_y == b.min_y;
    let b2 = choose|i: int| 0 <= i < areas.len() && (#[trigger] areas[i]).max_x == b.max_x;
    let b3 = choose|i: int| 0 <= i < areas.len() && (#[trigger] areas[i]).max_y == b.max_y;
    assert(b.covers(areas[a0]) && b.covers(areas[a1]) && b.covers(areas[a2]) && b.covers(areas[a3]));
    assert(a.covers(areas[b0]) && a.covers(areas[b1]) && a.covers(areas[b2]) && a.covers(areas[b3]));
}

/// A display that reaches beyond the bounds on any side grows them: the
/// new bounds hold the old ones and differ from them.
pub proof fn lemma_display_outside_grows_bounds(areas: Seq<Rect>, area: Rect)
    requires
        !bounding_box(areas).covers(area),
    ensures
        bounding_box(areas.push(area)).min_x <= bounding_box(areas).min_x,
        bounding_box(areas.push(area)).min_y <= bounding_box(areas).min_y,
        bounding_box(areas.push(area)).max_x >= bounding_box(areas).max_x,
        bounding_box(areas.push(area)).max_y >= bounding_box(areas).max_y,
        bounding_box(areas.push(area)) != bounding_box(areas),
        bounding_box(areas.push(area)).covers(area),
{
    assert(areas.push(area).drop_last() =~= areas);
}

/// A display inside the bounds leaves them as they are.
pub proof fn lemma_display_inside_keeps_bounds(areas: Seq<Rect>, area: Rect)
    requires
        bounding_box(areas).covers(area),
    ensures
        bounding_box(areas.push(area)) == bounding_box(areas),
{
    assert(areas.push(area).drop_last() =~= areas);
}

/// The bounds of the virtual desktop: the smallest rectangle that holds
/// every display. Of no display at all, `empty_bounds`.
pub fn calculate_virtual_desktop_bounds(monitors: &Vec<DisplayDescriptor>) -> (bounds: Rect)
    ensures
        bounds == bounding_box(areas_of(monitors@)),
        monitors.len() > 0 ==> tightly_bounds(bounds, areas_of(monitors@)),
{
    let mut min_x: i64 = i32::MAX as i64;
    let mut min_y: i64 = i32::MAX as i64;
    let mut max_x: i64 = i32::MIN as i64;
    let mut max_y: i64 = i32::MIN as i64;
    let ghost areas = areas_of(monitors@);
    let mut i: usize = 0;
    while i < monitors.len()
        invariant
            i <= monitors.len(),
            areas == areas_of(monitors@),
            (Rect { min_x, min_y, max_x, max_y }) == bounding_box(areas.take(i as int)),
        decreases monitors.len() - i,
    {
        let m = &monitors[i];
        let right: i64 = m.x as i64 + m.width as i64;
        let bottom: i64 = m.y as i64 + m.height as i64;
        proof {
            assert(areas.take(i + 1).drop_last() =~= areas.take(i as int));
            assert(areas.take(i + 1).last() == monitors[i as int].area());
        }
        if (m.x as i64) < min_x {
            min_x = m.x as i64;
        }
        if (m.y as i64) < min_y {
            min_y = m.y as i64;
        }
        if right > max_x {
            max_x = right;
        }
        if bottom > max_y {
            max_y = bottom;
        }
        i = i + 1;
    }
    proof {
        assert(areas.take(i as int) =~= areas);
        if monitors.len() > 0 {
            lemma_bounding_box_is_tight(areas);
        }
    }
    Rect { min_x, min_y, max_x, max_y }
}

/// The display starts at the origin of the virtual desktop.
pub open spec fn at_origin(d: DisplayDescriptor) -> bool {
    d.x == 0 && d.y == 0
}

/// Display `i` starts at the origin and none before it does.
pub open spec fn is_first_at_origin(displays: Seq<DisplayDescriptor>, i: int) -> bool {
    &&& 0 <= i < displays.len()
    &&& at_origin(displays[i])
    &&& forall|j: int| 0 <= j < i ==> !at_origin(#[trigger] displays[j])
}

/// The scale at which a buffer of the whole virtual desktop is drawn: that
/// of the first display at the origin, and 1.0 where no display is there.
pub open spec fn spec_virtual_desktop_scale(displays: Seq<DisplayDescriptor>) -> DpiScale
    decreases displays.len(),
{
    if displays.len() == 0 {
        DpiScale { numerator: 1, denominator: 1 }
    } else if at_origin(displays.first()) {
        displays.first().scale
    } else {
        spec_virtual_desktop_scale(displays.drop_first())
    }
}

/// `spec_virtual_desktop_scale` names the scale of the first display at
/// the origin.
pub proof fn lemma_virtual_desktop_scale(displays: Seq<DisplayDescriptor>)
    ensures
        forall|i: int|
            is_first_at_origin(displays, i) ==> spec_virtual_desktop_scale(displays)
                == displays[i].scale,
        (forall|i: int| 0 <= i < displays.len() ==> !at_origin(#[trigger] displays[i]))
            ==> spec_virtual_desktop_scale(displays) == (DpiScale { numerator: 1, denominator: 1 }),
    decreases displays.len(),
{
    if displays.len() > 0 {
        let rest = displays.drop_first();
        lemma_virtual_desktop_scale(rest);
        assert forall|i: int| is_first_at_origin(displays, i) implies spec_virtual_desktop_scale(
            displays,
        ) == displays[i].scale by {
            if i > 0 {
                assert(!at_origin(displays[0]));
                assert forall|j: int| 0 <= j < i - 1 implies !at_origin(#[trigger] rest[j]) by {
                    assert(rest[j] == displays[j + 1]);
                }
                assert(is_first_at_origin(rest, i - 1));
            }
        }
        if forall|i: int| 0 <= i < displays.len() ==> !at_origin(#[trigger] displays[i]) {
            assert(!at_origin(displays[0]));
            assert forall|i: int| 0 <= i < rest.len() implies !at_origin(#[trigger] rest[i]) by {
                assert(rest[i] == displays[i + 1]);
            }
        }
    }
}

/// The scale of the virtual desktop as a whole.
pub fn virtual_desktop_scale(displays: &Vec<DisplayDescriptor>) -> (scale: DpiScale)
    ensures
        scale == spec_virtual_desktop_scale(displays@),
{
    let mut i: usize = 0;
    assert(displays@.skip(0) =~= displays@);
    while i < displays.len()
        invariant
            i <= displays.len(),
            spec_virtual_desktop_scale(displays@) == spec_virtual_desktop_scale(
                displays@.skip(i as int),
            ),
        decreases displays.len() - i,
    {
        proof {
            assert(displays@.skip(i as int).first() == displays[i as int]);
            assert(displays@.skip(i as int).drop_first() =~= displays@.skip(i + 1));
        }
        if displays[i].x == 0 && displays[i].y == 0 {
            return displays[i].scale;
        }
        i = i + 1;
    }
    DpiScale::one()
}


/// From left to right, the places of one enumeration can be listed in one
/// way only.
pub proof fn lemma_left_to_right_is_unique(raw: Seq<RawDisplay>, a: Seq<usize>, b: Seq<usize>)
    requires
        is_left_to_right(a, raw),
        is_left_to_right(b, raw),
    ensures
        a == b,
{
    assert forall|k: int| 0 <= k < a.len() implies listed(b, #[trigger] a[k] as int) by {
        assert(listed(b, a[k] as int));
    }
    assert forall|k: int| 0 <= k < b.len() implies listed(a, #[trigger] b[k] as int) by {
        assert(listed(a, b[k] as int));
    }
    lemma_same_places_same_order(raw, a, b);
}

proof fn lemma_same_places_same_order(raw: Seq<RawDisplay>, a: Seq<usize>, b: Seq<usize>)
    requires
        forall|j: int, k: int|
            0 <= j < k < a.len() ==> comes_before(raw, #[trigger] a[j] as int, #[trigger] a[k] as int),
        forall|j: int, k: int|
            0 <= j < k < b.len() ==> comes_before(raw, #[trigger] b[j] as int, #[trigger] b[k] as int),
        forall|k: int| 0 <= k < a.len() ==> listed(b, #[trigger] a[k] as int),
        forall|k: int| 0 <= k < b.len() ==> listed(a, #[trigger] b[k] as int),
    ensures
        a == b,
    decreases a.len(),
{
    if a.len() == 0 {
        if b.len() > 0 {
            assert(listed(a, b[0] as int));
        }
        assert(a =~= b);
    } else {
        let na = a.len() - 1;
        assert(listed(b, a[na] as int));
        let nb = b.len() - 1;
        let kb = choose|k: int| 0 <= k < b.len() && #[trigger] b[k] == a[na] as int;
        assert(listed(a, b[nb] as int));
        let ka = choose|k: int| 0 <= k < a.len() && #[trigger] a[k] == b[nb] as int;
        if kb < nb {
            assert(comes_before(raw, b[kb] as int, b[nb] as int));
            if ka < na {
                assert(comes_before(raw, a[ka] as int, a[na] as int));
            }
        }
        assert(a[na] == b[nb]);
        let ra = a.drop_last();
        let rb = b.drop_last();
        assert forall|k: int| 0 <= k < ra.len() implies listed(rb, #[trigger] ra[k] as int) by {
            assert(ra[k] == a[k]);
            assert(listed(b, a[k] as int));
            let j = choose|j: int| 0 <= j < b.len() && #[trigger] b[j] == a[k] as int;
            assert(comes_before(raw, a[k] as int, a[na] as int));
            assert(j != nb);
            assert(rb[j] == b[j]);
        }
        assert forall|k: int| 0 <= k < rb.len() implies listed(ra, #[trigger] rb[k] as int) by {
            assert(rb[k] == b[k]);
            assert(listed(a, b[k] as int));
            let j = choose|j: int| 0 <= j < a.len() && #[trigger] a[j] == b[k] as int;
            assert(comes_before(raw, b[k] as int, b[nb] as int));
            assert(j != na);
            assert(ra[j] == a[j]);
        }
        assert forall|j: int, k: int| 0 <= j < k < ra.len() implies comes_before(
            raw,
            #[trigger] ra[j] as int,
            #[trigger] ra[k] as int,
        ) by {
            assert(ra[j] == a[j] && ra[k] == a[k]);
        }
        assert forall|j: int, k: int| 0 <= j < k < rb.len() implies comes_before(
            raw,
            #[trigger] rb[j] as int,
            #[trigger] rb[k] as int,
        ) by {
            assert(rb[j] == b[j] && rb[k] == b[k]);
        }
        lemma_same_places_same_order(raw, ra, rb);
        assert(a =~= ra.push(a[na]));
        assert(b =~= rb.push(b[nb]));
    }
}

/// One enumeration has one resolution: resolving it twice gives the same
/// displays with the same indices.
pub proof fn lemma_resolution_is_unique(
    raw: Seq<RawDisplay>,
    a: Seq<DisplayDescriptor>,
    b: Seq<DisplayDescriptor>,
)
    requires
        is_resolution(a, raw),
        is_resolution(b, raw),
    ensures
        a == b,
{
    let sa = a.map_values(|d: DisplayDescriptor| d.source);
    let sb = b.map_values(|d: DisplayDescriptor| d.source);
    lemma_left_to_right_is_unique(raw, sa, sb);
    assert forall|k: int| 0 <= k < a.len() implies a[k] == b[k] by {
        assert(sa[k] == a[k].source);
        assert(sb[k] == b[k].source);
        assert(a[k].as_raw() == b[k].as_raw());
    }
    assert(a =~= b);
}

/// The resolved displays, taken as an enumeration of their own.
pub open spec fn raws_of(displays: Seq<DisplayDescriptor>) -> Seq<RawDisplay> {
    Seq::new(displays.len(), |i: int| displays[i].as_raw())
}

/// Two lists of areas whose members are the same have the same bounds,
/// whatever their order.
pub proof fn lemma_same_areas_same_bounds(a: Seq<Rect>, b: Seq<Rect>)
    requires
        forall|i: int| 0 <= i < a.len() ==> display_sized(#[trigger] a[i]),
        forall|i: int| 0 <= i < a.len() ==> b.contains(#[trigger] a[i]),
        forall|i: int| 0 <= i < b.len() ==> a.contains(#[trigger] b[i]),
    ensures
        bounding_box(a) == bounding_box(b),
{
    if a.len() == 0 {
        if b.len() > 0 {
            assert(a.contains(b[0]));
        }
    } else {
        assert(b.contains(a[0]));
        assert forall|i: int| 0 <= i < b.len() implies display_sized(#[trigger] b[i]) by {
            assert(a.contains(b[i]));
        }
        lemma_bounding_box_is_tight(a);
        lemma_bounding_box_is_tight(b);
        let ba = bounding_box(a);
        assert forall|i: int| 0 <= i < b.len() implies ba.covers(#[trigger] b[i]) by {
            assert(a.contains(b[i]));
        }
        let a0 = choose|i: int| 0 <= i < a.len() && (#[trigger] a[i]).min_x == ba.min_x;
        let a1 = choose|i: int| 0 <= i < a.len() && (#[trigger] a[i]).min_y == ba.min_y;
        let a2 = choose|i: int| 0 <= i < a.len() && (#[trigger] a[i]).max_x == ba.max_x;
        let a3 = choose|i: int| 0 <= i < a.len() && (#[trigger] a[i]).max_y == ba.max_y;
        assert(b.contains(a[a0]) && b.contains(a[a1]) && b.contains(a[a2]) && b.contains(a[a3]));
        assert(tightly_bounds(ba, b));
        lemma_tight_bounds_are_unique(ba, bounding_box(b), b);
    }
}

/// Ordering the displays does not move the bounds of the virtual desktop.
pub proof fn lemma_resolution_keeps_bounds(raw: Seq<RawDisplay>, out: Seq<DisplayDescriptor>)
    requires
        is_resolution(out, raw),
    ensures
        bounding_box(areas_of(out)) == bounding_box(raw_areas_of(raw)),
{
    let a = areas_of(out);
    let b = raw_areas_of(raw);
    let sources = out.map_values(|d: DisplayDescriptor| d.source);
    assert forall|i: int| 0 <= i < a.len() implies b.contains(#[trigger] a[i]) by {
        assert(sources[i] == out[i].source);
        assert(out[i].as_raw() == raw[out[i].source as int]);
        assert(b[out[i].source as int] == a[i]);
    }
    assert forall|i: int| 0 <= i < b.len() implies a.contains(#[trigger] b[i]) by {
        assert(listed(sources, i));
        let k = choose|k: int| 0 <= k < sources.len() && #[trigger] sources[k] == i;
        assert(sources[k] == out[k].source);
        assert(out[k].as_raw() == raw[i]);
        assert(a[k] == b[i]);
    }
    lemma_same_areas_same_bounds(a, b);
}

/// Resolving what was resolved before changes nothing: every display
/// keeps its place, its index and its geometry, and the bounds stay.
pub proof fn lemma_resolving_again_changes_nothing(
    raw: Seq<RawDisplay>,
    out: Seq<DisplayDescriptor>,
    again: Seq<DisplayDescriptor>,
)
    requires
        is_resolution(out, raw),
        is_resolution(again, raws_of(out)),
    ensures
        again.len() == out.len(),
        forall|k: int|
            0 <= k < out.len() ==> (#[trigger] again[k]).index == out[k].index && again[k].source
                == k && again[k].as_raw() == out[k].as_raw(),
        bounding_box(areas_of(again)) == bounding_box(areas_of(out)),
        bounding_box(areas_of(out)) == bounding_box(raw_areas_of(raw)),
{
    let mid = raws_of(out);
    let sources = out.map_values(|d: DisplayDescriptor| d.source);
    let in_place = Seq::new(out.len(), |k: int| k as usize);
    assert forall|j: int, k: int| 0 <= j < k < in_place.len() implies comes_before(
        mid,
        #[trigger] in_place[j] as int,
        #[trigger] in_place[k] as int,
    ) by {
        assert(comes_before(raw, sources[j] as int, sources[k] as int));
        assert(sources[j] == out[j].source && sources[k] == out[k].source);
        assert(out[j].as_raw() == raw[out[j].source as int]);
        assert(out[k].as_raw() == raw[out[k].source as int]);
    }
    assert forall|i: int| 0 <= i < mid.len() implies in_place[i] == i by {
        assert(listed(sources, i));
    }
    assert forall|i: int| 0 <= i < mid.len() implies #[trigger] listed(in_place, i) by {
        assert(in_place[i] == i);
    }
    assert(is_left_to_right(in_place, mid));
    let again_sources = again.map_values(|d: DisplayDescriptor| d.source);
    lemma_left_to_right_is_unique(mid, again_sources, in_place);
    assert forall|k: int| 0 <= k < out.len() implies (#[trigger] again[k]).index == out[k].index
        && again[k].source == k && again[k].as_raw() == out[k].as_raw() by {
        assert(again_sources[k] == again[k].source);
        assert(in_place[k] == k);
        assert(again[k].as_raw() == mid[again[k].source as int]);
    }
    lemma_resolution_keeps_bounds(raw, out);
    lemma_resolution_keeps_bounds(mid, again);
    assert(raw_areas_of(mid) =~= areas_of(out));
}

} // verus!
