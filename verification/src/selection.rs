//! The selection that all overlay windows share, and how pointer input in
//! one window changes it.
//!
//! Every window reads the shared state, applies one frame of input and
//! writes the whole state back. Nothing orders the writers: the state that
//! was written last stands.

use crate::geometry::{normalized, Point, Rect};
use vstd::prelude::*;

verus! {

/// The shortest side, in pixels, that a selection may have.
pub const MIN_SELECTION_SIZE: i64 = 5;

/// The state that the windows of a session share.
#[derive(Clone, Copy, Debug, PartialEq, Eq, Structural)]
pub struct SharedState {
    /// The selection in virtual-desktop coordinates, if there is one.
    pub selection_rect: Option<Rect>,
    /// True from pointer-down to pointer-up.
    pub is_dragging: bool,
    /// Where the drag began, in virtual-desktop coordinates. It is set at
    /// pointer-down and cleared when the drag ends.
    pub drag_start: Option<Point>,
    /// Once true, every window is to close.
    pub should_close: bool,
}

/// The rectangle is normalized and at least `MIN_SELECTION_SIZE` long on
/// both sides.
pub open spec fn large_enough(rect: Rect) -> bool {
    rect.width() >= MIN_SELECTION_SIZE && rect.height() >= MIN_SELECTION_SIZE
}

/// The selection that a drag from `start` to `current` makes: the
/// normalized rectangle between the two, or none where that is too small.
pub open spec fn dragged(start: Point, current: Point) -> Option<Rect> {
    if large_enough(normalized(start, current)) {
        Some(normalized(start, current))
    } else {
        None
    }
}

/// Where a selection stands between its beginning and its end.
#[derive(Clone, Copy, Debug, PartialEq, Eq, Structural)]
pub enum Phase {
    /// No drag is under way and nothing is selected.
    Idle,
    /// The pointer is held down and the selection follows it.
    Dragging,
    /// The pointer was let go and the selection stays.
    Selected,
    /// Every window is to close. No other phase follows.
    Closing,
}

impl SharedState {
    /// The phase that the state is in.
    pub open spec fn spec_phase(self) -> Phase {
        if self.should_close {
            Phase::Closing
        } else if self.is_dragging {
            Phase::Dragging
        } else if self.selection_rect is Some {
            Phase::Selected
        } else {
            Phase::Idle
        }
    }

    pub fn phase(&self) -> (p: Phase)
        ensures
            p == self.spec_phase(),
    {
        if self.should_close {
            Phase::Closing
        } else if self.is_dragging {
            Phase::Dragging
        } else if self.selection_rect.is_some() {
            Phase::Selected
        } else {
            Phase::Idle
        }
    }

    /// The state at the start of a session: no selection, no drag, no
    /// request to close.
    pub open spec fn fresh() -> SharedState {
        SharedState { selection_rect: None, is_dragging: false, drag_start: None, should_close: false }
    }

    /// A selection, where there is one, is large enough.
    pub open spec fn respects_minimum(self) -> bool {
        self.selection_rect matches Some(rect) ==> large_enough(rect)
    }

    /// The state after the pointer went down at `pos`.
    pub open spec fn after_press(self, pos: Point) -> SharedState {
        SharedState {
            selection_rect: Some(Rect { min_x: pos.x, min_y: pos.y, max_x: pos.x, max_y: pos.y }),
            is_dragging: true,
            drag_start: Some(pos),
            should_close: self.should_close,
        }
    }

    /// Whether a pointer at `cursor` moves the selection: a drag is under
    /// way, its start is known and the pointer is over the window.
    pub open spec fn tracks(self, cursor: Option<Point>) -> bool {
        self.is_dragging && self.drag_start is Some && cursor is Some
    }

    /// The state after the pointer was seen at `cursor`.
    pub open spec fn after_move(self, cursor: Option<Point>) -> SharedState {
        if self.tracks(cursor) {
            SharedState { selection_rect: dragged(self.drag_start->0, cursor->0), ..self }
        } else {
            self
        }
    }

    /// The state after the pointer went up: the drag is over and its
    /// start forgotten; the selection stays.
    pub open spec fn after_release(self) -> SharedState {
        SharedState { is_dragging: false, drag_start: None, ..self }
    }

    /// The state after the selection was cancelled.
    pub open spec fn after_cancel(self) -> SharedState {
        SharedState { should_close: true, ..self }
    }

    /// The state as the channel gives it: the document that was read, or
    /// the fresh state where none could be read.
    pub fn read_state(document: Option<SharedState>) -> (s: SharedState)
        ensures
            s == (match document {
                Some(d) => d,
                None => SharedState::fresh(),
            }),
    {
        match document {
            Some(d) => d,
            None => SharedState::default(),
        }
    }

    pub fn to_rect(&self) -> (r: Option<Rect>)
        ensures
            r == self.selection_rect,
    {
        self.selection_rect
    }

    pub fn set_rect(&mut self, rect: Option<Rect>)
        ensures
            *final(self) == (SharedState { selection_rect: rect, ..*old(self) }),
    {
        self.selection_rect = rect;
    }

    pub fn drag_start_pos(&self) -> (p: Option<Point>)
        ensures
            p == self.drag_start,
    {
        self.drag_start
    }

    pub fn set_drag_start(&mut self, pos: Option<Point>)
        ensures
            *final(self) == (SharedState { drag_start: pos, ..*old(self) }),
    {
        self.drag_start = pos;
    }

    /// Pointer-down at `pos`: a drag begins there, with a selection of no
    /// size.
    pub fn pointer_down(self, pos: Point) -> (s: SharedState)
        ensures
            s == self.after_press(pos),
    {
        let mut s = self;
        s.is_dragging = true;
        s.set_drag_start(Some(pos));
        s.set_rect(Some(Rect::at(pos)));
        s
    }

    /// The pointer was seen at `cursor`, or not at all. During a drag the
    /// selection follows it; a selection that would be too small is none.
    pub fn pointer_move(self, cursor: Option<Point>) -> (s: SharedState)
        ensures
            s == self.after_move(cursor),
    {
        let mut s = self;
        if s.is_dragging {
            match (s.drag_start_pos(), cursor) {
                (Some(start), Some(current)) => {
                    let rect = Rect::from_corners(start, current);
                    if rect.at_least(MIN_SELECTION_SIZE) {
                        s.set_rect(Some(rect));
                    } else {
                        s.set_rect(None);
                    }
                },
                _ => {},
            }
        }
        s
    }

    /// Pointer-up: the drag ends, its start is forgotten and the selection
    /// stays.
    pub fn pointer_up(self) -> (s: SharedState)
        ensures
            s == self.after_release(),
    {
        let mut s = self;
        s.is_dragging = false;
        s.set_drag_start(None);
        s
    }

    /// The request to close every window.
    pub fn cancel(self) -> (s: SharedState)
        ensures
            s == self.after_cancel(),
    {
        let mut s = self;
        s.should_close = true;
        s
    }
}

impl Default for SharedState {
    fn default() -> (s: SharedState)
        ensures
            s == SharedState::fresh(),
    {
        SharedState { selection_rect: None, is_dragging: false, drag_start: None, should_close: false }
    }
}


/// How far apart two coordinates are.
pub open spec fn distance(a: i64, b: i64) -> int {
    if a >= b {
        a - b
    } else {
        b - a
    }
}

/// A drag makes a selection exactly where its ends are at least
/// `MIN_SELECTION_SIZE` apart in both axes, and the selection is then the
/// normalized rectangle between them.
pub proof fn lemma_dragged_by_distance(start: Point, end: Point)
    ensures
        distance(start.x, end.x) >= MIN_SELECTION_SIZE && distance(start.y, end.y)
            >= MIN_SELECTION_SIZE ==> dragged(start, end) == Some(normalized(start, end)),
        distance(start.x, end.x) < MIN_SELECTION_SIZE || distance(start.y, end.y)
            < MIN_SELECTION_SIZE ==> dragged(start, end) is None,
        dragged(start, end) == dragged(end, start),
        dragged(start, end) matches Some(rect) ==> rect.is_normalized() && large_enough(rect),
{
}

/// A session starts idle, with a state that respects the minimum.
pub proof fn lemma_fresh_state()
    ensures
        SharedState::fresh().respects_minimum(),
        SharedState::fresh().spec_phase() == Phase::Idle,
{
}

/// Once every window is to close, no step leads to another phase.
pub proof fn lemma_closing_is_final(state: SharedState, pos: Point, cursor: Option<Point>)
    requires
        state.spec_phase() == Phase::Closing,
    ensures
        state.after_press(pos).spec_phase() == Phase::Closing,
        state.after_move(cursor).spec_phase() == Phase::Closing,
        state.after_release().spec_phase() == Phase::Closing,
        state.after_cancel().spec_phase() == Phase::Closing,
{
}

} // verus!
