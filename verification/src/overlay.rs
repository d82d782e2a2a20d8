//! One overlay window: how it maps its own pixels to the virtual desktop,
//! and what it does with one frame of input.

use crate::geometry::{Point, Rect, WindowPoint};
use crate::selection::{dragged, SharedState};
use crate::texture::{calculate_final_texture_size, fitted_height, fitted_width};
use crate::topology::DisplayDescriptor;
use vstd::prelude::*;

verus! {

/// A window looks at the shared state for a request to close once more
/// than this many nanoseconds have passed since it last did.
pub const POLL_INTERVAL_NANOS: u128 = 100_000_000;

/// The overlay window of one display.
#[derive(Clone, Copy, Debug, PartialEq, Eq, Structural)]
pub struct OverlayWindow {
    pub monitor: DisplayDescriptor,
    /// The size of the texture that the window shows.
    pub texture_width: u32,
    pub texture_height: u32,
    pub virtual_desktop_bounds: Rect,
    /// Where the pointer was last seen over this window, in
    /// virtual-desktop coordinates.
    pub cursor: Option<Point>,
}

/// The input of one frame.
#[derive(Clone, Copy, Debug, PartialEq, Eq, Structural)]
pub struct FrameInput {
    /// The pixel of the window that the pointer is over, where it is over
    /// the window. Positions are whole pixels.
    pub pointer: Option<WindowPoint>,
    /// The primary button went down in this frame.
    pub primary_pressed: bool,
    /// The primary button went up in this frame.
    pub primary_released: bool,
    /// The cancellation key went down in this frame.
    pub escape_pressed: bool,
}

/// What a frame of input made of the shared state.
#[derive(Clone, Copy, Debug, PartialEq, Eq, Structural)]
pub struct InputOutcome {
    pub state: SharedState,
    /// Whether the frame changed anything: `state` is then to be written
    /// to the shared channel.
    pub written: bool,
}

/// Whether the window goes on after a frame.
#[derive(Clone, Copy, Debug, PartialEq, Eq, Structural)]
pub enum FrameAction {
    /// The window is to close now.
    Close,
    /// The window is to be drawn, and another frame follows.
    Continue,
}

/// What a window does at the end of a frame.
#[derive(Clone, Copy, Debug, PartialEq, Eq, Structural)]
pub struct FrameOutcome {
    pub action: FrameAction,
    pub state: SharedState,
    /// Whether `state` is to be written to the shared channel.
    pub written: bool,
    /// Whether the frame looked for a request to close and found none:
    /// the polling interval then starts anew.
    pub polled: bool,
}

/// A point of a window in virtual-desktop coordinates: the point moved by
/// the origin of the window's display.
pub open spec fn to_virtual(monitor: DisplayDescriptor, p: WindowPoint) -> Point {
    Point { x: (p.x + monitor.x) as i64, y: (p.y + monitor.y) as i64 }
}

/// A value cut to the range of `i64`.
pub open spec fn clamp_i64(v: int) -> int {
    if v < i64::MIN {
        i64::MIN as int
    } else if v > i64::MAX {
        i64::MAX as int
    } else {
        v
    }
}

/// A point of the virtual desktop in the coordinates of a window: the
/// point moved back by the origin of the window's display. A coordinate
/// that leaves the range of `i64` stops at its end.
pub open spec fn to_window(monitor: DisplayDescriptor, p: Point) -> Point {
    Point { x: clamp_i64(p.x - monitor.x) as i64, y: clamp_i64(p.y - monitor.y) as i64 }
}

/// The pointer of a frame in virtual-desktop coordinates.
pub open spec fn cursor_of(monitor: DisplayDescriptor, input: FrameInput) -> Option<Point> {
    match input.pointer {
        Some(p) => Some(to_virtual(monitor, p)),
        None => None,
    }
}

/// The shared state after the pointer steps of one frame, with the pointer
/// at `cursor`: pointer-down, pointer seen, pointer-up, in this order.
pub open spec fn state_after_pointer(
    state: SharedState,
    cursor: Option<Point>,
    input: FrameInput,
) -> SharedState {
    let pressed = if input.primary_pressed && cursor is Some {
        state.after_press(cursor->0)
    } else {
        state
    };
    let moved = pressed.after_move(cursor);
    if input.primary_released && moved.is_dragging {
        moved.after_release()
    } else {
        moved
    }
}

/// Whether a pointer step of the frame applies.
pub open spec fn pointer_writes(state: SharedState, cursor: Option<Point>, input: FrameInput) -> bool {
    let pressed = if input.primary_pressed && cursor is Some {
        state.after_press(cursor->0)
    } else {
        state
    };
    ||| input.primary_pressed && cursor is Some
    ||| pressed.tracks(cursor)
    ||| input.primary_released && pressed.is_dragging
}

/// The shared state after one frame of input with the pointer at `cursor`.
/// The pointer steps apply first, then cancellation. A state that asks
/// every window to close is final: the pointer steps leave it as it is.
pub open spec fn state_after_input(
    state: SharedState,
    cursor: Option<Point>,
    input: FrameInput,
) -> SharedState {
    let pointed = if state.should_close {
        state
    } else {
        state_after_pointer(state, cursor, input)
    };
    if input.escape_pressed {
        pointed.after_cancel()
    } else {
        pointed
    }
}

/// Whether one frame of input writes the shared state: some step of it
/// applied.
pub open spec fn input_writes(state: SharedState, cursor: Option<Point>, input: FrameInput) -> bool {
    (!state.should_close && pointer_writes(state, cursor, input)) || input.escape_pressed
}

/// Whether a window that last looked `elapsed_nanos` ago is to look again
/// for a request to close.
pub open spec fn poll_due(elapsed_nanos: u128) -> bool {
    elapsed_nanos > POLL_INTERVAL_NANOS
}

/// What a frame comes to, given the shared state as the frame read it.
pub open spec fn frame_outcome(
    monitor: DisplayDescriptor,
    state: SharedState,
    input: FrameInput,
    elapsed_nanos: u128,
) -> FrameOutcome {
    if input.escape_pressed {
        FrameOutcome {
            action: FrameAction::Close,
            state: state.after_cancel(),
            written: true,
            polled: false,
        }
    } else if poll_due(elapsed_nanos) && state.should_close {
        FrameOutcome { action: FrameAction::Close, state, written: false, polled: false }
    } else {
        FrameOutcome {
            action: FrameAction::Continue,
            state: state_after_input(state, cursor_of(monitor, input), input),
            written: input_writes(state, cursor_of(monitor, input), input),
            polled: poll_due(elapsed_nanos),
        }
    }
}

impl OverlayWindow {
    /// The window of `monitor`. `image` is the size of the monitor's stored
    /// image, or nothing where the image could not be read: the window then
    /// takes the monitor's own size for that of its texture.
    pub fn new(monitor: DisplayDescriptor, virtual_desktop_bounds: Rect, image: Option<(u32, u32)>) -> (w:
        OverlayWindow)
        ensures
            w.monitor == monitor,
            w.virtual_desktop_bounds == virtual_desktop_bounds,
            w.cursor is None,
            image is Some ==> w.texture_width == fitted_width(
                monitor.width as int,
                monitor.height as int,
            ) && w.texture_height == fitted_height(monitor.width as int, monitor.height as int),
            image is None ==> w.texture_width == monitor.width && w.texture_height
                == monitor.height,
    {
        let (texture_width, texture_height) = match image {
            Some(_) => calculate_final_texture_size(&monitor),
            None => (monitor.width, monitor.height),
        };
        OverlayWindow { monitor, texture_width, texture_height, virtual_desktop_bounds, cursor: None }
    }

    /// A point of the window in virtual-desktop coordinates.
    pub fn window_to_virtual(&self, window_pos: WindowPoint) -> (p: Point)
        ensures
            p == to_virtual(self.monitor, window_pos),
    {
        Point {
            x: window_pos.x as i64 + self.monitor.x as i64,
            y: window_pos.y as i64 + self.monitor.y as i64,
        }
    }

    /// A point of the virtual desktop in the window's coordinates.
    pub fn virtual_to_window(&self, virtual_pos: Point) -> (p: Point)
        ensures
            p == to_window(self.monitor, virtual_pos),
    {
        Point {
            x: saturating_offset(virtual_pos.x, self.monitor.x),
            y: saturating_offset(virtual_pos.y, self.monitor.y),
        }
    }

    /// Applies one frame of input to the shared state as it was read: the
    /// pointer is noted, then pointer-down, pointer seen, pointer-up and
    /// cancellation apply in this order. Where the state that was read asks
    /// every window to close, the pointer changes nothing any more.
    pub fn handle_input(&mut self, state: SharedState, input: &FrameInput) -> (outcome: InputOutcome)
        ensures
            final(self).cursor == cursor_of(old(self).monitor, *input),
            *final(self) == (OverlayWindow { cursor: final(self).cursor, ..*old(self) }),
            outcome.state == state_after_input(state, final(self).cursor, *input),
            outcome.written == input_writes(state, final(self).cursor, *input),
    {
        self.cursor = match input.pointer {
            Some(p) => Some(self.window_to_virtual(p)),
            None => None,
        };
        let mut state = state;
        let mut written = false;
        if !state.should_close {
            if input.primary_pressed {
                if let Some(pos) = self.cursor {
                    state = state.pointer_down(pos);
                    written = true;
                }
            }
            if state.is_dragging {
                if state.drag_start_pos().is_some() && self.cursor.is_some() {
                    state = state.pointer_move(self.cursor);
                    written = true;
                }
            }
            if input.primary_released {
                if state.is_dragging {
                    state = state.pointer_up();
                    written = true;
                }
            }
        }
        if input.escape_pressed {
            state = state.cancel();
            written = true;
        }
        InputOutcome { state, written }
    }

    /// One frame of the window. `state` is the shared state as the frame
    /// read it, and `elapsed_nanos` the time since the window last looked
    /// for a request to close. Cancellation closes the window and asks the
    /// others to close; a request to close that is found closes it with
    /// nothing written; otherwise the input of the frame applies.
    pub fn update(&mut self, state: SharedState, input: &FrameInput, elapsed_nanos: u128) -> (outcome:
        FrameOutcome)
        ensures
            outcome == frame_outcome(old(self).monitor, state, *input, elapsed_nanos),
            outcome.action == FrameAction::Close ==> *final(self) == *old(self),
            outcome.action == FrameAction::Continue ==> *final(self) == (OverlayWindow {
                cursor: cursor_of(old(self).monitor, *input),
                ..*old(self)
            }),
    {
        if input.escape_pressed {
            return FrameOutcome {
                action: FrameAction::Close,
                state: state.cancel(),
                written: true,
                polled: false,
            };
        }
        let due: bool = elapsed_nanos > POLL_INTERVAL_NANOS;
        if due && state.should_close {
            return FrameOutcome { action: FrameAction::Close, state, written: false, polled: false };
        }
        let applied = self.handle_input(state, input);
        FrameOutcome {
            action: FrameAction::Continue,
            state: applied.state,
            written: applied.written,
            polled: due,
        }
    }
}

fn saturating_offset(pos: i64, origin: i32) -> (r: i64)
    ensures
        r == clamp_i64(pos - origin),
{
    let exact: i128 = pos as i128 - origin as i128;
    if exact < i64::MIN as i128 {
        i64::MIN
    } else if exact > i64::MAX as i128 {
        i64::MAX
    } else {
        exact as i64
    }
}

/// A drag from `start` to `end` in three frames, whichever windows see
/// them (pointer-down at `start`, pointer at `end`, pointer-up at `end`),
/// leaves the selection between the two points where that is large enough
/// in both axes, leaves none where it is not, ends the drag and forgets
/// its start. After the first frame there is no selection yet. The session
/// must not have been asked to close.
pub proof fn lemma_drag_sequence(
    state: SharedState,
    start: Point,
    end: Point,
    down: FrameInput,
    drag: FrameInput,
    up: FrameInput,
)
    requires
        !state.should_close,
        down.primary_pressed && !down.primary_released && !down.escape_pressed,
        !drag.primary_pressed && !drag.primary_released && !drag.escape_pressed,
        !up.primary_pressed && up.primary_released && !up.escape_pressed,
    ensures
        ({
            let s1 = state_after_input(state, Some(start), down);
            let s2 = state_after_input(s1, Some(end), drag);
            let s3 = state_after_input(s2, Some(end), up);
            &&& s1.selection_rect is None
            &&& s1.is_dragging
            &&& s1.drag_start == Some(start)
            &&& s2.selection_rect == dragged(start, end)
            &&& s3.selection_rect == dragged(start, end)
            &&& !s3.is_dragging
            &&& s3.drag_start is None
            &&& !s3.should_close
            &&& input_writes(state, Some(start), down)
            &&& input_writes(s1, Some(end), drag)
            &&& input_writes(s2, Some(end), up)
        }),
{
}

/// The same drag, step by step on the shared state itself.
pub proof fn lemma_drag_steps(state: SharedState, start: Point, end: Point)
    ensures
        state.after_press(start).after_move(Some(end)).after_release().selection_rect == dragged(
            start,
            end,
        ),
        !state.after_press(start).after_move(Some(end)).after_release().is_dragging,
        state.after_press(start).after_move(Some(end)).after_release().drag_start is None,
{
}

/// A frame of input leaves a selection that is large enough, or none, where
/// it found one that was.
pub proof fn lemma_input_respects_minimum(state: SharedState, cursor: Option<Point>, input: FrameInput)
    requires
        state.respects_minimum(),
    ensures
        state_after_input(state, cursor, input).respects_minimum(),
{
}

/// A whole frame, too, leaves a selection that is large enough, or none.
pub proof fn lemma_frame_respects_minimum(
    monitor: DisplayDescriptor,
    state: SharedState,
    input: FrameInput,
    elapsed_nanos: u128,
)
    requires
        state.respects_minimum(),
    ensures
        frame_outcome(monitor, state, input, elapsed_nanos).state.respects_minimum(),
{
}

/// Once the state that a frame reads asks every window to close, the
/// frame makes no selection of its own: whatever the pointer does, and
/// whether or not the window is due to look for the request, the selection
/// and the drag stay as they were read, and nothing is written but a
/// repeated cancellation.
pub proof fn lemma_no_selection_after_close_request(
    monitor: DisplayDescriptor,
    state: SharedState,
    input: FrameInput,
    elapsed_nanos: u128,
)
    requires
        state.should_close,
    ensures
        frame_outcome(monitor, state, input, elapsed_nanos).state == state,
        state_after_input(state, cursor_of(monitor, input), input) == state,
        frame_outcome(monitor, state, input, elapsed_nanos).written == input.escape_pressed,
        input_writes(state, cursor_of(monitor, input), input) == input.escape_pressed,
{
}

/// No frame takes a request to close back.
pub proof fn lemma_close_request_stays(
    monitor: DisplayDescriptor,
    state: SharedState,
    input: FrameInput,
    elapsed_nanos: u128,
)
    requires
        state.should_close,
    ensures
        frame_outcome(monitor, state, input, elapsed_nanos).state.should_close,
        state_after_input(state, cursor_of(monitor, input), input).should_close,
{
}

/// A window that looks for a request to close and finds one closes, and
/// writes nothing: no selection of its making follows the request.
pub proof fn lemma_observed_close_ends_window(
    monitor: DisplayDescriptor,
    state: SharedState,
    input: FrameInput,
    elapsed_nanos: u128,
)
    requires
        state.should_close,
        poll_due(elapsed_nanos),
    ensures
        frame_outcome(monitor, state, input, elapsed_nanos).action == FrameAction::Close,
        frame_outcome(monitor, state, input, elapsed_nanos).state.selection_rect
            == state.selection_rect,
        !input.escape_pressed ==> !frame_outcome(monitor, state, input, elapsed_nanos).written,
{
}

/// Cancellation in any window closes it and leaves the request to close in
/// the state that it writes, for every other window to find.
pub proof fn lemma_cancellation_is_written(
    monitor: DisplayDescriptor,
    state: SharedState,
    input: FrameInput,
    elapsed_nanos: u128,
)
    requires
        input.escape_pressed,
    ensures
        frame_outcome(monitor, state, input, elapsed_nanos).action == FrameAction::Close,
        frame_outcome(monitor, state, input, elapsed_nanos).written,
        frame_outcome(monitor, state, input, elapsed_nanos).state.should_close,
{
}

} // verus!
