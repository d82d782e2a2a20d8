//! What a session consists of: the files it keeps, the children it starts
//! and what a child needs to show its display.

use crate::arguments::{decimal_digits, format_index};
use crate::geometry::Rect;
use crate::selection::SharedState;
use crate::texture::{spec_window_geometry, window_geometry, WindowGeometry};
use crate::topology::{areas_of, bounding_box, calculate_virtual_desktop_bounds, DisplayDescriptor};
use vstd::prelude::*;
use vstd::string::StringExecFns;

verus! {

/// The file that holds the displays of the session.
pub const MONITORS_FILE: &'static str = "monitors.json";

/// The file that holds the bounds of the virtual desktop, as the four
/// numbers `min_x`, `min_y`, `max_x`, `max_y`.
pub const BOUNDS_FILE: &'static str = "vdb.json";

/// The file that holds the shared state.
pub const STATE_FILE: &'static str = "state.json";

/// Why a session could not go on.
#[derive(Clone, Copy, Debug, PartialEq, Eq, Structural)]
pub enum SessionError {
    /// No display was captured: there is nothing to show.
    NoMonitorsCaptured,
    /// The session has no display at the place that a child was started
    /// for.
    MonitorIndexOutOfBounds,
}

/// What the parent of a session writes down and starts.
#[derive(Debug)]
pub struct SessionPlan {
    /// The displays that were captured, in their order.
    pub monitors: Vec<DisplayDescriptor>,
    pub virtual_desktop_bounds: Rect,
    /// The shared state at the start of the session.
    pub state: SharedState,
    /// The places, among `monitors`, of the displays that get a child.
    pub targets: Vec<usize>,
}

/// What a child needs to show its display.
#[derive(Clone, Copy, Debug, PartialEq, Eq, Structural)]
pub struct ChildSession {
    pub monitor: DisplayDescriptor,
    /// Where the child's window goes, and how large it is.
    pub window: WindowGeometry,
    /// The shared state that the child writes before it shows anything, so
    /// that no request to close is left over from an earlier session.
    pub state: SharedState,
}

/// The name of the file that holds the image of the display `index`.
pub open spec fn spec_artifact_name(index: usize) -> Seq<char> {
    "monitor_"@ + decimal_digits(index as nat) + ".png"@
}

/// The name of the file that holds, for diagnosis, the buffer of the whole
/// virtual desktop that was acquired for the display `index`.
pub open spec fn spec_raw_artifact_name(index: usize) -> Seq<char> {
    "monitor_"@ + decimal_digits(index as nat) + "_RAW.png"@
}

pub fn artifact_name(index: usize) -> (name: String)
    ensures
        name@ == spec_artifact_name(index),
{
    let mut name = String::from_str("monitor_");
    let digits = format_index(index);
    name.append(digits.as_str());
    name.append(".png");
    name
}

pub fn raw_artifact_name(index: usize) -> (name: String)
    ensures
        name@ == spec_raw_artifact_name(index),
{
    let mut name = String::from_str("monitor_");
    let digits = format_index(index);
    name.append(digits.as_str());
    name.append("_RAW.png");
    name
}

/// The places of the displays that get a child: the one that was asked
/// for, or all of `count` displays where none was.
pub open spec fn spec_monitors_to_launch(only_monitor: Option<usize>, count: usize) -> Seq<usize> {
    match only_monitor {
        Some(index) => seq![index],
        None => Seq::new(count as nat, |k: int| k as usize),
    }
}

/// The places of the displays that get a child.
pub fn monitors_to_launch(only_monitor: Option<usize>, count: usize) -> (targets: Vec<usize>)
    ensures
        targets@ == spec_monitors_to_launch(only_monitor, count),
{
    let mut targets: Vec<usize> = Vec::new();
    match only_monitor {
        Some(index) => {
            targets.push(index);
        },
        None => {
            let mut k: usize = 0;
            while k < count
                invariant
                    k <= count,
                    targets.len() == k,
                    forall|j: int| 0 <= j < k ==> targets[j] == j,
                decreases count - k,
            {
                targets.push(k);
                k = k + 1;
            }
        },
    }
    assert(targets@ =~= spec_monitors_to_launch(only_monitor, count));
    targets
}

/// Plans the session over the displays that were captured: its bounds,
/// its fresh shared state and the children to start. A session without a
/// display is an error.
pub fn plan_session(only_monitor: Option<usize>, monitors: Vec<DisplayDescriptor>) -> (r: Result<
    SessionPlan,
    SessionError,
>)
    ensures
        r is Err <==> monitors.len() == 0,
        r matches Err(e) ==> e == SessionError::NoMonitorsCaptured,
        r matches Ok(plan) ==> plan.monitors@ == monitors@,
        r matches Ok(plan) ==> plan.virtual_desktop_bounds == bounding_box(areas_of(monitors@)),
        r matches Ok(plan) ==> plan.state == SharedState::fresh(),
        r matches Ok(plan) ==> plan.targets@ == spec_monitors_to_launch(
            only_monitor,
            monitors.len(),
        ),
{
    if monitors.len() == 0 {
        return Err(SessionError::NoMonitorsCaptured);
    }
    let virtual_desktop_bounds = calculate_virtual_desktop_bounds(&monitors);
    let targets = monitors_to_launch(only_monitor, monitors.len());
    Ok(SessionPlan { monitors, virtual_desktop_bounds, state: SharedState::default(), targets })
}

/// What the child started for the place `monitor_index` needs: the display
/// at that place, the geometry of its window and a fresh shared state.
pub fn open_child_session(monitors: &Vec<DisplayDescriptor>, monitor_index: usize) -> (r: Result<
    ChildSession,
    SessionError,
>)
    ensures
        r is Err <==> monitor_index >= monitors.len(),
        r matches Err(e) ==> e == SessionError::MonitorIndexOutOfBounds,
        r matches Ok(child) ==> child.monitor == monitors[monitor_index as int],
        r matches Ok(child) ==> child.window == spec_window_geometry(child.monitor),
        r matches Ok(child) ==> child.state == SharedState::fresh(),
{
    if monitor_index >= monitors.len() {
        return Err(SessionError::MonitorIndexOutOfBounds);
    }
    let monitor = monitors[monitor_index];
    Ok(ChildSession { monitor, window: window_geometry(&monitor), state: SharedState::default() })
}

impl SessionError {
    /// The error in words.
    pub fn message(&self) -> (m: String)
        ensures
            m@ == (match *self {
                SessionError::NoMonitorsCaptured => "No monitors captured"@,
                SessionError::MonitorIndexOutOfBounds => "Monitor index out of bounds"@,
            }),
    {
        match self {
            SessionError::NoMonitorsCaptured => String::from_str("No monitors captured"),
            SessionError::MonitorIndexOutOfBounds => String::from_str("Monitor index out of bounds"),
        }
    }
}

} // verus!
