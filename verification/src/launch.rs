//! How a capture is asked for: over all displays, or over the display
//! that the pointer is on.

use crate::arguments::{launch_arguments, spec_launch_arguments, texts_of, LaunchMode};
use crate::topology::{
    is_resolution, lemma_resolution_is_unique, resolve, DisplayDescriptor, RawDisplay,
};
use vstd::prelude::*;
use vstd::string::StringExecFns;

verus! {

/// What the platform answered when it was asked where the pointer is.
#[derive(Clone, Copy, Debug, PartialEq, Eq, Structural)]
pub enum CursorQuery {
    /// The pointer is at this place of the virtual desktop.
    At(i32, i32),
    /// The platform can tell where the pointer is, and did not.
    Failed,
    /// The platform cannot tell where the pointer is.
    Unsupported,
}

/// The position of the pointer, or why there is none.
pub open spec fn spec_cursor_position(query: CursorQuery) -> Result<(i32, i32), Seq<char>> {
    match query {
        CursorQuery::At(x, y) => Ok((x, y)),
        CursorQuery::Failed => Err("Failed to get cursor position"@),
        CursorQuery::Unsupported => Err("Cursor detection only supported on Windows"@),
    }
}

/// The position of the pointer, from what the platform answered.
pub fn get_cursor_position(query: CursorQuery) -> (r: Result<(i32, i32), String>)
    ensures
        r is Ok <==> query is At,
        r matches Ok(p) ==> spec_cursor_position(query) == Ok::<(i32, i32), Seq<char>>(p),
        r matches Err(e) ==> spec_cursor_position(query) == Err::<(i32, i32), Seq<char>>(e@),
{
    match query {
        CursorQuery::At(x, y) => Ok((x, y)),
        CursorQuery::Failed => Err(String::from_str("Failed to get cursor position")),
        CursorQuery::Unsupported => Err(
            String::from_str("Cursor detection only supported on Windows"),
        ),
    }
}

/// The pointer is on the display: inside its area, the right and lower
/// borders left out.
pub open spec fn is_under(display: DisplayDescriptor, cursor: (i32, i32)) -> bool {
    &&& display.x <= cursor.0 < display.x + display.width
    &&& display.y <= cursor.1 < display.y + display.height
}

/// The index of the first display that the pointer is on, and 0 where it
/// is on none.
pub open spec fn monitor_under(displays: Seq<DisplayDescriptor>, cursor: (i32, i32)) -> usize
    decreases displays.len(),
{
    if displays.len() == 0 {
        0
    } else if is_under(displays.first(), cursor) {
        displays.first().index
    } else {
        monitor_under(displays.drop_first(), cursor)
    }
}

/// Finds the display under the pointer among the resolved displays: the
/// first from the left that holds it. A pointer on no display counts as on
/// display 0.
pub fn monitor_at(displays: &Vec<DisplayDescriptor>, cursor: (i32, i32)) -> (index: usize)
    ensures
        index == monitor_under(displays@, cursor),
{
    let mut i: usize = 0;
    assert(displays@.skip(0) =~= displays@);
    while i < displays.len()
        invariant
            i <= displays.len(),
            monitor_under(displays@, cursor) == monitor_under(displays@.skip(i as int), cursor),
        decreases displays.len() - i,
    {
        let d = &displays[i];
        proof {
            assert(displays@.skip(i as int).first() == displays[i as int]);
            assert(displays@.skip(i as int).drop_first() =~= displays@.skip(i + 1));
        }
        let x: i64 = cursor.0 as i64;
        let y: i64 = cursor.1 as i64;
        if x >= d.x as i64 && x < d.x as i64 + d.width as i64 && y >= d.y as i64 && y < d.y as i64
            + d.height as i64 {
            return d.index;
        }
        i = i + 1;
    }
    0
}

/// Finds the display under the pointer among the displays as the platform
/// enumerates them. The result is the display's index in the session, where
/// displays count from left to right.
pub fn detect_monitor_at_cursor(cursor: (i32, i32), monitors: &Vec<RawDisplay>) -> (index: usize)
    ensures
        forall|displays: Seq<DisplayDescriptor>|
            is_resolution(displays, monitors@) ==> index == monitor_under(displays, cursor),
{
    match resolve(monitors) {
        Ok(resolved) => {
            let index = monitor_at(&resolved, cursor);
            proof {
                assert forall|displays: Seq<DisplayDescriptor>|
                    is_resolution(displays, monitors@) implies index == monitor_under(
                    displays,
                    cursor,
                ) by {
                    lemma_resolution_is_unique(monitors@, displays, resolved@);
                }
            }
            index
        },
        Err(_) => {
            proof {
                assert forall|displays: Seq<DisplayDescriptor>|
                    is_resolution(displays, monitors@) implies 0 == monitor_under(
                    displays,
                    cursor,
                ) by {
                    let sources = displays.map_values(|d: DisplayDescriptor| d.source);
                    assert(sources.len() == 0);
                    assert(displays.len() == 0);
                }
            }
            0
        },
    }
}

/// The arguments for an overlay over every display: none.
pub fn launch_screenshot_overlay_all_monitors() -> (args: Vec<String>)
    ensures
        texts_of(args@) == spec_launch_arguments(LaunchMode::AllMonitors),
        args.len() == 0,
{
    launch_arguments(LaunchMode::AllMonitors)
}

/// The arguments for an overlay as it was asked for before a display
/// could be chosen: those for every display.
pub fn launch_screenshot_overlay() -> (args: Vec<String>)
    ensures
        texts_of(args@) == spec_launch_arguments(LaunchMode::AllMonitors),
        args.len() == 0,
{
    launch_screenshot_overlay_all_monitors()
}

/// The arguments for an overlay over the display under the pointer.
/// `cursor` is what the platform answered about the pointer, and
/// `monitors` what it enumerated, or its words on why it could not. Without
/// a pointer position the error is that of `get_cursor_position`; without
/// displays it is the platform's words behind "Failed to get monitors: ".
pub fn launch_screenshot_overlay_active_monitor(
    cursor: CursorQuery,
    monitors: &Result<Vec<RawDisplay>, String>,
) -> (r: Result<Vec<String>, String>)
    ensures
        r is Ok <==> cursor is At && *monitors is Ok,
        r matches Ok(args) ==> forall|displays: Seq<DisplayDescriptor>|
            is_resolution(displays, monitors->Ok_0@) ==> texts_of(args@) == spec_launch_arguments(
                LaunchMode::OnlyMonitor(monitor_under(displays, (cursor->At_0, cursor->At_1))),
            ),
        r matches Err(e) ==> (if cursor is At {
            e@ == "Failed to get monitors: "@ + monitors->Err_0@
        } else {
            spec_cursor_position(cursor) == Err::<(i32, i32), Seq<char>>(e@)
        }),
{
    let position = match get_cursor_position(cursor) {
        Ok(p) => p,
        Err(e) => {
            return Err(e);
        },
    };
    match monitors {
        Ok(enumerated) => {
            let index = detect_monitor_at_cursor(position, enumerated);
            Ok(launch_arguments(LaunchMode::OnlyMonitor(index)))
        },
        Err(words) => {
            let mut e = String::from_str("Failed to get monitors: ");
            e.append(words.as_str());
            Err(e)
        },
    }
}

} // verus!
