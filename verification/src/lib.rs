//! Selection of a screen region across several displays.
//!
//! Every display shows its own overlay window, and every window runs in a
//! process of its own. The processes agree on one selection rectangle, in
//! the coordinates of the virtual desktop, through a shared state record.
//! This crate holds the rules of that agreement:
//!
//! - `topology`: the order and the indices of the displays, and the
//!   rectangle that bounds them;
//! - `capture`: what is done with the pixel buffer that was acquired for a
//!   display, and how a buffer of the whole desktop is cut to the display;
//! - `selection` and `overlay`: the shared state, and what one frame of
//!   input in one window makes of it;
//! - `texture` and `layout`: the size and place of a window, and what it
//!   draws;
//! - `arguments`, `session` and `launch`: how the processes of a session
//!   are started and what they are handed;
//! - `region`: one image of a region that lies on several screens.
//!
//! Nothing here reads a file, opens a window or asks the platform for
//! anything: the callers do, and hand over plain values. All quantities
//! are integers. A scale factor is a fraction of two whole numbers, and
//! what it scales is rounded down.

pub mod arguments;
pub mod capture;
pub mod geometry;
pub mod launch;
pub mod layout;
pub mod overlay;
pub mod region;
pub mod scale;
pub mod selection;
pub mod session;
pub mod texture;
pub mod topology;
