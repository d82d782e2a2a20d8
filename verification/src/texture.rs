//! The size at which a display's image is shown.
//!
//! No side of a texture may be longer than `MAX_TEXTURE_SIZE` pixels. The
//! image of a larger display is shown in a window of the texture's smaller
//! size, placed at a position shrunk by the same ratio, and the stored
//! image is brought to that size before it is shown.

use crate::capture::{resize_fits, Frame};
use crate::geometry::spec_max;
use crate::topology::DisplayDescriptor;
use vstd::prelude::*;

verus! {

/// The longest side, in pixels, that a texture may have.
pub const MAX_TEXTURE_SIZE: u32 = 2048;

/// A size in pixels.
#[derive(Clone, Copy, Debug, PartialEq, Eq, Structural)]
pub struct Size {
    pub width: u32,
    pub height: u32,
}

/// The place and size of a window.
#[derive(Clone, Copy, Debug, PartialEq, Eq, Structural)]
pub struct WindowGeometry {
    pub x: i32,
    pub y: i32,
    pub width: u32,
    pub height: u32,
}

/// `len` shrunk by the ratio that brings `longest` down to
/// `MAX_TEXTURE_SIZE`, rounded down; `len` itself where `longest` is short
/// enough.
pub open spec fn fitted(len: int, longest: int) -> int {
    if longest > MAX_TEXTURE_SIZE {
        len * MAX_TEXTURE_SIZE / longest
    } else {
        len
    }
}

/// The width of the texture for an image of the given size.
pub open spec fn fitted_width(width: int, height: int) -> int {
    fitted(width, spec_max(width, height))
}

/// The height of the texture for an image of the given size.
pub open spec fn fitted_height(width: int, height: int) -> int {
    fitted(height, spec_max(width, height))
}

/// A position shrunk as the side beside it was, from `logical` pixels to
/// `texture` pixels, and rounded towards zero. A side of no length leaves
/// the position as it is.
pub open spec fn shrunk_position(pos: int, texture: int, logical: int) -> int {
    if logical == 0 {
        pos
    } else if pos >= 0 {
        pos * texture / logical
    } else {
        -((-pos) * texture / logical)
    }
}

proof fn lemma_fitted_bounds(len: int, longest: int)
    requires
        0 <= len <= longest,
    ensures
        0 <= fitted(len, longest) <= len,
        fitted(len, longest) <= MAX_TEXTURE_SIZE,
{
    if longest > MAX_TEXTURE_SIZE {
        assert(0 <= len * 2048 / longest <= len && len * 2048 / longest <= 2048)
            by (nonlinear_arith)
            requires
                0 <= len <= longest,
                longest > 2048,
        ;
    }
}

/// Fits an image of `width` by `height` pixels into the largest texture:
/// both sides are shrunk by the ratio that brings the longer one down to
/// `MAX_TEXTURE_SIZE`.
pub fn fit_to_texture(width: u32, height: u32) -> (r: (u32, u32))
    ensures
        r.0 == fitted_width(width as int, height as int),
        r.1 == fitted_height(width as int, height as int),
        r.0 <= MAX_TEXTURE_SIZE,
        r.1 <= MAX_TEXTURE_SIZE,
        r.0 <= width,
        r.1 <= height,
{
    let longest: u32 = if width >= height { width } else { height };
    proof {
        lemma_fitted_bounds(width as int, longest as int);
        lemma_fitted_bounds(height as int, longest as int);
    }
    if longest > MAX_TEXTURE_SIZE {
        let w: u64 = width as u64 * MAX_TEXTURE_SIZE as u64 / longest as u64;
        let h: u64 = height as u64 * MAX_TEXTURE_SIZE as u64 / longest as u64;
        (w as u32, h as u32)
    } else {
        (width, height)
    }
}

/// The size of the texture that shows a display: its logical size, fitted
/// into the largest texture.
pub fn calculate_final_texture_size(monitor: &DisplayDescriptor) -> (r: (u32, u32))
    ensures
        r.0 == fitted_width(monitor.width as int, monitor.height as int),
        r.1 == fitted_height(monitor.width as int, monitor.height as int),
        r.0 <= MAX_TEXTURE_SIZE,
        r.1 <= MAX_TEXTURE_SIZE,
        r.0 <= monitor.width,
        r.1 <= monitor.height,
{
    fit_to_texture(monitor.width, monitor.height)
}

fn shrink_position(pos: i32, texture: u32, logical: u32) -> (r: i32)
    requires
        texture <= logical,
    ensures
        r == shrunk_position(pos as int, texture as int, logical as int),
{
    if logical == 0 {
        pos
    } else if pos >= 0 {
        assert(0 <= pos * texture / (logical as int) <= pos) by (nonlinear_arith)
            requires
                0 <= pos,
                0 <= texture <= logical,
                logical > 0,
        ;
        assert(pos * texture <= 0x7FFF_FFFF * 0xFFFF_FFFF) by (nonlinear_arith)
            requires
                0 <= pos <= 0x7FFF_FFFF,
                0 <= texture <= 0xFFFF_FFFF,
        ;
        (pos as u64 * texture as u64 / logical as u64) as i32
    } else {
        let back: u64 = (-(pos as i64)) as u64;
        assert(0 <= back * texture / (logical as int) <= back) by (nonlinear_arith)
            requires
                0 <= back,
                0 <= texture <= logical,
                logical > 0,
        ;
        assert(back * texture <= 0x8000_0000 * 0xFFFF_FFFF) by (nonlinear_arith)
            requires
                0 <= back <= 0x8000_0000,
                0 <= texture <= 0xFFFF_FFFF,
        ;
        let shrunk: u64 = back * texture as u64 / logical as u64;
        (-(shrunk as i64)) as i32
    }
}

/// Where the window of a display is placed and how large it is: as large
/// as the display's texture, at the display's origin shrunk as its sides
/// were.
pub open spec fn spec_window_geometry(monitor: DisplayDescriptor) -> WindowGeometry {
    let w = fitted_width(monitor.width as int, monitor.height as int);
    let h = fitted_height(monitor.width as int, monitor.height as int);
    WindowGeometry {
        x: shrunk_position(monitor.x as int, w, monitor.width as int) as i32,
        y: shrunk_position(monitor.y as int, h, monitor.height as int) as i32,
        width: w as u32,
        height: h as u32,
    }
}

/// The place and size of the window that shows `monitor`.
pub fn window_geometry(monitor: &DisplayDescriptor) -> (g: WindowGeometry)
    ensures
        g == spec_window_geometry(*monitor),
        g.width <= MAX_TEXTURE_SIZE,
        g.height <= MAX_TEXTURE_SIZE,
{
    let (width, height) = calculate_final_texture_size(monitor);
    WindowGeometry {
        x: shrink_position(monitor.x, width, monitor.width),
        y: shrink_position(monitor.y, height, monitor.height),
        width,
        height,
    }
}

/// A display that is small enough is shown at its own size and place.
pub proof fn lemma_small_display_keeps_geometry(monitor: DisplayDescriptor)
    requires
        monitor.width <= MAX_TEXTURE_SIZE,
        monitor.height <= MAX_TEXTURE_SIZE,
    ensures
        spec_window_geometry(monitor) == (WindowGeometry {
            x: monitor.x,
            y: monitor.y,
            width: monitor.width,
            height: monitor.height,
        }),
{
    let w = monitor.width as int;
    let h = monitor.height as int;
    let x = monitor.x as int;
    let y = monitor.y as int;
    if w > 0 {
        assert(x >= 0 ==> x * w / w == x) by (nonlinear_arith)
            requires
                w > 0,
        ;
        assert(x < 0 ==> (-x) * w / w == -x) by (nonlinear_arith)
            requires
                w > 0,
        ;
    }
    if h > 0 {
        assert(y >= 0 ==> y * h / h == y) by (nonlinear_arith)
            requires
                h > 0,
        ;
        assert(y < 0 ==> (-y) * h / h == -y) by (nonlinear_arith)
            requires
                h > 0,
        ;
    }
}

/// How the image of a display is brought to the size of its texture:
/// each step that is there asks for a resize to the size it holds.
#[derive(Clone, Copy, Debug, PartialEq, Eq, Structural)]
pub struct TexturePlan {
    /// Where a side of the image is longer than a texture may be: the size
    /// of the image fitted into the largest texture.
    pub fit: Option<Size>,
    /// Where the image is then not of the texture's size: that size.
    pub finish: Option<Size>,
}

/// The steps that bring an image of `width` by `height` pixels to the
/// texture of `monitor`.
pub open spec fn spec_texture_plan(monitor: DisplayDescriptor, width: u32, height: u32) -> TexturePlan {
    let too_large = width > MAX_TEXTURE_SIZE || height > MAX_TEXTURE_SIZE;
    let w = if too_large { fitted_width(width as int, height as int) } else { width as int };
    let h = if too_large { fitted_height(width as int, height as int) } else { height as int };
    let final_w = fitted_width(monitor.width as int, monitor.height as int);
    let final_h = fitted_height(monitor.width as int, monitor.height as int);
    TexturePlan {
        fit: if too_large {
            Some(Size { width: w as u32, height: h as u32 })
        } else {
            None
        },
        finish: if w != final_w || h != final_h {
            Some(Size { width: final_w as u32, height: final_h as u32 })
        } else {
            None
        },
    }
}

impl TexturePlan {
    /// The size of an image of `width` by `height` pixels after the steps
    /// of the plan.
    pub open spec fn size_after(self, width: u32, height: u32) -> Size {
        match self.finish {
            Some(size) => size,
            None => match self.fit {
                Some(size) => size,
                None => Size { width, height },
            },
        }
    }
}

/// Plans how the image of `monitor`, `width` by `height` pixels as it was
/// stored, becomes the texture of the monitor's window. After the plan the
/// image has the size of that texture, whatever size it had.
pub fn plan_texture(monitor: &DisplayDescriptor, width: u32, height: u32) -> (plan: TexturePlan)
    ensures
        plan == spec_texture_plan(*monitor, width, height),
        plan.size_after(width, height).width == fitted_width(
            monitor.width as int,
            monitor.height as int,
        ),
        plan.size_after(width, height).height == fitted_height(
            monitor.width as int,
            monitor.height as int,
        ),
        plan.size_after(width, height).width <= MAX_TEXTURE_SIZE,
        plan.size_after(width, height).height <= MAX_TEXTURE_SIZE,
{
    let mut current: (u32, u32) = (width, height);
    let mut fit: Option<Size> = None;
    if width > MAX_TEXTURE_SIZE || height > MAX_TEXTURE_SIZE {
        current = fit_to_texture(width, height);
        fit = Some(Size { width: current.0, height: current.1 });
    }
    let target: (u32, u32) = calculate_final_texture_size(monitor);
    let finish: Option<Size> = if current.0 != target.0 || current.1 != target.1 {
        Some(Size { width: target.0, height: target.1 })
    } else {
        None
    };
    TexturePlan { fit, finish }
}

impl TexturePlan {
    /// The size of an image of `width` by `height` pixels after the first
    /// step of the plan.
    pub open spec fn size_between(self, width: u32, height: u32) -> Size {
        match self.fit {
            Some(size) => size,
            None => Size { width, height },
        }
    }

    /// Whether every step of the plan for an image of `width` by `height`
    /// pixels is a resize that can be made.
    pub open spec fn feasible(self, width: u32, height: u32) -> bool {
        &&& self.fit matches Some(size) ==> resize_fits(width, height, size.width, size.height)
        &&& self.finish matches Some(size) ==> resize_fits(
            self.size_between(width, height).width,
            self.size_between(width, height).height,
            size.width,
            size.height,
        )
    }
}

/// Brings the stored image of `monitor` to the size of the monitor's
/// texture, by the steps of `plan_texture`. An image that has that size
/// already is handed back as it is. Where a step is a resize that cannot
/// be made (the image is too large) there is no texture.
pub fn prepare_texture(monitor: &DisplayDescriptor, image: Frame) -> (r: Option<Frame>)
    ensures
        r is Some <==> spec_texture_plan(*monitor, image@.width, image@.height).feasible(
            image@.width,
            image@.height,
        ),
        r matches Some(texture) ==> texture@.width == fitted_width(
            monitor.width as int,
            monitor.height as int,
        ) && texture@.height == fitted_height(monitor.width as int, monitor.height as int),
        r matches Some(texture) ==> texture@.width <= MAX_TEXTURE_SIZE && texture@.height
            <= MAX_TEXTURE_SIZE,
        r matches Some(texture) ==> spec_texture_plan(*monitor, image@.width, image@.height)
            == (TexturePlan { fit: None, finish: None }) ==> texture@ == image@,
{
    let plan = plan_texture(monitor, image.width(), image.height());
    let fitted: Frame = match plan.fit {
        Some(size) => match image.resized(size.width, size.height) {
            Some(smaller) => smaller,
            None => {
                return None;
            },
        },
        None => image,
    };
    match plan.finish {
        Some(size) => fitted.resized(size.width, size.height),
        None => Some(fitted),
    }
}

} // verus!
