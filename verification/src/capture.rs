//! What becomes of the pixel buffer that was acquired for a display.
//!
//! A backend may hand back a buffer of the whole virtual desktop where the
//! buffer of one display was asked for. Such a buffer is much larger than
//! the display; the display's part is then cut out of it, at the scale of
//! the virtual desktop.

use crate::scale::DpiScale;
use crate::topology::{spec_virtual_desktop_scale, virtual_desktop_scale, DisplayDescriptor};
use vstd::prelude::*;

verus! {

/// A rectangle of pixels inside a buffer.
#[derive(Clone, Copy, Debug, PartialEq, Eq, Structural)]
pub struct CropRect {
    pub x: u32,
    pub y: u32,
    pub width: u32,
    pub height: u32,
}

/// What a frame holds: its size in pixels and its bytes, row after row,
/// four to a pixel.
pub struct FrameView {
    pub width: u32,
    pub height: u32,
    pub data: Seq<u8>,
}

/// A pixel buffer. It always holds `width * height * 4` bytes.
#[derive(Debug)]
pub struct Frame {
    width: u32,
    height: u32,
    data: Vec<u8>,
}

impl View for Frame {
    type V = FrameView;

    closed spec fn view(&self) -> FrameView {
        FrameView { width: self.width, height: self.height, data: self.data@ }
    }
}

impl FrameView {
    /// Channel `c` of the pixel in column `x` of row `y`.
    pub open spec fn channel(self, x: int, y: int, c: int) -> u8 {
        self.data[(y * self.width + x) * 4 + c]
    }
}

/// The bytes of the part of a buffer `width` pixels wide that starts at
/// column `x` and row `y` and is `w` pixels wide and `h` high.
pub open spec fn sub_region(data: Seq<u8>, width: int, x: int, y: int, w: int, h: int) -> Seq<u8> {
    Seq::new(
        (w * h * 4) as nat,
        |k: int| data[((y + (k / 4) / w) * width + x + (k / 4) % w) * 4 + k % 4],
    )
}

/// The part of `src` that lies in `rect`, as a frame of its own.
pub open spec fn cropped(src: FrameView, rect: CropRect) -> FrameView {
    FrameView {
        width: rect.width,
        height: rect.height,
        data: sub_region(
            src.data,
            src.width as int,
            rect.x as int,
            rect.y as int,
            rect.width as int,
            rect.height as int,
        ),
    }
}

/// Whether `rect` lies wholly inside a buffer of the given size.
pub open spec fn fits(rect: CropRect, width: int, height: int) -> bool {
    rect.x + rect.width <= width && rect.y + rect.height <= height
}

/// Cuts a rectangle out of an RGBA buffer with `image::imageops::crop_imm`
/// and `SubImage::to_image`, after `ImageBuffer::from_raw` has taken a copy
/// of the bytes. For a rectangle inside the buffer the crate copies, for
/// every pixel of the rectangle, the source pixel at the same offset from
/// the rectangle's corner; the result holds exactly those pixels. The
/// crate counts the bytes of one row before it counts the rows, so the
/// buffer must have a row: with one, the bytes of a row are no more than
/// the bytes at hand.
#[verifier::external_body]
fn crop_rgba(data: &Vec<u8>, width: u32, height: u32, rect: CropRect) -> (out: Vec<u8>)
    requires
        data.len() == width * height * 4,
        height > 0,
        fits(rect, width as int, height as int),
    ensures
        out@ == sub_region(
            data@,
            width as int,
            rect.x as int,
            rect.y as int,
            rect.width as int,
            rect.height as int,
        ),
{
    let source = image::RgbaImage::from_raw(width, height, data.clone()).unwrap();
    image::imageops::crop_imm(&source, rect.x, rect.y, rect.width, rect.height).to_image().into_raw()
}

/// The longest side, in pixels, that a buffer may have before or after a
/// resize. Up to here the 32-bit floating-point numbers in which the
/// samples of a resize are placed are exact to a fraction of a pixel;
/// far beyond, a sample can miss its source altogether.
pub const MAX_RESIZE_SIDE: u32 = 1_048_576;

/// Whether a buffer of `width` by `height` pixels can be brought to
/// `new_width` by `new_height` pixels: no side is longer than
/// `MAX_RESIZE_SIDE`, and neither the result nor the rows of numbers that
/// are summed up on the way outgrow what the machine can address.
pub open spec fn resize_fits(width: u32, height: u32, new_width: u32, new_height: u32) -> bool {
    &&& width <= MAX_RESIZE_SIDE
    &&& height <= MAX_RESIZE_SIDE
    &&& new_width <= MAX_RESIZE_SIDE
    &&& new_height <= MAX_RESIZE_SIDE
    &&& 16 * (width * new_height) <= isize::MAX
    &&& 4 * (new_width * new_height) <= isize::MAX
}

/// The bytes are all 0.
pub open spec fn is_blank(data: Seq<u8>) -> bool {
    forall|k: int| 0 <= k < data.len() ==> #[trigger] data[k] == 0
}

/// Resizes an RGBA buffer with `image::imageops::resize` and its
/// `Lanczos3` filter, after `ImageBuffer::from_raw` has taken a copy of the
/// bytes. The crate hands back an image of the size that was asked for:
/// a blank image where the source is empty, a copy where the size asked
/// for is that of the source, and otherwise an image that it allocates
/// with that size. On the way it allocates `width * new_height` pixels of
/// four 32-bit numbers each. Of the pixels of a true resize nothing is
/// claimed: they are rounded sums of floating-point products. The crate
/// places its samples in 32-bit floating point, and stops with a panic
/// where a row of samples misses the source; the sides are kept short
/// enough for that arithmetic to stay exact to a fraction of a pixel.
#[verifier::external_body]
fn resize_rgba(data: &Vec<u8>, width: u32, height: u32, new_width: u32, new_height: u32) -> (out: Vec<
    u8,
>)
    requires
        data.len() == width * height * 4,
        resize_fits(width, height, new_width, new_height),
    ensures
        out@.len() == 4 * (new_width * new_height),
        width == 0 || height == 0 ==> is_blank(out@),
        width > 0 && height > 0 && new_width == width && new_height == height ==> out@ == data@,
{
    let source = image::RgbaImage::from_raw(width, height, data.clone()).unwrap();
    let filter = image::imageops::FilterType::Lanczos3;
    image::imageops::resize(&source, new_width, new_height, filter).into_raw()
}

impl Frame {
    #[verifier::type_invariant]
    spec fn well_formed(self) -> bool {
        self.data.len() == self.width * self.height * 4
    }

    /// A frame of the given size over the given bytes, if they are as many
    /// as the size asks for.
    pub fn new(width: u32, height: u32, data: Vec<u8>) -> (r: Option<Frame>)
        ensures
            r is Some <==> data.len() == width * height * 4,
            r matches Some(f) ==> f@ == (FrameView { width, height, data: data@ }),
    {
        assert(width * height <= 0xFFFF_FFFF * 0xFFFF_FFFF) by (nonlinear_arith)
            requires
                0 <= width <= 0xFFFF_FFFF,
                0 <= height <= 0xFFFF_FFFF,
        ;
        let wanted: u128 = (width as u128 * height as u128) * 4;
        if data.len() as u128 == wanted {
            Some(Frame { width, height, data })
        } else {
            None
        }
    }

    /// A frame over bytes that are known to be as many as the size asks
    /// for.
    pub(crate) fn assemble(width: u32, height: u32, data: Vec<u8>) -> (f: Frame)
        requires
            data.len() == width * height * 4,
        ensures
            f@ == (FrameView { width, height, data: data@ }),
    {
        Frame { width, height, data }
    }

    pub fn width(&self) -> (w: u32)
        ensures
            w == self@.width,
    {
        self.width
    }

    pub fn height(&self) -> (h: u32)
        ensures
            h == self@.height,
    {
        self.height
    }

    /// The bytes of the frame.
    pub fn data(&self) -> (d: &Vec<u8>)
        ensures
            d@ == self@.data,
            d@.len() == self@.width * self@.height * 4,
    {
        proof {
            use_type_invariant(self);
        }
        &self.data
    }

    /// Whether `rect` lies wholly inside the frame.
    pub fn holds(&self, rect: CropRect) -> (b: bool)
        ensures
            b == fits(rect, self@.width as int, self@.height as int),
    {
        rect.x as u64 + rect.width as u64 <= self.width as u64 && rect.y as u64
            + rect.height as u64 <= self.height as u64
    }

    /// The part of the frame that lies in `rect`, a rectangle inside the
    /// frame.
    pub(crate) fn cut(&self, rect: CropRect) -> (f: Frame)
        requires
            fits(rect, self@.width as int, self@.height as int),
        ensures
            f@ == cropped(self@, rect),
    {
        proof {
            use_type_invariant(self);
        }
        if self.height == 0 {
            // A frame without rows has no pixel to copy: the part is as
            // empty as the frame.
            assert(rect.width * rect.height == 0 && self.width * self.height == 0)
                by (nonlinear_arith)
                requires
                    rect.height == 0,
                    self.height == 0,
            ;
            let data: Vec<u8> = Vec::new();
            assert(data@ =~= cropped(self@, rect).data);
            return Frame { width: rect.width, height: rect.height, data };
        }
        let data = crop_rgba(&self.data, self.width, self.height, rect);
        Frame { width: rect.width, height: rect.height, data }
    }

    /// The frame brought to `new_width` by `new_height` pixels, or nothing
    /// where a side is longer than `MAX_RESIZE_SIDE` or the size is beyond
    /// the machine. A frame that has the size already comes back as it is,
    /// and an empty frame comes back blank.
    pub fn resized(&self, new_width: u32, new_height: u32) -> (r: Option<Frame>)
        ensures
            r is Some <==> resize_fits(self@.width, self@.height, new_width, new_height),
            r matches Some(f) ==> f@.width == new_width && f@.height == new_height
                && f@.data.len() == new_width * new_height * 4,
            r matches Some(f) ==> new_width == self@.width && new_height == self@.height ==> f@
                == self@,
            r matches Some(f) ==> self@.width == 0 || self@.height == 0 ==> is_blank(f@.data),
    {
        proof {
            use_type_invariant(self);
        }
        if self.width > MAX_RESIZE_SIDE || self.height > MAX_RESIZE_SIDE || new_width
            > MAX_RESIZE_SIDE || new_height > MAX_RESIZE_SIDE {
            return None;
        }
        assert(self.width * new_height <= 0xFFFF_FFFF * 0xFFFF_FFFF && new_width * new_height
            <= 0xFFFF_FFFF * 0xFFFF_FFFF) by (nonlinear_arith)
            requires
                0 <= self.width <= 0xFFFF_FFFF,
                0 <= new_width <= 0xFFFF_FFFF,
                0 <= new_height <= 0xFFFF_FFFF,
        ;
        assert(4 * (new_width * new_height) == new_width * new_height * 4) by (nonlinear_arith);
        let rows: u128 = 16 * (self.width as u128 * new_height as u128);
        let result: u128 = 4 * (new_width as u128 * new_height as u128);
        if rows <= isize::MAX as u128 && result <= isize::MAX as u128 {
            let data = resize_rgba(&self.data, self.width, self.height, new_width, new_height);
            proof {
                if new_width == self.width && new_height == self.height {
                    if self.width == 0 || self.height == 0 {
                        assert(self.width * self.height == 0) by (nonlinear_arith)
                            requires
                                self.width == 0 || self.height == 0,
                        ;
                        assert(data@ =~= self.data@);
                    }
                }
            }
            Some(Frame { width: new_width, height: new_height, data })
        } else {
            None
        }
    }

    /// The part of the frame that lies in `rect`, or nothing where `rect`
    /// reaches beyond the frame.
    pub fn crop(&self, rect: CropRect) -> (r: Option<Frame>)
        ensures
            r is Some <==> fits(rect, self@.width as int, self@.height as int),
            r matches Some(f) ==> f@ == cropped(self@, rect),
    {
        if self.holds(rect) {
            Some(self.cut(rect))
        } else {
            None
        }
    }
}


/// Where a display lies in a buffer of the whole virtual desktop. The
/// corner may lie left of or above the buffer, and the part may be larger
/// than any buffer.
#[derive(Clone, Copy, Debug, PartialEq, Eq, Structural)]
pub struct DesktopPart {
    pub x: i64,
    pub y: i64,
    pub width: u64,
    pub height: u64,
}

/// What is to be done with the buffer that was acquired for a display.
#[derive(Clone, Copy, Debug, PartialEq, Eq, Structural)]
pub enum CapturePlan {
    /// The buffer shows the display alone: it is kept as it is.
    Direct,
    /// The buffer shows the whole virtual desktop: the display's part is
    /// cut out of it.
    Crop(CropRect),
    /// The buffer is too large for the display, but the display's part
    /// does not lie wholly inside it: the buffer is kept as it is, and the
    /// mismatch is to be reported.
    Fallback(DesktopPart),
}

/// `actual` is more than 1.1 times `expected`.
pub open spec fn exceeds_by_tenth(actual: int, expected: int) -> bool {
    10 * actual > 11 * expected
}

/// `actual` differs from `expected` by no more than a tenth of `expected`.
pub open spec fn within_tenth(actual: int, expected: int) -> bool {
    10 * (actual - expected) <= expected && 10 * (expected - actual) <= expected
}

/// The width of the display in physical pixels.
pub open spec fn expected_width(display: DisplayDescriptor) -> int {
    display.scale.spec_scaled(display.width as int)
}

/// The height of the display in physical pixels.
pub open spec fn expected_height(display: DisplayDescriptor) -> int {
    display.scale.spec_scaled(display.height as int)
}

/// A buffer of this size is taken for one of the whole virtual desktop:
/// it is more than 1.1 times as wide, or as high, as the display.
pub open spec fn is_desktop_capture(display: DisplayDescriptor, width: int, height: int) -> bool {
    exceeds_by_tenth(width, expected_width(display)) || exceeds_by_tenth(
        height,
        expected_height(display),
    )
}

/// Where the display lies in a buffer of the whole virtual desktop that
/// was drawn at the scale `desktop`: its origin and its size, each times
/// that scale.
pub open spec fn desktop_part(display: DisplayDescriptor, desktop: DpiScale) -> DesktopPart {
    DesktopPart {
        x: desktop.spec_scaled_position(display.x as int) as i64,
        y: desktop.spec_scaled_position(display.y as int) as i64,
        width: desktop.spec_scaled(display.width as int) as u64,
        height: desktop.spec_scaled(display.height as int) as u64,
    }
}

/// Whether the part lies wholly inside a buffer of the given size.
pub open spec fn part_fits(part: DesktopPart, width: int, height: int) -> bool {
    &&& 0 <= part.x
    &&& 0 <= part.y
    &&& part.x + part.width <= width
    &&& part.y + part.height <= height
}

/// The part as a rectangle of pixels. It is the same rectangle where the
/// part lies inside a buffer.
pub open spec fn as_crop(part: DesktopPart) -> CropRect {
    CropRect {
        x: part.x as u32,
        y: part.y as u32,
        width: part.width as u32,
        height: part.height as u32,
    }
}

/// The plan for a buffer of `width` by `height` pixels.
pub open spec fn spec_plan(
    display: DisplayDescriptor,
    desktop: DpiScale,
    width: int,
    height: int,
) -> CapturePlan {
    if !is_desktop_capture(display, width, height) {
        CapturePlan::Direct
    } else if part_fits(desktop_part(display, desktop), width, height) {
        CapturePlan::Crop(as_crop(desktop_part(display, desktop)))
    } else {
        CapturePlan::Fallback(desktop_part(display, desktop))
    }
}

/// Decides what to do with a buffer of `width` by `height` pixels that was
/// acquired for `display`, where `desktop` is the scale of the virtual
/// desktop.
pub fn plan_capture(display: &DisplayDescriptor, desktop: DpiScale, width: u32, height: u32) -> (plan:
    CapturePlan)
    ensures
        plan == spec_plan(*display, desktop, width as int, height as int),
        plan matches CapturePlan::Crop(rect) ==> fits(rect, width as int, height as int),
{
    let expected_w: u64 = display.scale.scaled(display.width);
    let expected_h: u64 = display.scale.scaled(display.height);
    let wide: bool = 10 * (width as u128) > 11 * (expected_w as u128);
    let high: bool = 10 * (height as u128) > 11 * (expected_h as u128);
    if !(wide || high) {
        return CapturePlan::Direct;
    }
    let part = DesktopPart {
        x: desktop.scaled_position(display.x),
        y: desktop.scaled_position(display.y),
        width: desktop.scaled(display.width),
        height: desktop.scaled(display.height),
    };
    if part.x >= 0 && part.y >= 0 && part.x as i128 + part.width as i128 <= width as i128
        && part.y as i128 + part.height as i128 <= height as i128 {
        CapturePlan::Crop(
            CropRect {
                x: part.x as u32,
                y: part.y as u32,
                width: part.width as u32,
                height: part.height as u32,
            },
        )
    } else {
        CapturePlan::Fallback(part)
    }
}

/// What was done with the buffer that was acquired for a display.
#[derive(Debug)]
pub enum CaptureOutcome {
    /// The buffer is the display's image.
    Direct,
    /// The display's image was cut out of the buffer at `rect`. The buffer
    /// itself is kept beside it for diagnosis.
    Cropped { rect: CropRect, image: Frame },
    /// The buffer is the display's image for want of a better one: `part`
    /// does not lie wholly inside it. The buffer is kept for diagnosis
    /// too.
    Fallback { part: DesktopPart },
}

/// The outcome is the one that the plan for the buffer asks for.
pub open spec fn carries_out(outcome: CaptureOutcome, plan: CapturePlan, buffer: FrameView) -> bool {
    match plan {
        CapturePlan::Direct => outcome is Direct,
        CapturePlan::Crop(rect) => outcome matches CaptureOutcome::Cropped { rect: r, image }
            && r == rect && image@ == cropped(buffer, rect),
        CapturePlan::Fallback(part) => outcome matches CaptureOutcome::Fallback { part: p } && p
            == part,
    }
}

/// The image that is stored for the display.
pub open spec fn artifact(outcome: CaptureOutcome, buffer: FrameView) -> FrameView {
    match outcome {
        CaptureOutcome::Cropped { rect, image } => image@,
        _ => buffer,
    }
}

impl CaptureOutcome {
    /// Whether the buffer was taken for one of the whole virtual desktop.
    /// Such a buffer is stored for diagnosis beside the display's image.
    pub fn keeps_raw(&self) -> (b: bool)
        ensures
            b == !(*self is Direct),
    {
        match self {
            CaptureOutcome::Direct => false,
            _ => true,
        }
    }

    /// The image that is stored for the display: what was cut out of
    /// `buffer`, or `buffer` itself where nothing was.
    pub fn image<'a>(&'a self, buffer: &'a Frame) -> (image: &'a Frame)
        ensures
            image@ == artifact(*self, buffer@),
    {
        match self {
            CaptureOutcome::Cropped { rect, image } => image,
            _ => buffer,
        }
    }
}

/// Carries out the plan for `buffer`, the pixels acquired for `display`.
pub fn process_capture(display: &DisplayDescriptor, desktop: DpiScale, buffer: &Frame) -> (outcome:
    CaptureOutcome)
    ensures
        carries_out(
            outcome,
            spec_plan(*display, desktop, buffer@.width as int, buffer@.height as int),
            buffer@,
        ),
{
    match plan_capture(display, desktop, buffer.width(), buffer.height()) {
        CapturePlan::Direct => CaptureOutcome::Direct,
        CapturePlan::Fallback(part) => CaptureOutcome::Fallback { part },
        CapturePlan::Crop(rect) => CaptureOutcome::Cropped { rect, image: buffer.cut(rect) },
    }
}

/// A buffer whose size is within a tenth of the display's physical size is
/// kept as it is: the stored image is the buffer, at the size at which it
/// was acquired.
pub proof fn lemma_matching_size_is_kept(
    display: DisplayDescriptor,
    desktop: DpiScale,
    buffer: FrameView,
    outcome: CaptureOutcome,
)
    requires
        within_tenth(buffer.width as int, expected_width(display)),
        within_tenth(buffer.height as int, expected_height(display)),
        carries_out(
            outcome,
            spec_plan(display, desktop, buffer.width as int, buffer.height as int),
            buffer,
        ),
    ensures
        spec_plan(display, desktop, buffer.width as int, buffer.height as int)
            == CapturePlan::Direct,
        outcome is Direct,
        artifact(outcome, buffer) == buffer,
{
}

/// Byte `c` of pixel (`i`, `j`) of a part is byte `c` of the pixel that
/// lies `i` columns and `j` rows from the part's corner in the buffer.
pub proof fn lemma_cropped_channel(src: FrameView, rect: CropRect, i: int, j: int, c: int)
    requires
        0 <= i < rect.width,
        0 <= j < rect.height,
        0 <= c < 4,
    ensures
        0 <= (j * rect.width + i) * 4 + c < cropped(src, rect).data.len(),
        cropped(src, rect).channel(i, j, c) == src.channel(rect.x + i, rect.y + j, c),
{
    let w = rect.width as int;
    let h = rect.height as int;
    let p = j * w + i;
    let k = p * 4 + c;
    assert(0 <= j * w <= (h - 1) * w) by (nonlinear_arith)
        requires
            0 <= j <= h - 1,
            0 <= w,
    ;
    assert((h - 1) * w == h * w - w && h * w == w * h) by (nonlinear_arith);
    assert(0 <= p < w * h);
    assert(0 <= k < w * h * 4);
    assert(k / 4 == p && k % 4 == c);
    vstd::arithmetic::div_mod::lemma_fundamental_div_mod_converse(p, w, j, i);
}

/// A buffer of the whole virtual desktop is cut to the display: the
/// stored image has the display's size at the scale of the desktop, and
/// shows what the buffer shows at the display's place at that scale.
pub proof fn lemma_desktop_capture_is_cut_to_display(
    display: DisplayDescriptor,
    desktop: DpiScale,
    buffer: FrameView,
    outcome: CaptureOutcome,
)
    requires
        is_desktop_capture(display, buffer.width as int, buffer.height as int),
        part_fits(desktop_part(display, desktop), buffer.width as int, buffer.height as int),
        carries_out(
            outcome,
            spec_plan(display, desktop, buffer.width as int, buffer.height as int),
            buffer,
        ),
    ensures
        artifact(outcome, buffer).width == desktop.spec_scaled(display.width as int),
        artifact(outcome, buffer).height == desktop.spec_scaled(display.height as int),
        forall|i: int, j: int, c: int|
            0 <= i < artifact(outcome, buffer).width && 0 <= j < artifact(outcome, buffer).height
                && 0 <= c < 4 ==> #[trigger] artifact(outcome, buffer).channel(i, j, c)
                == buffer.channel(
                desktop.spec_scaled_position(display.x as int) + i,
                desktop.spec_scaled_position(display.y as int) + j,
                c,
            ),
{
    desktop.lemma_scaled_in_range(display.width, display.x);
    desktop.lemma_scaled_in_range(display.height, display.y);
    let rect = as_crop(desktop_part(display, desktop));
    assert forall|i: int, j: int, c: int|
        0 <= i < artifact(outcome, buffer).width && 0 <= j < artifact(outcome, buffer).height && 0
            <= c < 4 implies #[trigger] artifact(outcome, buffer).channel(i, j, c)
        == buffer.channel(
        desktop.spec_scaled_position(display.x as int) + i,
        desktop.spec_scaled_position(display.y as int) + j,
        c,
    ) by {
        lemma_cropped_channel(buffer, rect, i, j, c);
    }
}

/// A display that begins left of or above the origin of a scaled desktop
/// is never cut out of a buffer: its part does not lie inside any.
pub proof fn lemma_part_beyond_origin_is_kept_whole(
    display: DisplayDescriptor,
    desktop: DpiScale,
    width: int,
    height: int,
)
    requires
        display.x < 0 || display.y < 0,
        desktop.numerator > 0,
        desktop.denominator > 0,
    ensures
        !part_fits(desktop_part(display, desktop), width, height),
        !(spec_plan(display, desktop, width, height) is Crop),
{
    desktop.lemma_scaled_in_range(display.width, display.x);
    desktop.lemma_scaled_in_range(display.height, display.y);
    let n = desktop.numerator as int;
    let d = desktop.denominator as int;
    if display.x < 0 {
        let m = (-display.x) * n;
        assert(m >= 1 && (m + d - 1) / d >= 1) by (nonlinear_arith)
            requires
                m == (-display.x) * n,
                display.x < 0,
                n > 0,
                d > 0,
        ;
    } else {
        let m = (-display.y) * n;
        assert(m >= 1 && (m + d - 1) / d >= 1) by (nonlinear_arith)
            requires
                m == (-display.y) * n,
                display.y < 0,
                n > 0,
                d > 0,
        ;
    }
}

/// A display and what the backend handed back when its pixels were asked
/// for: a buffer, or nothing where the backend failed.
#[derive(Debug)]
pub struct Acquisition {
    pub display: DisplayDescriptor,
    pub buffer: Option<Frame>,
}

/// A display whose pixels were acquired. `slot` is the place of its
/// acquisition in the list that was handed in.
#[derive(Debug)]
pub struct CapturedMonitor {
    pub display: DisplayDescriptor,
    pub slot: usize,
    pub outcome: CaptureOutcome,
}

/// The displays that pixels were asked for, in their order.
pub open spec fn displays_of(acquisitions: Seq<Acquisition>) -> Seq<DisplayDescriptor> {
    Seq::new(acquisitions.len(), |i: int| acquisitions[i].display)
}

/// Some captured monitor stands for the acquisition at place `i`.
pub open spec fn captured_at(captured: Seq<CapturedMonitor>, i: int) -> bool {
    exists|k: int| 0 <= k < captured.len() && (#[trigger] captured[k]).slot == i
}

/// `captured` holds, in the order of the acquisitions, one monitor for
/// each acquisition that brought a buffer and none for the others, each
/// with the outcome that the plan for its buffer asks for. The scale of the
/// virtual desktop is taken from all displays, acquired or not.
pub open spec fn is_capture_of(captured: Seq<CapturedMonitor>, acquisitions: Seq<Acquisition>) -> bool {
    &&& forall|k: int|
        0 <= k < captured.len() ==> {
            let m = #[trigger] captured[k];
            &&& 0 <= m.slot < acquisitions.len()
            &&& acquisitions[m.slot as int].buffer is Some
            &&& m.display == acquisitions[m.slot as int].display
            &&& carries_out(
                m.outcome,
                spec_plan(
                    m.display,
                    spec_virtual_desktop_scale(displays_of(acquisitions)),
                    acquisitions[m.slot as int].buffer->0@.width as int,
                    acquisitions[m.slot as int].buffer->0@.height as int,
                ),
                acquisitions[m.slot as int].buffer->0@,
            )
        }
    &&& forall|j: int, k: int|
        0 <= j < k < captured.len() ==> (#[trigger] captured[j]).slot < (#[trigger] captured[k]).slot
    &&& forall|i: int|
        0 <= i < acquisitions.len() && acquisitions[i].buffer is Some ==> #[trigger] captured_at(
            captured,
            i,
        )
}

/// Goes through the acquisitions of a session. A display whose
/// acquisition failed is left out; for every other display the plan for its
/// buffer is carried out.
pub fn capture_all_monitors(acquisitions: &Vec<Acquisition>) -> (captured: Vec<CapturedMonitor>)
    ensures
        is_capture_of(captured@, acquisitions@),
        captured.len() <= acquisitions.len(),
{
    let mut displays: Vec<DisplayDescriptor> = Vec::new();
    let mut n: usize = 0;
    while n < acquisitions.len()
        invariant
            n <= acquisitions.len(),
            displays.len() == n,
            forall|i: int| 0 <= i < n ==> displays[i] == acquisitions[i].display,
        decreases acquisitions.len() - n,
    {
        displays.push(acquisitions[n].display);
        n = n + 1;
    }
    assert(displays@ =~= displays_of(acquisitions@));
    let desktop = virtual_desktop_scale(&displays);
    let mut captured: Vec<CapturedMonitor> = Vec::new();
    let mut i: usize = 0;
    while i < acquisitions.len()
        invariant
            i <= acquisitions.len(),
            captured.len() <= i,
            desktop == spec_virtual_desktop_scale(displays_of(acquisitions@)),
            forall|k: int|
                0 <= k < captured.len() ==> {
                    let m = #[trigger] captured[k];
                    &&& 0 <= m.slot < i
                    &&& acquisitions[m.slot as int].buffer is Some
                    &&& m.display == acquisitions[m.slot as int].display
                    &&& carries_out(
                        m.outcome,
                        spec_plan(
                            m.display,
                            desktop,
                            acquisitions[m.slot as int].buffer->0@.width as int,
                            acquisitions[m.slot as int].buffer->0@.height as int,
                        ),
                        acquisitions[m.slot as int].buffer->0@,
                    )
                },
            forall|j: int, k: int|
                0 <= j < k < captured.len() ==> (#[trigger] captured[j]).slot < (
                #[trigger] captured[k]).slot,
            forall|s: int|
                0 <= s < i && acquisitions[s].buffer is Some ==> #[trigger] captured_at(
                    captured@,
                    s,
                ),
        decreases acquisitions.len() - i,
    {
        let acquisition = &acquisitions[i];
        match &acquisition.buffer {
            Some(buffer) => {
                let outcome = process_capture(&acquisition.display, desktop, buffer);
                let ghost before = captured@;
                captured.push(CapturedMonitor { display: acquisition.display, slot: i, outcome });
                proof {
                    assert forall|s: int|
                        0 <= s < i + 1 && acquisitions[s].buffer is Some implies #[trigger] captured_at(
                        captured@,
                        s,
                    ) by {
                        if s == i {
                            assert(captured@[before.len() as int].slot == s);
                        } else {
                            assert(captured_at(before, s));
                            let k = choose|k: int|
                                0 <= k < before.len() && (#[trigger] before[k]).slot == s;
                            assert(captured@[k].slot == s);
                        }
                    }
                }
            },
            None => {},
        }
        i = i + 1;
    }
    captured
}

} // verus!
