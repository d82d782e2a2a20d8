//! One image of a region of the virtual desktop, put together from the
//! screens that the region lies on.

use crate::capture::{Frame, FrameView};
use crate::geometry::{spec_max, spec_min};
use vstd::prelude::*;

verus! {

/// A screen as the capture backend describes it.
#[derive(Clone, Copy, Debug, PartialEq, Eq, Structural)]
pub struct ScreenInfo {
    pub x: i32,
    pub y: i32,
    pub width: u32,
    pub height: u32,
}

/// The part of one screen that lies in a region.
#[derive(Clone, Copy, Debug, PartialEq, Eq, Structural)]
pub struct RegionPiece {
    /// The place of the screen among the screens.
    pub screen: usize,
    /// Where the part begins, counted from the screen's corner.
    pub rel_x: u32,
    pub rel_y: u32,
    pub width: u32,
    pub height: u32,
    /// Where the part goes, counted from the region's corner.
    pub dest_x: u32,
    pub dest_y: u32,
}

/// Why no image of a region could be put together.
#[derive(Clone, Copy, Debug, PartialEq, Eq, Structural)]
pub enum RegionError {
    /// There are not as many images as parts.
    PieceCountMismatch,
    /// The image at this place has not the size of its part.
    PieceSizeMismatch(usize),
    /// The part at this place reaches beyond the region.
    PieceOutsideRegion(usize),
    /// The region has more bytes than the machine can address.
    RegionTooLarge,
}

/// A length that may be given as negative: a negative length is none.
pub open spec fn length_of(v: i32) -> int {
    if v < 0 {
        0
    } else {
        v as int
    }
}

/// The part of `screen`, the screen at place `k`, that lies in the region
/// that begins at (`x`, `y`) and is `w` by `h` pixels large, if any pixel
/// of the screen does.
pub open spec fn spec_piece(x: i32, y: i32, w: i32, h: i32, screen: ScreenInfo, k: usize) -> Option<
    RegionPiece,
> {
    let left = spec_max(x as int, screen.x as int);
    let top = spec_max(y as int, screen.y as int);
    let right = spec_min(x + length_of(w), screen.x + screen.width);
    let bottom = spec_min(y + length_of(h), screen.y + screen.height);
    if right <= left || bottom <= top {
        None
    } else {
        Some(
            RegionPiece {
                screen: k,
                rel_x: (left - screen.x) as u32,
                rel_y: (top - screen.y) as u32,
                width: (right - left) as u32,
                height: (bottom - top) as u32,
                dest_x: (left - x) as u32,
                dest_y: (top - y) as u32,
            },
        )
    }
}

/// Some part stands for the screen at place `k`.
pub open spec fn piece_of(pieces: Seq<RegionPiece>, k: int) -> bool {
    exists|i: int| 0 <= i < pieces.len() && (#[trigger] pieces[i]).screen == k
}

/// `pieces` holds, in the order of the screens, the part of every screen
/// that the region lies on, and nothing else.
pub open spec fn are_pieces_of(
    pieces: Seq<RegionPiece>,
    x: i32,
    y: i32,
    w: i32,
    h: i32,
    screens: Seq<ScreenInfo>,
) -> bool {
    &&& forall|i: int|
        0 <= i < pieces.len() ==> {
            let p = #[trigger] pieces[i];
            &&& 0 <= p.screen < screens.len()
            &&& spec_piece(x, y, w, h, screens[p.screen as int], p.screen) == Some(p)
        }
    &&& forall|i: int, j: int|
        0 <= i < j < pieces.len() ==> (#[trigger] pieces[i]).screen < (#[trigger] pieces[j]).screen
    &&& forall|k: int|
        0 <= k < screens.len() && spec_piece(x, y, w, h, screens[k], k as usize) is Some
            ==> #[trigger] piece_of(pieces, k)
}

/// The parts of the screens that the region lies on, in the order of the
/// screens.
pub open spec fn spec_region_pieces(x: i32, y: i32, w: i32, h: i32, screens: Seq<ScreenInfo>) -> Seq<
    RegionPiece,
>
    decreases screens.len(),
{
    if screens.len() == 0 {
        seq![]
    } else {
        let before = spec_region_pieces(x, y, w, h, screens.drop_last());
        match spec_piece(x, y, w, h, screens.last(), (screens.len() - 1) as usize) {
            Some(piece) => before.push(piece),
            None => before,
        }
    }
}

/// The part of `screen` that lies in the region.
pub fn piece_on(x: i32, y: i32, w: i32, h: i32, screen: &ScreenInfo, k: usize) -> (r: Option<RegionPiece>)
    ensures
        r == spec_piece(x, y, w, h, *screen, k),
        r matches Some(p) ==> p.dest_x + p.width <= length_of(w) && p.dest_y + p.height
            <= length_of(h) && p.rel_x + p.width <= screen.width && p.rel_y + p.height
            <= screen.height && p.width > 0 && p.height > 0,
{
    let sel_w: i64 = if w < 0 { 0 } else { w as i64 };
    let sel_h: i64 = if h < 0 { 0 } else { h as i64 };
    let sx: i64 = screen.x as i64;
    let sy: i64 = screen.y as i64;
    let left: i64 = if x as i64 >= sx { x as i64 } else { sx };
    let top: i64 = if y as i64 >= sy { y as i64 } else { sy };
    let right: i64 = if x as i64 + sel_w <= sx + screen.width as i64 {
        x as i64 + sel_w
    } else {
        sx + screen.width as i64
    };
    let bottom: i64 = if y as i64 + sel_h <= sy + screen.height as i64 {
        y as i64 + sel_h
    } else {
        sy + screen.height as i64
    };
    if right <= left || bottom <= top {
        return None;
    }
    Some(
        RegionPiece {
            screen: k,
            rel_x: (left - sx) as u32,
            rel_y: (top - sy) as u32,
            width: (right - left) as u32,
            height: (bottom - top) as u32,
            dest_x: (left - x as i64) as u32,
            dest_y: (top - y as i64) as u32,
        },
    )
}

/// The parts of the screens that make up the region that begins at
/// (`x`, `y`) and is `w` by `h` pixels large. A screen that the region does
/// not touch has no part.
pub fn region_pieces(x: i32, y: i32, w: i32, h: i32, screens: &Vec<ScreenInfo>) -> (pieces: Vec<
    RegionPiece,
>)
    ensures
        pieces@ == spec_region_pieces(x, y, w, h, screens@),
        are_pieces_of(pieces@, x, y, w, h, screens@),
{
    let mut pieces: Vec<RegionPiece> = Vec::new();
    let mut k: usize = 0;
    assert(screens@.take(0) =~= Seq::<ScreenInfo>::empty());
    while k < screens.len()
        invariant
            k <= screens.len(),
            pieces@ == spec_region_pieces(x, y, w, h, screens@.take(k as int)),
            forall|i: int|
                0 <= i < pieces.len() ==> {
                    let p = #[trigger] pieces[i];
                    &&& 0 <= p.screen < k
                    &&& spec_piece(x, y, w, h, screens[p.screen as int], p.screen) == Some(p)
                },
            forall|i: int, j: int|
                0 <= i < j < pieces.len() ==> (#[trigger] pieces[i]).screen < (
                #[trigger] pieces[j]).screen,
            forall|s: int|
                0 <= s < k && spec_piece(x, y, w, h, screens[s], s as usize) is Some
                    ==> #[trigger] piece_of(pieces@, s),
        decreases screens.len() - k,
    {
        proof {
            assert(screens@.take(k + 1).drop_last() =~= screens@.take(k as int));
            assert(screens@.take(k + 1).last() == screens[k as int]);
        }
        match piece_on(x, y, w, h, &screens[k], k) {
            Some(piece) => {
                let ghost before = pieces@;
                pieces.push(piece);
                proof {
                    assert forall|s: int|
                        0 <= s < k + 1 && spec_piece(x, y, w, h, screens[s], s as usize)
                            is Some implies #[trigger] piece_of(pieces@, s) by {
                        if s == k {
                            assert(pieces@[before.len() as int].screen == s);
                        } else {
                            assert(piece_of(before, s));
                            let i = choose|i: int|
                                0 <= i < before.len() && (#[trigger] before[i]).screen == s;
                            assert(pieces@[i].screen == s);
                        }
                    }
                }
            },
            None => {},
        }
        k = k + 1;
    }
    assert(screens@.take(k as int) =~= screens@);
    pieces
}


/// What the images hold, in their order.
pub open spec fn views_of(frames: Seq<Frame>) -> Seq<FrameView> {
    Seq::new(frames.len(), |i: int| frames[i]@)
}

/// The part covers the pixel (`px`, `py`) of the region.
pub open spec fn covers(piece: RegionPiece, px: int, py: int) -> bool {
    &&& piece.dest_x <= px < piece.dest_x + piece.width
    &&& piece.dest_y <= py < piece.dest_y + piece.height
}

/// Channel `c` of the pixel (`px`, `py`) of the region: that of the image
/// of the last part that covers the pixel, and 0 where no part does.
pub open spec fn composed_channel(
    pieces: Seq<RegionPiece>,
    images: Seq<FrameView>,
    px: int,
    py: int,
    c: int,
) -> u8
    decreases pieces.len(),
{
    if pieces.len() == 0 {
        0
    } else if covers(pieces.last(), px, py) {
        images[pieces.len() - 1].channel(px - pieces.last().dest_x, py - pieces.last().dest_y, c)
    } else {
        composed_channel(pieces.drop_last(), images, px, py, c)
    }
}

/// The image of a region of `width` by `height` pixels, put together from
/// the images of its parts.
pub open spec fn composed(
    width: u32,
    height: u32,
    pieces: Seq<RegionPiece>,
    images: Seq<FrameView>,
) -> FrameView {
    FrameView {
        width,
        height,
        data: Seq::new(
            (width * height * 4) as nat,
            |k: int|
                composed_channel(
                    pieces,
                    images,
                    (k / 4) % (width as int),
                    (k / 4) / (width as int),
                    k % 4,
                ),
        ),
    }
}

/// What is wrong with the part at place `i` and its image, if anything:
/// the image has another size than the part, or the part reaches beyond
/// the region.
pub open spec fn piece_fault(
    piece: RegionPiece,
    image: FrameView,
    width: u32,
    height: u32,
    i: int,
) -> Option<RegionError> {
    if image.width != piece.width || image.height != piece.height {
        Some(RegionError::PieceSizeMismatch(i as usize))
    } else if piece.dest_x + piece.width > width || piece.dest_y + piece.height > height {
        Some(RegionError::PieceOutsideRegion(i as usize))
    } else {
        None
    }
}

/// The fault of the first part that has one.
pub open spec fn first_fault(
    pieces: Seq<RegionPiece>,
    images: Seq<FrameView>,
    width: u32,
    height: u32,
) -> Option<RegionError>
    decreases pieces.len(),
{
    if pieces.len() == 0 {
        None
    } else {
        match first_fault(pieces.drop_last(), images, width, height) {
            Some(e) => Some(e),
            None => piece_fault(pieces.last(), images[pieces.len() - 1], width, height, pieces.len() - 1),
        }
    }
}

/// Why the region cannot be put together, if it cannot.
pub open spec fn compose_fault(
    width: u32,
    height: u32,
    pieces: Seq<RegionPiece>,
    images: Seq<FrameView>,
) -> Option<RegionError> {
    if pieces.len() != images.len() {
        Some(RegionError::PieceCountMismatch)
    } else if first_fault(pieces, images, width, height) is Some {
        first_fault(pieces, images, width, height)
    } else if width * height * 4 > usize::MAX {
        Some(RegionError::RegionTooLarge)
    } else {
        None
    }
}

proof fn lemma_first_fault_found(
    pieces: Seq<RegionPiece>,
    images: Seq<FrameView>,
    width: u32,
    height: u32,
    i: int,
    n: int,
)
    requires
        0 <= i < n <= pieces.len(),
        first_fault(pieces.take(i), images, width, height) is None,
        piece_fault(pieces[i], images[i], width, height, i) is Some,
    ensures
        first_fault(pieces.take(n), images, width, height) == piece_fault(
            pieces[i],
            images[i],
            width,
            height,
            i,
        ),
    decreases n - i,
{
    assert(pieces.take(n).drop_last() =~= pieces.take(n - 1));
    if n == i + 1 {
        assert(pieces.take(n).last() == pieces[i]);
    } else {
        lemma_first_fault_found(pieces, images, width, height, i, n - 1);
    }
}

fn channel_at(pieces: &Vec<RegionPiece>, frames: &Vec<Frame>, px: u32, py: u32, c: usize) -> (b: u8)
    requires
        pieces.len() == frames.len(),
        forall|i: int|
            0 <= i < pieces.len() ==> (#[trigger] frames[i])@.width == pieces[i].width
                && frames[i]@.height == pieces[i].height,
        c < 4,
    ensures
        b == composed_channel(pieces@, views_of(frames@), px as int, py as int, c as int),
{
    let ghost images = views_of(frames@);
    let mut i: usize = pieces.len();
    assert(pieces@.take(i as int) =~= pieces@);
    while i > 0
        invariant
            i <= pieces.len(),
            pieces.len() == frames.len(),
            images == views_of(frames@),
            c < 4,
            forall|j: int|
                0 <= j < pieces.len() ==> (#[trigger] frames[j])@.width == pieces[j].width
                    && frames[j]@.height == pieces[j].height,
            composed_channel(pieces@, images, px as int, py as int, c as int) == composed_channel(
                pieces@.take(i as int),
                images,
                px as int,
                py as int,
                c as int,
            ),
        decreases i,
    {
        i = i - 1;
        let piece = &pieces[i];
        proof {
            assert(pieces@.take(i + 1).last() == pieces[i as int]);
            assert(pieces@.take(i + 1).drop_last() =~= pieces@.take(i as int));
        }
        let x: u64 = px as u64;
        let y: u64 = py as u64;
        if piece.dest_x as u64 <= x && x < piece.dest_x as u64 + piece.width as u64
            && piece.dest_y as u64 <= y && y < piece.dest_y as u64 + piece.height as u64 {
            let frame = &frames[i];
            let data = frame.data();
            let col: usize = (px - piece.dest_x) as usize;
            let row: usize = (py - piece.dest_y) as usize;
            let w: usize = piece.width as usize;
            assert(frame@ == images[i as int]);
            let ghost h = piece.height as int;
            assert(0 <= row * w && row * w + col < w * h) by (nonlinear_arith)
                requires
                    0 <= col < w,
                    0 <= row < h,
            ;
            let len: usize = data.len();
            assert(len == w * h * 4);
            return data[(row * w + col) * 4 + c];
        }
    }
    assert(pieces@.take(0).len() == 0);
    0
}

/// Puts the image of a region of `width` by `height` pixels together from
/// the images of its parts. Every part is laid where it belongs, in the
/// order of the parts; what no part covers stays clear. The images must be
/// as many as the parts, each of the size of its part, and no part may
/// reach beyond the region.
pub fn compose_region(width: u32, height: u32, pieces: &Vec<RegionPiece>, frames: &Vec<Frame>) -> (r:
    Result<Frame, RegionError>)
    ensures
        (match compose_fault(width, height, pieces@, views_of(frames@)) {
            Some(e) => r == Err::<Frame, RegionError>(e),
            None => r matches Ok(image) && image@ == composed(
                width,
                height,
                pieces@,
                views_of(frames@),
            ),
        }),
{
    let ghost images = views_of(frames@);
    if pieces.len() != frames.len() {
        return Err(RegionError::PieceCountMismatch);
    }
    let mut i: usize = 0;
    assert(pieces@.take(0).len() == 0);
    while i < pieces.len()
        invariant
            i <= pieces.len(),
            pieces.len() == frames.len(),
            images == views_of(frames@),
            first_fault(pieces@.take(i as int), images, width, height) is None,
            forall|j: int|
                0 <= j < i ==> (#[trigger] frames[j])@.width == pieces[j].width && frames[j]@.height
                    == pieces[j].height,
        decreases pieces.len() - i,
    {
        let piece = &pieces[i];
        let frame = &frames[i];
        assert(frame@ == images[i as int]);
        proof {
            assert(pieces@.take(i + 1).last() == pieces[i as int]);
            assert(pieces@.take(i + 1).drop_last() =~= pieces@.take(i as int));
            assert(pieces@.take(pieces.len() as int) =~= pieces@);
        }
        if frame.width() != piece.width || frame.height() != piece.height {
            proof {
                lemma_first_fault_found(pieces@, images, width, height, i as int, pieces.len() as int);
            }
            return Err(RegionError::PieceSizeMismatch(i));
        }
        if piece.dest_x as u64 + piece.width as u64 > width as u64 || piece.dest_y as u64
            + piece.height as u64 > height as u64 {
            proof {
                lemma_first_fault_found(pieces@, images, width, height, i as int, pieces.len() as int);
            }
            return Err(RegionError::PieceOutsideRegion(i));
        }
        i = i + 1;
    }
    assert(pieces@.take(i as int) =~= pieces@);
    assert(width * height <= 0xFFFF_FFFF * 0xFFFF_FFFF) by (nonlinear_arith)
        requires
            0 <= width <= 0xFFFF_FFFF,
            0 <= height <= 0xFFFF_FFFF,
    ;
    let total: u128 = (width as u128 * height as u128) * 4;
    if total > usize::MAX as u128 {
        return Err(RegionError::RegionTooLarge);
    }
    let ghost target = composed(width, height, pieces@, images);
    let mut data: Vec<u8> = Vec::new();
    let mut py: u32 = 0;
    while py < height
        invariant
            py <= height,
            pieces.len() == frames.len(),
            images == views_of(frames@),
            target == composed(width, height, pieces@, images),
            width * height * 4 <= usize::MAX,
            forall|j: int|
                0 <= j < pieces.len() ==> (#[trigger] frames[j])@.width == pieces[j].width
                    && frames[j]@.height == pieces[j].height,
            data.len() == py * width * 4,
            forall|k: int| 0 <= k < data.len() ==> data[k] == target.data[k],
        decreases height - py,
    {
        let mut px: u32 = 0;
        while px < width
            invariant
                px <= width,
                py < height,
                pieces.len() == frames.len(),
                images == views_of(frames@),
                target == composed(width, height, pieces@, images),
                width * height * 4 <= usize::MAX,
                forall|j: int|
                    0 <= j < pieces.len() ==> (#[trigger] frames[j])@.width == pieces[j].width
                        && frames[j]@.height == pieces[j].height,
                data.len() == (py * width + px) * 4,
                forall|k: int| 0 <= k < data.len() ==> data[k] == target.data[k],
            decreases width - px,
        {
            let mut c: usize = 0;
            while c < 4
                invariant
                    c <= 4,
                    px < width,
                    py < height,
                    pieces.len() == frames.len(),
                    images == views_of(frames@),
                    target == composed(width, height, pieces@, images),
                    width * height * 4 <= usize::MAX,
                    forall|j: int|
                        0 <= j < pieces.len() ==> (#[trigger] frames[j])@.width == pieces[j].width
                            && frames[j]@.height == pieces[j].height,
                    data.len() == (py * width + px) * 4 + c,
                    forall|k: int| 0 <= k < data.len() ==> data[k] == target.data[k],
                decreases 4 - c,
            {
                let b = channel_at(pieces, frames, px, py, c);
                proof {
                    let p = py * width + px;
                    let k = p * 4 + c;
                    assert(0 <= py * width <= (height - 1) * width && (height - 1) * width == height
                        * width - width && height * width == width * height) by (nonlinear_arith)
                        requires
                            0 <= py <= height - 1,
                            0 <= width,
                    ;
                    assert(0 <= k < width * height * 4);
                    assert(k / 4 == p && k % 4 == c);
                    vstd::arithmetic::div_mod::lemma_fundamental_div_mod_converse(
                        p,
                        width as int,
                        py as int,
                        px as int,
                    );
                    assert(target.data[k] == b);
                }
                data.push(b);
                c = c + 1;
            }
            px = px + 1;
        }
        assert((py * width + width) * 4 == (py + 1) * width * 4) by (nonlinear_arith);
        py = py + 1;
    }
    assert(data.len() == width * height * 4) by (nonlinear_arith)
        requires
            data.len() == height * width * 4,
    ;
    assert(data@ =~= target.data);
    Ok(Frame::assemble(width, height, data))
}


/// The image of the region that begins at (`x`, `y`) of the virtual
/// desktop and is `w` by `h` pixels large, put together from the images of
/// the parts that `region_pieces` names for the screens. A negative length
/// counts as none.
pub fn capture_region_and_save(
    x: i32,
    y: i32,
    w: i32,
    h: i32,
    screens: &Vec<ScreenInfo>,
    frames: &Vec<Frame>,
) -> (r: Result<Frame, RegionError>)
    ensures
        (match compose_fault(
            length_of(w) as u32,
            length_of(h) as u32,
            spec_region_pieces(x, y, w, h, screens@),
            views_of(frames@),
        ) {
            Some(e) => r == Err::<Frame, RegionError>(e),
            None => r matches Ok(image) && image@ == composed(
                length_of(w) as u32,
                length_of(h) as u32,
                spec_region_pieces(x, y, w, h, screens@),
                views_of(frames@),
            ),
        }),
{
    let width: u32 = if w < 0 { 0 } else { w as u32 };
    let height: u32 = if h < 0 { 0 } else { h as u32 };
    let pieces = region_pieces(x, y, w, h, screens);
    compose_region(width, height, &pieces, frames)
}

/// Gives up a capture. Nothing is kept between captures, so there is
/// nothing to undo.
pub fn cancel_screenshot() -> (r: Result<(), RegionError>)
    ensures
        r is Ok,
{
    Ok(())
}


/// Every part that `region_pieces` names lies in the region and on its
/// screen, and holds at least one pixel.
pub proof fn lemma_pieces_lie_in_region(x: i32, y: i32, w: i32, h: i32, screens: Seq<ScreenInfo>, i: int)
    requires
        screens.len() <= usize::MAX,
        0 <= i < spec_region_pieces(x, y, w, h, screens).len(),
    ensures
        ({
            let p = spec_region_pieces(x, y, w, h, screens)[i];
            &&& 0 <= p.screen < screens.len()
            &&& p.dest_x + p.width <= length_of(w)
            &&& p.dest_y + p.height <= length_of(h)
            &&& p.rel_x + p.width <= screens[p.screen as int].width
            &&& p.rel_y + p.height <= screens[p.screen as int].height
            &&& p.width > 0
            &&& p.height > 0
            &&& x + p.dest_x == screens[p.screen as int].x + p.rel_x
            &&& y + p.dest_y == screens[p.screen as int].y + p.rel_y
        }),
    decreases screens.len(),
{
    if screens.len() > 0 {
        let before = spec_region_pieces(x, y, w, h, screens.drop_last());
        if i < before.len() {
            lemma_pieces_lie_in_region(x, y, w, h, screens.drop_last(), i);
            assert(screens.drop_last()[before[i].screen as int] == screens[before[i].screen as int]);
        }
    }
}

} // verus!
