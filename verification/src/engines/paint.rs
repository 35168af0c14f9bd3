//! Frames that arrive in pieces.
//!
//! A page is painted into a buffer of four bytes a pixel, row by row. A new
//! frame comes with the rectangles that changed, and only those are copied.

use std::sync::Arc;

use vstd::prelude::*;

verus! {

/// A rectangle in pixels.
#[derive(Clone, Copy, Debug, PartialEq, Eq, Structural)]
pub struct Rect {
    pub x: i32,
    pub y: i32,
    pub width: i32,
    pub height: i32,
}

/// Where a byte of a pixel is in a buffer whose rows are `width` pixels long.
pub open spec fn byte_at(x: int, y: int, c: int, width: int) -> int {
    (y * width + x) * 4 + c
}

/// Whether a buffer holds a frame of a size.
pub open spec fn fits(buffer: Seq<u8>, width: u32, height: u32) -> bool {
    buffer.len() == 4 * width * height
}

/// A coordinate kept within a limit. What lies outside, on either side, is taken
/// to the limit.
pub open spec fn clamped(value: i32, limit: int) -> int {
    if value < 0 || value > limit {
        limit
    } else {
        value as int
    }
}

/// Whether a pixel is in a rectangle, as far as that is inside the frame.
pub open spec fn in_rect(rect: Rect, width: u32, height: u32, x: int, y: int) -> bool {
    let left = clamped(rect.x, width as int);
    let top = clamped(rect.y, height as int);
    &&& left <= x < left + clamped(rect.width, width - left)
    &&& top <= y < top + clamped(rect.height, height - top)
}

/// Whether a pixel is in one of some rectangles.
pub open spec fn covered(rects: Seq<Rect>, width: u32, height: u32, x: int, y: int) -> bool {
    exists|i: int| 0 <= i < rects.len() && in_rect(#[trigger] rects[i], width, height, x, y)
}

/// Whether `after` is `before` with the pixels in some rectangles taken from
/// `source`.
pub open spec fn is_painted(
    before: Seq<u8>,
    source: Seq<u8>,
    rects: Seq<Rect>,
    width: u32,
    height: u32,
    after: Seq<u8>,
) -> bool {
    &&& after.len() == before.len()
    &&& forall|x: int, y: int, c: int|
        0 <= x < width && 0 <= y < height && 0 <= c < 4 ==> #[trigger] after[byte_at(
            x,
            y,
            c,
            width as int,
        )] == if covered(rects, width, height, x, y) {
            source[byte_at(x, y, c, width as int)]
        } else {
            before[byte_at(x, y, c, width as int)]
        }
}

/// A row of pixels is the bytes from its first to its last.
proof fn lemma_row(width: int, left: int, y: int, len: int, x: int, y2: int, c: int)
    requires
        0 <= x < width,
        0 <= c < 4,
        0 <= left,
        0 <= len,
        left + len <= width,
        0 <= y,
        0 <= y2,
    ensures
        (byte_at(left, y, 0, width) <= byte_at(x, y2, c, width) < byte_at(left, y, 0, width) + 4
            * len) <==> (y2 == y && left <= x < left + len),
{
    if y2 < y {
        assert(y2 * width + width <= y * width) by (nonlinear_arith)
            requires
                y2 < y,
                0 < width,
        ;
    } else if y2 > y {
        assert(y * width + width <= y2 * width) by (nonlinear_arith)
            requires
                y2 > y,
                0 < width,
        ;
    }
}

/// A row of pixels lies in the buffer.
proof fn lemma_row_fits(width: u32, height: u32, left: int, y: int, len: int)
    requires
        0 <= left,
        0 <= len,
        left + len <= width,
        0 <= y < height,
    ensures
        0 <= y * width,
        0 <= byte_at(left, y, 0, width as int),
        byte_at(left, y, 0, width as int) + 4 * len <= 4 * width * height,
{
    let w = width as int;
    let h = height as int;
    assert(y * w + w <= h * w) by (nonlinear_arith)
        requires
            y < h,
            0 <= w,
    ;
    assert(0 <= y * w) by (nonlinear_arith)
        requires
            0 <= y,
            0 <= w,
    ;
    assert(4 * w * h == 4 * (h * w)) by (nonlinear_arith);
}

/// Copy some bytes to the same place in another buffer.
fn copy_span(dst: &mut Vec<u8>, src: &[u8], from: usize, len: usize)
    requires
        old(dst)@.len() == src@.len(),
        from + len <= src@.len(),
    ensures
        final(dst)@.len() == old(dst)@.len(),
        forall|k: int|
            0 <= k < src@.len() ==> #[trigger] final(dst)@[k] == if from <= k < from + len {
                src@[k]
            } else {
                old(dst)@[k]
            },
{
    let total: usize = src.len();
    let mut i: usize = 0;
    while i < len
        invariant
            i <= len,
            total == src@.len(),
            from + len <= src@.len(),
            dst@.len() == src@.len(),
            old(dst)@.len() == src@.len(),
            forall|k: int|
                0 <= k < src@.len() ==> #[trigger] dst@[k] == if from <= k < from + i {
                    src@[k]
                } else {
                    old(dst)@[k]
                },
        decreases len - i,
    {
        let byte: u8 = src[from + i];
        dst[from + i] = byte;
        i = i + 1;
    }
}

fn clamp_to(value: i32, limit: u32) -> (kept: u32)
    ensures
        kept == clamped(value, limit as int),
        kept <= limit,
{
    if value < 0 || value as u32 > limit {
        limit
    } else {
        value as u32
    }
}

/// Copy a rectangle.
fn blit_rect(dst: &mut Vec<u8>, src: &[u8], rect: Rect, width: u32, height: u32)
    requires
        fits(src@, width, height),
        fits(old(dst)@, width, height),
    ensures
        final(dst)@.len() == old(dst)@.len(),
        forall|x: int, y: int, c: int|
            0 <= x < width && 0 <= y < height && 0 <= c < 4 ==> #[trigger] final(dst)@[byte_at(
                x,
                y,
                c,
                width as int,
            )] == if in_rect(rect, width, height, x, y) {
                src@[byte_at(x, y, c, width as int)]
            } else {
                old(dst)@[byte_at(x, y, c, width as int)]
            },
{
    let total: usize = src.len();
    let left: u32 = clamp_to(rect.x, width);
    let top: u32 = clamp_to(rect.y, height);
    let wide: u32 = clamp_to(rect.width, width - left);
    let high: u32 = clamp_to(rect.height, height - top);
    let mut row: u32 = 0;
    while row < high
        invariant
            row <= high,
            total == src@.len(),
            left + wide <= width,
            top + high <= height,
            fits(src@, width, height),
            dst@.len() == src@.len(),
            old(dst)@.len() == src@.len(),
            forall|x: int, y: int, c: int|
                0 <= x < width && 0 <= y < height && 0 <= c < 4 ==> #[trigger] dst@[byte_at(
                    x,
                    y,
                    c,
                    width as int,
                )] == if left <= x < left + wide && top <= y < top + row {
                    src@[byte_at(x, y, c, width as int)]
                } else {
                    old(dst)@[byte_at(x, y, c, width as int)]
                },
        decreases high - row,
    {
        let y: u32 = top + row;
        proof {
            lemma_row_fits(width, height, left as int, y as int, wide as int);
            assert(0 <= y * width + left <= total);
        }
        let from: usize = ((y as usize) * (width as usize) + (left as usize)) * 4;
        let len: usize = (wide as usize) * 4;
        let ghost before = dst@;
        copy_span(dst, src, from, len);
        proof {
            assert forall|x: int, y2: int, c: int|
                0 <= x < width && 0 <= y2 < height && 0 <= c < 4 implies #[trigger] dst@[byte_at(
                x,
                y2,
                c,
                width as int,
            )] == if left <= x < left + wide && top <= y2 < top + row + 1 {
                src@[byte_at(x, y2, c, width as int)]
            } else {
                old(dst)@[byte_at(x, y2, c, width as int)]
            } by {
                lemma_row(width as int, left as int, y as int, wide as int, x, y2, c);
                lemma_row_fits(width, height, x, y2, 1);
                let k = byte_at(x, y2, c, width as int);
                assert(k == byte_at(x, y2, 0, width as int) + c);
                assert(0 <= k < src@.len());
                assert(before[k] == if left <= x < left + wide && top <= y2 < top + row {
                    src@[k]
                } else {
                    old(dst)@[k]
                });
            }
        }
        row = row + 1;
    }
}

/// Copy the rectangles that changed from a new frame.
pub fn blit(dst: &mut Vec<u8>, src: &[u8], rects: &[Rect], width: u32, height: u32)
    requires
        fits(src@, width, height),
        fits(old(dst)@, width, height),
    ensures
        is_painted(old(dst)@, src@, rects@, width, height, final(dst)@),
{
    let mut i: usize = 0;
    while i < rects.len()
        invariant
            i <= rects@.len(),
            fits(src@, width, height),
            fits(dst@, width, height),
            is_painted(old(dst)@, src@, rects@.take(i as int), width, height, dst@),
        decreases rects@.len() - i,
    {
        let ghost before = dst@;
        blit_rect(dst, src, rects[i], width, height);
        proof {
            let some = rects@.take(i as int);
            let more = rects@.take(i as int + 1);
            assert forall|x: int, y: int, c: int|
                0 <= x < width && 0 <= y < height && 0 <= c < 4 implies #[trigger] dst@[byte_at(
                x,
                y,
                c,
                width as int,
            )] == if covered(more, width, height, x, y) {
                src@[byte_at(x, y, c, width as int)]
            } else {
                old(dst)@[byte_at(x, y, c, width as int)]
            } by {
                let k = byte_at(x, y, c, width as int);
                assert(before[k] == if covered(some, width, height, x, y) {
                    src@[k]
                } else {
                    old(dst)@[k]
                });
                lemma_covered_more(rects@, i as int, width, height, x, y);
            }
        }
        i = i + 1;
    }
    assert(rects@.take(rects@.len() as int) =~= rects@);
}

proof fn lemma_covered_more(rects: Seq<Rect>, i: int, width: u32, height: u32, x: int, y: int)
    requires
        0 <= i < rects.len(),
    ensures
        covered(rects.take(i + 1), width, height, x, y) <==> covered(
            rects.take(i),
            width,
            height,
            x,
            y,
        ) || in_rect(rects[i], width, height, x, y),
{
    let some = rects.take(i);
    let more = rects.take(i + 1);
    if covered(some, width, height, x, y) {
        let k = choose|k: int|
            0 <= k < some.len() && in_rect(#[trigger] some[k], width, height, x, y);
        assert(more[k] == some[k]);
    }
    if in_rect(rects[i], width, height, x, y) {
        assert(more[i] == rects[i]);
    }
    if covered(more, width, height, x, y) {
        let k = choose|k: int|
            0 <= k < more.len() && in_rect(#[trigger] more[k], width, height, x, y);
        if k < i {
            assert(some[k] == more[k]);
        }
    }
}

/// Every byte of a frame belongs to a pixel.
proof fn lemma_byte_has_pixel(width: u32, height: u32, k: int) -> (pixel: (int, int, int))
    requires
        0 <= k < 4 * width * height,
    ensures
        0 <= pixel.0 < width,
        0 <= pixel.1 < height,
        0 <= pixel.2 < 4,
        byte_at(pixel.0, pixel.1, pixel.2, width as int) == k,
{
    let w = width as int;
    let h = height as int;
    assert(w > 0) by (nonlinear_arith)
        requires
            0 < 4 * w * h,
            w >= 0,
            h >= 0,
    ;
    let p = k / 4;
    let x = p % w;
    let y = p / w;
    vstd::arithmetic::div_mod::lemma_fundamental_div_mod(p, w);
    assert(p < w * h) by (nonlinear_arith)
        requires
            p == k / 4,
            k < 4 * w * h,
    ;
    assert(y * w == w * y) by (nonlinear_arith);
    assert(0 <= x < w) by {
        vstd::arithmetic::div_mod::lemma_mod_bound(p, w);
    }
    assert(0 <= y) by {
        vstd::arithmetic::div_mod::lemma_div_pos_is_pos(p, w);
    }
    assert(y < h) by (nonlinear_arith)
        requires
            w * y <= p,
            p < w * h,
            w > 0,
    ;
    (x, y, k % 4)
}

/// A buffer that differs from a new frame only inside the rectangles that
/// changed is the new frame afterwards: painting by pieces is as good as
/// painting all of it.
pub proof fn law_painting_changes_is_enough(
    before: Seq<u8>,
    source: Seq<u8>,
    rects: Seq<Rect>,
    width: u32,
    height: u32,
    after: Seq<u8>,
)
    requires
        fits(before, width, height),
        fits(source, width, height),
        is_painted(before, source, rects, width, height, after),
        forall|x: int, y: int, c: int|
            0 <= x < width && 0 <= y < height && 0 <= c < 4 && !covered(rects, width, height, x, y)
                ==> #[trigger] before[byte_at(x, y, c, width as int)] == source[byte_at(
                x,
                y,
                c,
                width as int,
            )],
    ensures
        after == source,
{
    assert forall|k: int| 0 <= k < after.len() implies after[k] == source[k] by {
        let (x, y, c) = lemma_byte_has_pixel(width, height, k);
        assert(after[byte_at(x, y, c, width as int)] == after[k]);
        assert(before[byte_at(x, y, c, width as int)] == before[k]);
    }
    assert(after =~= source);
}

/// A rectangle over the whole frame takes all of the new frame.
pub proof fn law_whole_frame_is_taken(
    before: Seq<u8>,
    source: Seq<u8>,
    rect: Rect,
    width: u32,
    height: u32,
    after: Seq<u8>,
)
    requires
        fits(before, width, height),
        fits(source, width, height),
        rect.x == 0,
        rect.y == 0,
        rect.width >= width,
        rect.height >= height,
        is_painted(before, source, seq![rect], width, height, after),
    ensures
        after == source,
{
    assert forall|x: int, y: int, c: int|
        0 <= x < width && 0 <= y < height && 0 <= c < 4 && !covered(
            seq![rect],
            width,
            height,
            x,
            y,
        ) implies #[trigger] before[byte_at(x, y, c, width as int)] == source[byte_at(
        x,
        y,
        c,
        width as int,
    )] by {
        assert(in_rect(seq![rect][0], width, height, x, y));
    }
    law_painting_changes_is_enough(before, source, seq![rect], width, height, after);
}

/// Calls `std::sync::Arc::try_unwrap`, which hands out what is shared if nobody
/// else shares it, and hands the pointer back otherwise.
#[verifier::external_body]
fn try_unshare(pixels: Arc<Vec<u8>>) -> (result: Result<Vec<u8>, Arc<Vec<u8>>>)
    ensures
        match result {
            Ok(bytes) => bytes == *pixels,
            Err(shared) => shared == pixels,
        },
{
    Arc::try_unwrap(pixels)
}

/// The pixels as a buffer of one's own: they are copied only if somebody else
/// still looks at them.
fn unshare(pixels: Arc<Vec<u8>>) -> (bytes: Vec<u8>)
    ensures
        bytes@ == pixels@,
{
    match try_unshare(pixels) {
        Ok(bytes) => bytes,
        Err(shared) => {
            let copy: Vec<u8> = vstd::slice::slice_to_vec(shared.as_slice());
            copy
        },
    }
}

/// The last frame of a page, in a buffer that is reused from frame to frame.
#[derive(Debug)]
pub struct PaintBuffer {
    pixels: Arc<Vec<u8>>,
    width: u32,
    height: u32,
}

/// The last frame of a page.
pub struct PaintView {
    pub pixels: Seq<u8>,
    pub width: u32,
    pub height: u32,
}

impl View for PaintBuffer {
    type V = PaintView;

    closed spec fn view(&self) -> PaintView {
        PaintView { pixels: self.pixels@, width: self.width, height: self.height }
    }
}

impl PaintView {
    /// Whether `after` is the frame after a paint: the whole of it where the
    /// size changed or nobody says what changed, and what changed otherwise.
    pub open spec fn is_repainted(
        self,
        source: Seq<u8>,
        dirty: Option<Seq<Rect>>,
        width: u32,
        height: u32,
        after: PaintView,
    ) -> bool {
        &&& after.width == width
        &&& after.height == height
        &&& if self.width != width || self.height != height || dirty is None {
            after.pixels == source
        } else {
            is_painted(self.pixels, source, dirty->0, width, height, after.pixels)
        }
    }
}

impl PaintBuffer {
    #[verifier::type_invariant]
    closed spec fn whole(self) -> bool {
        fits(self.pixels@, self.width, self.height)
    }

    /// No frame yet.
    pub fn new() -> (buffer: PaintBuffer)
        ensures
            buffer@ == (PaintView { pixels: Seq::empty(), width: 0, height: 0 }),
    {
        let pixels: Arc<Vec<u8>> = Arc::new(Vec::new());
        assert(pixels@ =~= Seq::empty());
        PaintBuffer { pixels, width: 0, height: 0 }
    }

    /// The pixels of the frame.
    pub fn pixels(&self) -> (pixels: Arc<Vec<u8>>)
        ensures
            pixels@ == self@.pixels,
    {
        self.pixels.clone()
    }

    /// Take in a new frame, with the rectangles that changed if they are known.
    pub fn paint(&mut self, src: &[u8], dirty: Option<&[Rect]>, width: u32, height: u32)
        requires
            fits(src@, width, height),
        ensures
            old(self)@.is_repainted(
                src@,
                match dirty {
                    Some(rects) => Some(rects@),
                    None => None,
                },
                width,
                height,
                final(self)@,
            ),
            fits(final(self)@.pixels, width, height),
    {
        proof {
            use_type_invariant(&*self);
        }
        let same: bool = self.width == width && self.height == height;
        match dirty {
            Some(rects) if same => {
                let mut last: PaintBuffer = PaintBuffer::new();
                std::mem::swap(self, &mut last);
                let mut bytes: Vec<u8> = unshare(last.pixels);
                blit(&mut bytes, src, rects, width, height);
                *self = PaintBuffer { pixels: Arc::new(bytes), width, height };
            },
            _ => {
                *self = PaintBuffer {
                    pixels: Arc::new(vstd::slice::slice_to_vec(src)),
                    width,
                    height,
                };
            },
        }
    }
}

/// A rectangle inside the frame covers exactly its pixels, as far as the frame
/// goes. One that starts before the frame covers nothing, and one without an
/// end goes as far as the frame.
pub proof fn law_rect_covers_its_pixels(rect: Rect, width: u32, height: u32, x: int, y: int)
    requires
        0 <= x < width,
        0 <= y < height,
    ensures
        rect.x >= 0 && rect.y >= 0 && rect.width >= 0 && rect.height >= 0 ==> (in_rect(
            rect,
            width,
            height,
            x,
            y,
        ) <==> rect.x <= x < rect.x + rect.width && rect.y <= y < rect.y + rect.height),
        rect.x < 0 || rect.y < 0 ==> !in_rect(rect, width, height, x, y),
        rect.x >= 0 && rect.y >= 0 && rect.width < 0 && rect.height < 0 ==> (in_rect(
            rect,
            width,
            height,
            x,
            y,
        ) <==> rect.x <= x && rect.y <= y),
{
}

/// After painting, each of the four bytes of a pixel is that of the new frame
/// where one of the rectangles covers the pixel, and what it was elsewhere.
pub proof fn law_pixels_are_painted_where_covered(
    before: Seq<u8>,
    source: Seq<u8>,
    rects: Seq<Rect>,
    width: u32,
    height: u32,
    after: Seq<u8>,
    x: int,
    y: int,
    c: int,
    i: int,
)
    requires
        is_painted(before, source, rects, width, height, after),
        0 <= x < width,
        0 <= y < height,
        0 <= c < 4,
    ensures
        after.len() == before.len(),
        0 <= i < rects.len() && in_rect(rects[i], width, height, x, y) ==> after[4 * (y * width + x)
            + c] == source[4 * (y * width + x) + c],
        (forall|j: int|
            0 <= j < rects.len() ==> !in_rect(#[trigger] rects[j], width, height, x, y)) ==> after[4
            * (y * width + x) + c] == before[4 * (y * width + x) + c],
{
    assert(byte_at(x, y, c, width as int) == 4 * (y * width + x) + c);
    assert(after[byte_at(x, y, c, width as int)] == after[4 * (y * width + x) + c]);
}

/// The frame has the size it was painted in. Where that is another size than
/// before, or nobody says what changed, all of it is the new frame; otherwise
/// where the rectangles cover it and only there.
pub proof fn law_frame_after_paint(
    last: PaintView,
    source: Seq<u8>,
    rects: Seq<Rect>,
    width: u32,
    height: u32,
    after: PaintView,
)
    ensures
        last.is_repainted(source, None, width, height, after) ==> after.pixels == source
            && after.width == width && after.height == height,
        last.is_repainted(source, Some(rects), width, height, after) && (last.width != width
            || last.height != height) ==> after.pixels == source,
        last.is_repainted(source, Some(rects), width, height, after) ==> after.width == width
            && after.height == height,
        last.is_repainted(source, Some(rects), width, height, after) && last.width == width
            && last.height == height ==> is_painted(
            last.pixels,
            source,
            rects,
            width,
            height,
            after.pixels,
        ),
{
}

/// A frame has four bytes for each of its pixels.
pub proof fn law_frame_has_four_bytes_a_pixel(buffer: Seq<u8>, width: u32, height: u32)
    ensures
        fits(buffer, width, height) <==> buffer.len() == 4 * width * height,
{
}

} // verus!
