//! The pixels of the overlay.
//!
//! A frame is a buffer of four-byte pixels, row after row, in physical pixels:
//! on a high-density output one logical pixel is a square of `scale` by `scale`
//! buffer pixels. A frame starts transparent and takes one flat rectangle per
//! zone, later zones over earlier ones.
use vstd::prelude::*;

use crate::overlay::ActiveZone;
use crate::types::Rect;
#[allow(unused_imports)]
use crate::types::in_i32;

verus! {

/// Byte `k` of a buffer whose rows are `width` pixels long belongs to a pixel
/// that lies in the canvas and in `rect`, and all of that pixel is in the
/// buffer.
pub open spec fn is_painted(len: int, width: int, height: int, rect: Rect, k: int) -> bool {
    let pixel = k / 4;
    &&& width > 0
    &&& pixel / width < height
    &&& rect.covers(pixel % width, pixel / width)
    &&& 4 * pixel + 4 <= len
}

/// Byte `k` of a pixel of the given color: blue, green, red, alpha.
pub open spec fn channel(argb: Seq<u8>, k: int) -> u8 {
    if k % 4 == 0 {
        argb[2]
    } else if k % 4 == 1 {
        argb[1]
    } else if k % 4 == 2 {
        argb[0]
    } else {
        argb[3]
    }
}

/// A buffer after `rect` has been painted into it.
pub open spec fn painted(
    buf: Seq<u8>,
    width: int,
    height: int,
    rect: Rect,
    argb: Seq<u8>,
) -> Seq<u8> {
    Seq::new(
        buf.len(),
        |k: int|
            if is_painted(buf.len() as int, width, height, rect, k) {
                channel(argb, k)
            } else {
                buf[k]
            },
    )
}

pub open spec fn larger(a: int, b: int) -> int {
    if a >= b {
        a
    } else {
        b
    }
}

pub open spec fn smaller(a: int, b: int) -> int {
    if a <= b {
        a
    } else {
        b
    }
}

/// The far edges of `rect` and the byte offset of the last pixel that it paints
/// are within `i32`.
pub open spec fn can_paint(width: int, height: int, rect: Rect) -> bool {
    let x1 = smaller(rect.x + rect.w, width);
    let y1 = smaller(rect.y + rect.h, height);
    &&& in_i32(rect.x + rect.w)
    &&& in_i32(rect.y + rect.h)
    &&& larger(rect.x as int, 0) < x1 && larger(rect.y as int, 0) < y1 ==> ((y1 - 1) * width + x1
        - 1) * 4 <= i32::MAX
}

proof fn lemma_pixel_coordinates(k: int, width: int, x: int, y: int)
    requires
        0 <= x < width,
        0 <= y,
        0 <= k,
    ensures
        (k / 4 == y * width + x) <==> (k / 4 / width == y && k / 4 % width == x),
        ((y * width + x) * 4 <= k < (y * width + x) * 4 + 4) <==> k / 4 == y * width + x,
{
    let pixel = k / 4;
    if pixel == y * width + x {
        vstd::arithmetic::div_mod::lemma_fundamental_div_mod_converse(pixel, width, y, x);
    }
    if pixel / width == y && pixel % width == x {
        vstd::arithmetic::div_mod::lemma_fundamental_div_mod(pixel, width);
        assert(width * y == y * width) by (nonlinear_arith);
    }
}

proof fn lemma_offset_in_range(width: int, x: int, y: int, x1: int, y1: int)
    requires
        0 <= x < x1 <= width,
        0 <= y < y1,
        ((y1 - 1) * width + x1 - 1) * 4 <= i32::MAX,
    ensures
        0 <= y * width,
        0 <= y * width + x,
        0 <= (y * width + x) * 4 <= i32::MAX,
{
    assert(0 <= y * width <= (y1 - 1) * width) by (nonlinear_arith)
        requires
            0 <= y <= y1 - 1,
            0 <= width,
    ;
}

/// Fills the part of `rect` that lies on the canvas with one color. The canvas
/// is `stride_w` by `stride_h` pixels; pixels beyond the end of the buffer are
/// skipped.
pub fn paint_rect(buf: &mut [u8], stride_w: i32, stride_h: i32, rect: Rect, argb: [u8; 4])
    requires
        can_paint(stride_w as int, stride_h as int, rect),
    ensures
        final(buf)@ == painted(old(buf)@, stride_w as int, stride_h as int, rect, argb@),
{
    let x0: i32 = if rect.x > 0 { rect.x } else { 0 };
    let y0: i32 = if rect.y > 0 { rect.y } else { 0 };
    let right: i32 = rect.x + rect.w;
    let bottom: i32 = rect.y + rect.h;
    let x1: i32 = if right < stride_w { right } else { stride_w };
    let y1: i32 = if bottom < stride_h { bottom } else { stride_h };
    let ghost before = buf@;
    let ghost len = buf@.len() as int;
    let ghost width = stride_w as int;
    let ghost height = stride_h as int;
    let mut y: i32 = y0;
    if x0 < x1 {
        while y < y1
            invariant
                0 <= y0 <= y,
                y0 < y1 ==> y <= y1,
                0 <= x0 < x1 <= stride_w,
                y1 <= stride_h,
                width == stride_w,
                height == stride_h,
                y0 < y1 ==> ((y1 - 1) * width + x1 - 1) * 4 <= i32::MAX,
                forall|px: int, py: int| #![trigger rect.covers(px, py)]
                    0 <= px < width && 0 <= py < height ==> (rect.covers(px, py) <==> x0 <= px < x1
                        && y0 <= py < y1),
                buf@.len() == len,
                before.len() == len,
                forall|k: int|
                    0 <= k < len ==> #[trigger] buf@[k] == (if is_painted(
                        len,
                        width,
                        height,
                        rect,
                        k,
                    ) && k / 4 / width < y {
                        channel(argb@, k)
                    } else {
                        before[k]
                    }),
            decreases y1 - y,
        {
            let mut x: i32 = x0;
            while x < x1
                invariant
                    0 <= y0 <= y < y1,
                    0 <= x0 <= x <= x1 <= stride_w,
                    x0 < x1,
                    y1 <= stride_h,
                    width == stride_w,
                    height == stride_h,
                    ((y1 - 1) * width + x1 - 1) * 4 <= i32::MAX,
                    forall|px: int, py: int| #![trigger rect.covers(px, py)]
                        0 <= px < width && 0 <= py < height ==> (rect.covers(px, py) <==> x0 <= px
                            < x1 && y0 <= py < y1),
                    buf@.len() == len,
                    before.len() == len,
                    forall|k: int|
                        0 <= k < len ==> #[trigger] buf@[k] == (if is_painted(
                            len,
                            width,
                            height,
                            rect,
                            k,
                        ) && (k / 4 / width < y || (k / 4 / width == y && k / 4 % width < x)) {
                            channel(argb@, k)
                        } else {
                            before[k]
                        }),
                decreases x1 - x,
            {
                proof {
                    lemma_offset_in_range(width, x as int, y as int, x1 as int, y1 as int);
                }
                let idx: usize = ((y * stride_w + x) * 4) as usize;
                let ghost prior = buf@;
                if idx + 4 <= buf.len() {
                    buf[idx] = argb[2];
                    buf[idx + 1] = argb[1];
                    buf[idx + 2] = argb[0];
                    buf[idx + 3] = argb[3];
                }
                proof {
                    assert forall|k: int| 0 <= k < len implies #[trigger] buf@[k] == (
                    if is_painted(len, width, height, rect, k) && (k / 4 / width < y || (k / 4
                        / width == y && k / 4 % width < x + 1)) {
                        channel(argb@, k)
                    } else {
                        before[k]
                    }) by {
                        lemma_pixel_coordinates(k, width, x as int, y as int);
                        assert(prior[k] == (if is_painted(len, width, height, rect, k) && (k / 4
                            / width < y || (k / 4 / width == y && k / 4 % width < x)) {
                            channel(argb@, k)
                        } else {
                            before[k]
                        }));
                        assert(rect.covers(x as int, y as int));
                    }
                }
                x = x + 1;
            }
            proof {
                assert forall|k: int| 0 <= k < len implies #[trigger] buf@[k] == (if is_painted(
                    len,
                    width,
                    height,
                    rect,
                    k,
                ) && k / 4 / width < y + 1 {
                    channel(argb@, k)
                } else {
                    before[k]
                }) by {
                    if is_painted(len, width, height, rect, k) && k / 4 / width == y {
                        assert(0 <= k / 4 % width < width);
                        assert(rect.covers(k / 4 % width, k / 4 / width));
                    }
                }
            }
            y = y + 1;
        }
    }
    proof {
        assert forall|k: int| 0 <= k < len implies buf@[k] == painted(
            before,
            width,
            height,
            rect,
            argb@,
        )[k] by {
            if is_painted(len, width, height, rect, k) {
                assert(0 <= k / 4 % width < width);
                assert(k / 4 / width < y1);
            }
        }
        assert(buf@ =~= painted(before, width, height, rect, argb@));
    }
}

/// Whether [`paint_rect`] may be asked to paint `rect`.
pub fn paint_in_range(stride_w: i32, stride_h: i32, rect: Rect) -> (ok: bool)
    ensures
        ok == can_paint(stride_w as int, stride_h as int, rect),
{
    let right: i64 = rect.x as i64 + rect.w as i64;
    let bottom: i64 = rect.y as i64 + rect.h as i64;
    if right < i32::MIN as i64 || right > i32::MAX as i64 || bottom < i32::MIN as i64 || bottom
        > i32::MAX as i64 {
        return false;
    }
    let x0: i64 = if rect.x > 0 { rect.x as i64 } else { 0 };
    let y0: i64 = if rect.y > 0 { rect.y as i64 } else { 0 };
    let x1: i64 = if right < stride_w as i64 { right } else { stride_w as i64 };
    let y1: i64 = if bottom < stride_h as i64 { bottom } else { stride_h as i64 };
    if x0 >= x1 || y0 >= y1 {
        return true;
    }
    proof {
        assert(0 <= (y1 - 1) * (stride_w as i64) <= 0x7fff_ffff * 0x7fff_ffff) by (nonlinear_arith)
            requires
                0 <= y1 - 1 <= 0x7fff_ffff,
                0 <= stride_w <= 0x7fff_ffff,
        ;
    }
    let row: i64 = (y1 - 1) * (stride_w as i64);
    row + x1 - 1 <= (i32::MAX / 4) as i64
}

/// The shape of the buffer behind a frame, in physical pixels.
#[derive(Debug, Clone, Copy, PartialEq, Eq, Structural)]
pub struct BufferLayout {
    pub width: i32,
    pub height: i32,
    /// Bytes per row.
    pub stride: i32,
    /// Bytes in all.
    pub size: i32,
    /// Buffer pixels per logical pixel, in either direction.
    pub scale: i32,
}

impl BufferLayout {
    /// The layout of an output of `w` by `h` logical pixels.
    pub open spec fn of(w: int, h: int, scale: int) -> BufferLayout {
        BufferLayout {
            width: (w * scale) as i32,
            height: (h * scale) as i32,
            stride: (w * scale * 4) as i32,
            size: (w * scale * 4 * (h * scale)) as i32,
            scale: scale as i32,
        }
    }

    /// All of the layout's numbers are within `i32`.
    pub open spec fn fits(w: int, h: int, scale: int) -> bool {
        &&& in_i32(w * scale)
        &&& in_i32(h * scale)
        &&& in_i32(w * scale * 4)
        &&& in_i32(w * scale * 4 * (h * scale))
    }

    pub fn new(w: i32, h: i32, scale: i32) -> (layout: BufferLayout)
        requires
            BufferLayout::fits(w as int, h as int, scale as int),
        ensures
            layout == BufferLayout::of(w as int, h as int, scale as int),
    {
        let width: i32 = w * scale;
        let height: i32 = h * scale;
        let stride: i32 = width * 4;
        BufferLayout { width, height, stride, size: stride * height, scale }
    }
}

fn fits_i32(n: i64) -> (ok: bool)
    ensures
        ok == in_i32(n as int),
{
    i32::MIN as i64 <= n && n <= i32::MAX as i64
}

/// The product of two `i32`s, which always fits in an `i64`.
fn wide_product(a: i32, b: i32) -> (n: i64)
    ensures
        n == a * b,
{
    proof {
        assert(-0x4000_0000_0000_0000 <= (a as int) * (b as int) <= 0x4000_0000_0000_0000)
            by (nonlinear_arith)
            requires
                -0x8000_0000 <= a <= 0x7fff_ffff,
                -0x8000_0000 <= b <= 0x7fff_ffff,
        ;
    }
    (a as i64) * (b as i64)
}

/// Whether the product of two `i32`s is an `i32`.
pub fn product_in_range(a: i32, b: i32) -> (ok: bool)
    ensures
        ok == in_i32(a * b),
{
    fits_i32(wide_product(a, b))
}

/// Whether [`BufferLayout::new`] may be called.
pub fn layout_in_range(w: i32, h: i32, scale: i32) -> (ok: bool)
    ensures
        ok == BufferLayout::fits(w as int, h as int, scale as int),
{
    let width: i64 = wide_product(w, scale);
    let height: i64 = wide_product(h, scale);
    if !fits_i32(width) || !fits_i32(height) {
        return false;
    }
    let stride: i64 = wide_product(width as i32, 4);
    if !fits_i32(stride) {
        return false;
    }
    fits_i32(wide_product(stride as i32, height as i32))
}

/// A logical rectangle in buffer pixels.
pub open spec fn scaled(rect: Rect, scale: int) -> Rect {
    Rect {
        x: (rect.x * scale) as i32,
        y: (rect.y * scale) as i32,
        w: (rect.w * scale) as i32,
        h: (rect.h * scale) as i32,
    }
}

/// A logical rectangle scales to `i32` coordinates and can then be painted.
pub open spec fn can_paint_scaled(layout: BufferLayout, rect: Rect) -> bool {
    &&& in_i32(rect.x * layout.scale)
    &&& in_i32(rect.y * layout.scale)
    &&& in_i32(rect.w * layout.scale)
    &&& in_i32(rect.h * layout.scale)
    &&& can_paint(layout.width as int, layout.height as int, scaled(rect, layout.scale as int))
}

/// Every zone can be painted.
pub open spec fn can_render(layout: BufferLayout, zones: Seq<ActiveZone>) -> bool {
    forall|i: int|
        0 <= i < zones.len() ==> can_paint_scaled(layout, (#[trigger] zones[i]).area())
}

/// A frame of `len` bytes: transparent, with the zones painted over it in
/// order.
pub open spec fn rendered(layout: BufferLayout, zones: Seq<ActiveZone>, len: nat) -> Seq<u8>
    decreases zones.len(),
{
    if zones.len() == 0 {
        Seq::new(len, |k: int| 0u8)
    } else {
        painted(
            rendered(layout, zones.drop_last(), len),
            layout.width as int,
            layout.height as int,
            scaled(zones.last().area(), layout.scale as int),
            zones.last().color(),
        )
    }
}

/// Renders the zones into a buffer, whatever the buffer held before.
pub fn render(layout: BufferLayout, zones: &[ActiveZone], buf: &mut [u8])
    requires
        can_render(layout, zones@),
    ensures
        final(buf)@ == rendered(layout, zones@, old(buf)@.len()),
{
    let ghost len = buf@.len();
    let mut k: usize = 0;
    while k < buf.len()
        invariant
            buf@.len() == len,
            k <= len,
            forall|j: int| 0 <= j < k ==> #[trigger] buf@[j] == 0u8,
        decreases len - k,
    {
        buf[k] = 0;
        k = k + 1;
    }
    let mut i: usize = 0;
    proof {
        assert(zones@.take(0) =~= Seq::<ActiveZone>::empty());
        assert(buf@ =~= rendered(layout, zones@.take(0), len));
    }
    while i < zones.len()
        invariant
            i <= zones.len(),
            can_render(layout, zones@),
            buf@ == rendered(layout, zones@.take(i as int), len),
        decreases zones.len() - i,
    {
        let rect: Rect = zones[i].rect();
        assert(can_paint_scaled(layout, zones@[i as int].area()));
        let target: Rect = Rect {
            x: rect.x * layout.scale,
            y: rect.y * layout.scale,
            w: rect.w * layout.scale,
            h: rect.h * layout.scale,
        };
        paint_rect(buf, layout.width, layout.height, target, zones[i].argb());
        proof {
            assert(zones@.take(i + 1).drop_last() =~= zones@.take(i as int));
            assert(zones@.take(i + 1).last() == zones@[i as int]);
        }
        i = i + 1;
    }
    proof {
        assert(zones@.take(i as int) =~= zones@);
    }
}

/// Whether [`render`] may be asked to render these zones.
pub fn render_in_range(layout: BufferLayout, zones: &[ActiveZone]) -> (ok: bool)
    ensures
        ok == can_render(layout, zones@),
{
    let mut i: usize = 0;
    while i < zones.len()
        invariant
            i <= zones.len(),
            forall|j: int|
                0 <= j < i ==> can_paint_scaled(layout, (#[trigger] zones@[j]).area()),
        decreases zones.len() - i,
    {
        let rect: Rect = zones[i].rect();
        let x: i64 = wide_product(rect.x, layout.scale);
        let y: i64 = wide_product(rect.y, layout.scale);
        let w: i64 = wide_product(rect.w, layout.scale);
        let h: i64 = wide_product(rect.h, layout.scale);
        if !fits_i32(x) || !fits_i32(y) || !fits_i32(w) || !fits_i32(h) {
            assert(!can_paint_scaled(layout, zones@[i as int].area()));
            return false;
        }
        let target: Rect = Rect { x: x as i32, y: y as i32, w: w as i32, h: h as i32 };
        if !paint_in_range(layout.width, layout.height, target) {
            assert(!can_paint_scaled(layout, zones@[i as int].area()));
            return false;
        }
        i = i + 1;
    }
    true
}

/// Byte `k` of the frame belongs to zone `i`'s rectangle.
pub open spec fn zone_paints(
    layout: BufferLayout,
    zones: Seq<ActiveZone>,
    len: nat,
    i: int,
    k: int,
) -> bool {
    &&& 0 <= i < zones.len()
    &&& is_painted(
        len as int,
        layout.width as int,
        layout.height as int,
        scaled(zones[i].area(), layout.scale as int),
        k,
    )
}

/// The topmost zone shows: a byte has the color of the last zone that paints
/// it.
pub proof fn law_topmost_zone_shows(
    layout: BufferLayout,
    zones: Seq<ActiveZone>,
    len: nat,
    i: int,
    k: int,
)
    requires
        0 <= k < len,
        zone_paints(layout, zones, len, i, k),
        forall|j: int| i < j ==> !#[trigger] zone_paints(layout, zones, len, j, k),
    ensures
        rendered(layout, zones, len)[k] == channel(zones[i].color(), k),
    decreases zones.len(),
{
    lemma_rendered_len(layout, zones.drop_last(), len);
    if i < zones.len() - 1 {
        assert(!zone_paints(layout, zones, len, zones.len() - 1, k));
        assert(zones.drop_last()[i] == zones[i]);
        assert forall|j: int| i < j implies !#[trigger] zone_paints(
            layout,
            zones.drop_last(),
            len,
            j,
            k,
        ) by {
            assert(!zone_paints(layout, zones, len, j, k));
        }
        law_topmost_zone_shows(layout, zones.drop_last(), len, i, k);
    }
}

/// What no zone paints stays transparent.
pub proof fn law_unclaimed_pixel_is_transparent(
    layout: BufferLayout,
    zones: Seq<ActiveZone>,
    len: nat,
    k: int,
)
    requires
        0 <= k < len,
        forall|j: int| !#[trigger] zone_paints(layout, zones, len, j, k),
    ensures
        rendered(layout, zones, len)[k] == 0,
    decreases zones.len(),
{
    if zones.len() > 0 {
        lemma_rendered_len(layout, zones.drop_last(), len);
        assert(!zone_paints(layout, zones, len, zones.len() - 1, k));
        assert forall|j: int| !#[trigger] zone_paints(layout, zones.drop_last(), len, j, k) by {
            assert(!zone_paints(layout, zones, len, j, k));
        }
        law_unclaimed_pixel_is_transparent(layout, zones.drop_last(), len, k);
    }
}

proof fn lemma_rendered_len(layout: BufferLayout, zones: Seq<ActiveZone>, len: nat)
    ensures
        rendered(layout, zones, len).len() == len,
    decreases zones.len(),
{
    if zones.len() > 0 {
        lemma_rendered_len(layout, zones.drop_last(), len);
    }
}

/// Drawing and input agree on any density: a buffer pixel lies in a scaled
/// rectangle exactly when the logical pixel that it is part of lies in the
/// rectangle itself.
pub proof fn law_drawing_matches_input(rect: Rect, scale: int, px: int, py: int)
    requires
        scale >= 1,
        in_i32(rect.x * scale),
        in_i32(rect.y * scale),
        in_i32(rect.w * scale),
        in_i32(rect.h * scale),
    ensures
        scaled(rect, scale).covers(px, py) <==> rect.covers(px / scale, py / scale),
{
    lemma_scaled_interval(rect.x as int, rect.w as int, scale, px);
    lemma_scaled_interval(rect.y as int, rect.h as int, scale, py);
}

proof fn lemma_scaled_interval(start: int, extent: int, scale: int, p: int)
    requires
        scale >= 1,
    ensures
        (start * scale <= p < start * scale + extent * scale) <==> (start <= p / scale < start
            + extent),
{
    let q = p / scale;
    vstd::arithmetic::div_mod::lemma_fundamental_div_mod(p, scale);
    let r = p % scale;
    assert(p == scale * q + r);
    assert(start * scale <= p <==> start <= q) by (nonlinear_arith)
        requires
            p == scale * q + r,
            0 <= r < scale,
    ;
    let end = start + extent;
    assert(p < end * scale <==> q < end) by (nonlinear_arith)
        requires
            p == scale * q + r,
            0 <= r < scale,
    ;
    assert(end * scale == start * scale + extent * scale) by (nonlinear_arith)
        requires
            end == start + extent,
    ;
}

/// Painting sets the four bytes of each pixel on the canvas that lies in the
/// rectangle, blue first, then green, red and alpha, and leaves the other pixels
/// as they were.
pub proof fn law_painted_pixel(
    buf: Seq<u8>,
    width: int,
    height: int,
    rect: Rect,
    argb: Seq<u8>,
    x: int,
    y: int,
)
    requires
        0 <= x < width,
        0 <= y < height,
        (y * width + x) * 4 + 4 <= buf.len(),
    ensures
        ({
            let after = painted(buf, width, height, rect, argb);
            let at = (y * width + x) * 4;
            let inside = rect.x <= x < rect.x + rect.w && rect.y <= y < rect.y + rect.h;
            &&& after.len() == buf.len()
            &&& after[at] == if inside { argb[2] } else { buf[at] }
            &&& after[at + 1] == if inside { argb[1] } else { buf[at + 1] }
            &&& after[at + 2] == if inside { argb[0] } else { buf[at + 2] }
            &&& after[at + 3] == if inside { argb[3] } else { buf[at + 3] }
        }),
{
    let at = (y * width + x) * 4;
    assert(0 <= y * width) by (nonlinear_arith)
        requires
            0 <= y,
            0 < width,
    ;
    lemma_pixel_coordinates(at, width, x, y);
    lemma_pixel_coordinates(at + 1, width, x, y);
    lemma_pixel_coordinates(at + 2, width, x, y);
    lemma_pixel_coordinates(at + 3, width, x, y);
}

/// Painting changes nothing below the canvas, nothing of a pixel that the buffer
/// only holds a part of, and nothing at all on a canvas without width.
pub proof fn law_painting_stays_on_canvas(
    buf: Seq<u8>,
    width: int,
    height: int,
    rect: Rect,
    argb: Seq<u8>,
    k: int,
)
    requires
        0 <= k < buf.len(),
        width <= 0 || k / 4 >= width * height || k / 4 * 4 + 4 > buf.len(),
    ensures
        painted(buf, width, height, rect, argb)[k] == buf[k],
{
    if width > 0 && k / 4 >= width * height && k / 4 / width < height {
        vstd::arithmetic::div_mod::lemma_fundamental_div_mod(k / 4, width);
        let q = k / 4 / width;
        let r = k / 4 % width;
        assert(width * q + r < width * height) by (nonlinear_arith)
            requires
                q + 1 <= height,
                r < width,
                0 < width,
        ;
    }
}

proof fn lemma_zone_paints_pixel(
    w: int,
    h: int,
    scale: int,
    zones: Seq<ActiveZone>,
    len: nat,
    i: int,
    x: int,
    y: int,
    c: int,
)
    requires
        scale >= 1,
        BufferLayout::fits(w, h, scale),
        in_i32(scale),
        can_render(BufferLayout::of(w, h, scale), zones),
        0 <= x < w * scale,
        0 <= y < h * scale,
        0 <= c < 4,
        (y * (w * scale) + x) * 4 + 4 <= len,
        0 <= i < zones.len(),
    ensures
        0 <= (y * (w * scale) + x) * 4,
        ((y * (w * scale) + x) * 4 + c) % 4 == c,
        zone_paints(
            BufferLayout::of(w, h, scale),
            zones,
            len,
            i,
            (y * (w * scale) + x) * 4 + c,
        ) <==> zones[i].area().covers(x / scale, y / scale),
{
    let layout = BufferLayout::of(w, h, scale);
    let width = w * scale;
    let k = (y * width + x) * 4 + c;
    assert(0 <= y * width) by (nonlinear_arith)
        requires
            0 <= y,
            0 < width,
    ;
    lemma_pixel_coordinates(k, width, x, y);
    assert(can_paint_scaled(layout, zones[i].area()));
    law_drawing_matches_input(zones[i].area(), scale, x, y);
}

/// A physical pixel shows the last zone that claims the logical pixel it is part
/// of: gray for the original place of a moved widget, blue for its new one.
pub proof fn law_frame_shows_last_zone(
    w: int,
    h: int,
    scale: int,
    zones: Seq<ActiveZone>,
    len: nat,
    i: int,
    x: int,
    y: int,
)
    requires
        scale >= 1,
        in_i32(scale),
        BufferLayout::fits(w, h, scale),
        can_render(BufferLayout::of(w, h, scale), zones),
        0 <= x < w * scale,
        0 <= y < h * scale,
        (y * (w * scale) + x) * 4 + 4 <= len,
        0 <= i < zones.len(),
        ({
            let rect = match zones[i] {
                ActiveZone::Mask(rect) => rect,
                ActiveZone::Relocated { visible_at, .. } => visible_at,
            };
            &&& rect.x <= x / scale < rect.x + rect.w
            &&& rect.y <= y / scale < rect.y + rect.h
        }),
        forall|j: int|
            i < j < zones.len() ==> {
                let rect = match #[trigger] zones[j] {
                    ActiveZone::Mask(rect) => rect,
                    ActiveZone::Relocated { visible_at, .. } => visible_at,
                };
                !(rect.x <= x / scale < rect.x + rect.w && rect.y <= y / scale < rect.y + rect.h)
            },
    ensures
        ({
            let frame = rendered(BufferLayout::of(w, h, scale), zones, len);
            let at = (y * (w * scale) + x) * 4;
            let pixel = (frame[at], frame[at + 1], frame[at + 2], frame[at + 3]);
            if zones[i] is Mask {
                pixel == (180u8, 180u8, 180u8, 235u8)
            } else {
                pixel == (220u8, 130u8, 60u8, 255u8)
            }
        }),
{
    let layout = BufferLayout::of(w, h, scale);
    let at = (y * (w * scale) + x) * 4;
    assert forall|c: int| 0 <= c < 4 implies rendered(layout, zones, len)[#[trigger] (at + c)]
        == channel(zones[i].color(), c) by {
        lemma_zone_paints_pixel(w, h, scale, zones, len, i, x, y, c);
        assert forall|j: int| i < j implies !#[trigger] zone_paints(
            layout,
            zones,
            len,
            j,
            at + c,
        ) by {
            if j < zones.len() {
                lemma_zone_paints_pixel(w, h, scale, zones, len, j, x, y, c);
                let zone = zones[j];
            }
        }
        law_topmost_zone_shows(layout, zones, len, i, at + c);
    }
    assert(rendered(layout, zones, len)[at + 0] == channel(zones[i].color(), 0));
    assert(rendered(layout, zones, len)[at + 1] == channel(zones[i].color(), 1));
    assert(rendered(layout, zones, len)[at + 2] == channel(zones[i].color(), 2));
    assert(rendered(layout, zones, len)[at + 3] == channel(zones[i].color(), 3));
}

/// A physical pixel whose logical pixel no zone claims is fully transparent.
pub proof fn law_frame_is_clear_elsewhere(
    w: int,
    h: int,
    scale: int,
    zones: Seq<ActiveZone>,
    len: nat,
    x: int,
    y: int,
    c: int,
)
    requires
        scale >= 1,
        in_i32(scale),
        BufferLayout::fits(w, h, scale),
        can_render(BufferLayout::of(w, h, scale), zones),
        0 <= x < w * scale,
        0 <= y < h * scale,
        0 <= c < 4,
        (y * (w * scale) + x) * 4 + 4 <= len,
        forall|j: int|
            0 <= j < zones.len() ==> {
                let rect = match #[trigger] zones[j] {
                    ActiveZone::Mask(rect) => rect,
                    ActiveZone::Relocated { visible_at, .. } => visible_at,
                };
                !(rect.x <= x / scale < rect.x + rect.w && rect.y <= y / scale < rect.y + rect.h)
            },
    ensures
        rendered(BufferLayout::of(w, h, scale), zones, len)[(y * (w * scale) + x) * 4 + c] == 0,
{
    let layout = BufferLayout::of(w, h, scale);
    let k = (y * (w * scale) + x) * 4 + c;
    assert(0 <= y * (w * scale)) by (nonlinear_arith)
        requires
            0 <= y,
            0 < w * scale,
    ;
    assert forall|j: int| !#[trigger] zone_paints(layout, zones, len, j, k) by {
        if 0 <= j < zones.len() {
            lemma_zone_paints_pixel(w, h, scale, zones, len, j, x, y, c);
            let zone = zones[j];
        }
    }
    law_unclaimed_pixel_is_transparent(layout, zones, len, k);
}

/// The layout of an output: its size in physical pixels, four bytes for each.
pub proof fn law_layout_has_four_bytes_per_pixel(w: int, h: int, scale: int)
    requires
        BufferLayout::fits(w, h, scale),
        in_i32(scale),
    ensures
        ({
            let layout = BufferLayout::of(w, h, scale);
            &&& layout.scale == scale
            &&& layout.width == w * scale
            &&& layout.height == h * scale
            &&& layout.stride == 4 * layout.width
            &&& layout.size == layout.stride * layout.height
        }),
{
}

/// On a canvas whose bytes can be counted in 32 bits, any rectangle with 32-bit
/// edges can be painted.
pub proof fn law_representable_rect_is_paintable(width: int, height: int, rect: Rect)
    requires
        width * height * 4 <= 0x7fff_ffff,
        -0x8000_0000 <= rect.x + rect.w <= 0x7fff_ffff,
        -0x8000_0000 <= rect.y + rect.h <= 0x7fff_ffff,
    ensures
        can_paint(width, height, rect),
{
    let x1 = smaller(rect.x + rect.w, width);
    let y1 = smaller(rect.y + rect.h, height);
    if larger(rect.x as int, 0) < x1 && larger(rect.y as int, 0) < y1 {
        assert((y1 - 1) * width + x1 - 1 < width * height) by (nonlinear_arith)
            requires
                0 < x1 <= width,
                0 < y1 <= height,
        ;
    }
}

} // verus!
