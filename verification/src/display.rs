//! The Qube dongle's status screen: which rows need repainting, the stripe
//! framebuffer the UI is drawn into, the screen's event handling, and what
//! the battery gauges, clock and agent grid show.

use vstd::prelude::*;

use crate::battery::{BatteryStatus, BleStatus};
use crate::clock::{elapsed_ms, since};
use crate::host_data::{AgentSummary, HostData, HostDataView, host_data_eq};

use embedded_graphics::geometry::{Point, Size};
use embedded_graphics::primitives::Rectangle;

verus! {

/// Full landscape frame (after rotating the 240x280 panel).
pub const SCREEN_W: usize = 280;
pub const SCREEN_H: usize = 240;
/// Rows per stripe: 280 x 48 x 2 bytes stays under the 64 KiB DMA limit.
pub const STRIPE_H: usize = 48;
pub const STRIPE_BYTES: usize = 26880;
/// The UI is drawn shifted right by this many pixels.
pub const UI_X_OFFSET: i32 = 5;

/// Rows of the screen that need repainting.
#[derive(Clone, Copy, Debug, PartialEq, Eq, Structural)]
pub enum DirtyRegion {
    Full,
    /// Rows `y0..y1`.
    Range { y0: u16, y1: u16 },
}

/// The header band (clock and layer name).
pub open spec fn header_dirty() -> DirtyRegion {
    DirtyRegion::Range { y0: 12, y1: 44 }
}

/// The body band (agent grid and battery gauges).
pub open spec fn body_dirty() -> DirtyRegion {
    DirtyRegion::Range { y0: 48, y1: 234 }
}

pub open spec fn spec_union(a: DirtyRegion, b: DirtyRegion) -> DirtyRegion {
    match (a, b) {
        (DirtyRegion::Range { y0: a0, y1: a1 }, DirtyRegion::Range { y0: b0, y1: b1 }) => DirtyRegion::Range {
            y0: if a0 <= b0 { a0 } else { b0 },
            y1: if a1 >= b1 { a1 } else { b1 },
        },
        _ => DirtyRegion::Full,
    }
}

/// Whether row `y` of the screen is to be repainted.
pub open spec fn covers(d: DirtyRegion, y: int) -> bool {
    match d {
        DirtyRegion::Full => 0 <= y < SCREEN_H,
        DirtyRegion::Range { y0, y1 } => y0 <= y < y1,
    }
}

impl DirtyRegion {
    /// Rows `y0..y1`.
    pub fn range(y0: u16, y1: u16) -> (d: DirtyRegion)
        ensures
            d == (DirtyRegion::Range { y0, y1 }),
    {
        DirtyRegion::Range { y0, y1 }
    }

    /// A region covering both: the whole screen if either is, else the span
    /// from the lower start to the higher end.
    pub fn union(self, other: DirtyRegion) -> (d: DirtyRegion)
        ensures
            d == spec_union(self, other),
    {
        match (self, other) {
            (DirtyRegion::Range { y0: a0, y1: a1 }, DirtyRegion::Range { y0: b0, y1: b1 }) => DirtyRegion::Range {
                y0: if a0 <= b0 {
                    a0
                } else {
                    b0
                },
                y1: if a1 >= b1 {
                    a1
                } else {
                    b1
                },
            },
            _ => DirtyRegion::Full,
        }
    }
}

pub fn header_dirty_region() -> (d: DirtyRegion)
    ensures
        d == header_dirty(),
{
    DirtyRegion::range(12, 44)
}

pub fn body_dirty_region() -> (d: DirtyRegion)
    ensures
        d == body_dirty(),
{
    DirtyRegion::range(48, 234)
}

/// The rows `(y0, y1)` a present repaints: the region clamped to the screen.
pub open spec fn present_rows(d: DirtyRegion) -> (u16, u16) {
    match d {
        DirtyRegion::Full => (0, SCREEN_H as u16),
        DirtyRegion::Range { y0, y1 } => (
            if y0 < SCREEN_H as u16 { y0 } else { SCREEN_H as u16 },
            if y1 < SCREEN_H as u16 { y1 } else { SCREEN_H as u16 },
        ),
    }
}

/// The stripes `(top, height)` a present draws and sends: from the first
/// repainted row, 48 rows at a time, the last one cut at the region's end.
pub open spec fn spec_present_bands(d: DirtyRegion) -> Seq<(u16, u16)> {
    let (y0, y1) = present_rows(d);
    let n = if y0 < y1 { (y1 - y0 + 47) / 48 } else { 0 };
    Seq::new(
        n as nat,
        |i: int|
            {
                let top = y0 + 48 * i;
                ((top) as u16, (if y1 - top < 48 { y1 - top } else { 48 }) as u16)
            },
    )
}

/// The stripes a present of `dirty` draws and sends.
pub fn present_bands(dirty: DirtyRegion) -> (bands: Vec<(u16, u16)>)
    ensures
        bands@ == spec_present_bands(dirty),
{
    let (y0, y1): (u16, u16) = match dirty {
        DirtyRegion::Full => (0, SCREEN_H as u16),
        DirtyRegion::Range { y0, y1 } => (
            if y0 < SCREEN_H as u16 {
                y0
            } else {
                SCREEN_H as u16
            },
            if y1 < SCREEN_H as u16 {
                y1
            } else {
                SCREEN_H as u16
            },
        ),
    };
    let ghost want = spec_present_bands(dirty);
    let mut bands: Vec<(u16, u16)> = Vec::new();
    let mut y: u16 = y0;
    let mut i: usize = 0;
    while y < y1
        invariant
            (y0, y1) == present_rows(dirty),
            y1 <= SCREEN_H,
            y0 <= y <= if y0 < y1 { y1 } else { y0 },
            y == y0 + 48 * i || y == y1,
            y < y1 ==> y == y0 + 48 * i,
            i == bands@.len(),
            want == spec_present_bands(dirty),
            bands@ =~= want.take(i as int),
            y == y1 ==> i == want.len(),
            y < y1 ==> i < want.len(),
        decreases y1 - y,
    {
        let remaining = y1 - y;
        let h = if remaining < 48 {
            remaining
        } else {
            48
        };
        bands.push((y, h));
        y = y + h;
        i = i + 1;
        proof {
            if y < y1 {
                assert(y == y0 + 48 * i);
                assert(i < want.len()) by {
                    assert(y1 - y0 > 48 * i);
                }
            } else {
                assert(i == want.len());
            }
        }
    }
    proof {
        if y0 >= y1 {
            assert(want.len() == 0);
        }
    }
    assert(bands@ =~= want);
    bands
}


/// A 280 x 48 window into the screen that the UI is drawn into, one stripe at
/// a time, as big-endian RGB565 pixels.
pub struct StripeBuffer {
    buffer: Vec<u8>,
    band_y: u16,
    band_h: u16,
}

impl StripeBuffer {
    pub closed spec fn bytes(&self) -> Seq<u8> {
        self.buffer@
    }

    /// First screen row of the active stripe.
    pub closed spec fn band_y(&self) -> u16 {
        self.band_y
    }

    /// Rows in the active stripe (at most 48; the last stripe may be shorter).
    pub closed spec fn band_h(&self) -> u16 {
        self.band_h
    }

    /// The buffer holds 48 rows of 280 two-byte pixels and the active stripe
    /// is at most 48 rows high.
    pub open spec fn wf(&self) -> bool {
        self.bytes().len() == STRIPE_BYTES && self.band_h() <= STRIPE_H
    }

    /// A black stripe at the top of the screen.
    pub fn new() -> (s: StripeBuffer)
        ensures
            s.wf(),
            s.bytes() == Seq::new(STRIPE_BYTES as nat, |i: int| 0u8),
            s.band_y() == 0,
            s.band_h() == STRIPE_H,
    {
        let mut buffer: Vec<u8> = Vec::new();
        let mut i: usize = 0;
        while i < STRIPE_BYTES
            invariant
                i <= STRIPE_BYTES,
                buffer@ =~= Seq::new(i as nat, |j: int| 0u8),
            decreases STRIPE_BYTES - i,
        {
            buffer.push(0);
            i = i + 1;
        }
        StripeBuffer { buffer, band_y: 0, band_h: STRIPE_H as u16 }
    }

    /// The stripe's pixel bytes, to send to the panel.
    pub fn as_slice(&self) -> (bytes: &[u8])
        ensures
            bytes@ == self.bytes(),
    {
        self.buffer.as_slice()
    }

    /// The bytes of the active stripe's rows, as sent to the panel.
    pub fn band_bytes(&self) -> (bytes: &[u8])
        requires
            self.wf(),
        ensures
            bytes@ == self.bytes().take(self.band_h() * SCREEN_W * 2),
    {
        let n = (self.band_h as usize) * SCREEN_W * 2;
        &self.buffer.as_slice()[0..n]
    }

    /// Makes rows `y..y + h` (at most 48 of them) the active stripe.
    pub fn set_band(&mut self, y: u16, h: u16)
        requires
            old(self).wf(),
        ensures
            final(self).wf(),
            final(self).bytes() == old(self).bytes(),
            final(self).band_y() == y,
            final(self).band_h() == (if h < STRIPE_H as u16 { h } else { STRIPE_H as u16 }),
    {
        self.band_y = y;
        self.band_h = if h < STRIPE_H as u16 {
            h
        } else {
            STRIPE_H as u16
        };
    }

    /// Fills the whole stripe with `color`.
    pub fn clear_stripe(&mut self, color: u16)
        requires
            old(self).wf(),
        ensures
            final(self).wf(),
            final(self).band_y() == old(self).band_y(),
            final(self).band_h() == old(self).band_h(),
            final(self).bytes() == spec_solid_stripe(color),
    {
        let hi = (color / 256) as u8;
        let lo = (color % 256) as u8;
        let mut i: usize = 0;
        while i < STRIPE_BYTES
            invariant
                i <= STRIPE_BYTES,
                i % 2 == 0,
                self.buffer@.len() == STRIPE_BYTES,
                self.band_h <= STRIPE_H,
                self.band_y == old(self).band_y,
                self.band_h == old(self).band_h,
                forall|j: int|
                    0 <= j < i ==> self.buffer@[j] == (if j % 2 == 0 {
                        hi
                    } else {
                        lo
                    }),
            decreases STRIPE_BYTES - i,
        {
            self.buffer.set(i, hi);
            self.buffer.set(i + 1, lo);
            i = i + 2;
        }
        assert(self.buffer@ =~= spec_solid_stripe(color));
    }

    /// Sets the pixel at screen point (x, y), shifted right by
    /// [`UI_X_OFFSET`], if it falls inside the screen and the active stripe.
    pub fn put_pixel(&mut self, x: i32, y: i32, color: u16)
        requires
            old(self).wf(),
            x <= i32::MAX - UI_X_OFFSET,
        ensures
            final(self).wf(),
            final(self).band_y() == old(self).band_y(),
            final(self).band_h() == old(self).band_h(),
            final(self).bytes() == spec_put_pixel(
                old(self).bytes(),
                old(self).band_y(),
                old(self).band_h(),
                x as int,
                y as int,
                color,
            ),
    {
        let x = x + UI_X_OFFSET;
        if x < 0 || y < 0 {
            return;
        }
        let x = x as u32;
        let y = y as u32;
        if x >= SCREEN_W as u32 {
            return;
        }
        let by = self.band_y as u32;
        let bh = self.band_h as u32;
        if y < by || y >= by + bh {
            return;
        }
        let ly = (y - by) as usize;
        let lx = x as usize;
        let off = (ly * SCREEN_W + lx) * 2;
        if off + 1 >= self.buffer.len() {
            return;
        }
        self.buffer.set(off, (color / 256) as u8);
        self.buffer.set(off + 1, (color % 256) as u8);
    }

    /// Fills the part of `area` (screen coordinates) that lies in the active
    /// stripe with `color`. When that part is the whole stripe, the whole
    /// buffer is filled at once; otherwise pixel by pixel, shifted right by
    /// [`UI_X_OFFSET`] like every other pixel.
    pub fn fill_solid(&mut self, area: Rect, color: u16)
        requires
            old(self).wf(),
            rect_fits(area),
        ensures
            final(self).wf(),
            final(self).band_y() == old(self).band_y(),
            final(self).band_h() == old(self).band_h(),
            final(self).bytes() == spec_fill_solid(
                old(self).bytes(),
                old(self).band_y(),
                old(self).band_h(),
                area,
                color,
            ),
    {
        let by = self.band_y;
        let bh = self.band_h;
        let band = Rect { x: 0, y: by as i32, w: SCREEN_W as u32, h: bh as u32 };
        let isect = rect_intersection(area, band);
        if isect.w == 0 || isect.h == 0 {
            return;
        }
        if isect.x == 0 && isect.w == SCREEN_W as u32 && isect.y == by as i32 && isect.h == bh as u32 {
            self.clear_stripe(color);
            return;
        }
        let ghost bytes0 = self.buffer@;
        let x0 = isect.x;
        let y0 = isect.y;
        let x1 = x0 + isect.w as i32;
        let y1 = y0 + isect.h as i32;
        let mut y = y0;
        proof {
            assert(bytes0 =~= spec_fill_partial(bytes0, by, bh, color, isect, y0 as int, x0 as int));
        }
        while y < y1
            invariant
                self.wf(),
                self.band_y == by,
                self.band_h == bh,
                bytes0.len() == STRIPE_BYTES,
                isect == spec_overlap(area, band),
                band == (Rect { x: 0, y: by as i32, w: SCREEN_W as u32, h: bh as u32 }),
                0 <= x0 < x1 <= SCREEN_W,
                by <= y0 < y1 <= by + bh,
                x0 == isect.x,
                y0 == isect.y,
                x1 == isect.x + isect.w,
                y1 == isect.y + isect.h,
                y0 <= y <= y1,
                self.buffer@ == spec_fill_partial(bytes0, by, bh, color, isect, y as int, x0 as int),
            decreases y1 - y,
        {
            let mut x = x0;
            while x < x1
                invariant
                    self.wf(),
                    self.band_y == by,
                    self.band_h == bh,
                    bytes0.len() == STRIPE_BYTES,
                    0 <= x0 < x1 <= SCREEN_W,
                    by <= y0 < y1 <= by + bh,
                    x0 == isect.x,
                    y0 == isect.y,
                    x1 == isect.x + isect.w,
                    y1 == isect.y + isect.h,
                    y0 <= y < y1,
                    x0 <= x <= x1,
                    self.buffer@ == spec_fill_partial(bytes0, by, bh, color, isect, y as int, x as int),
                decreases x1 - x,
            {
                proof {
                    lemma_fill_step(bytes0, by, bh, color, isect, y as int, x as int);
                }
                self.put_pixel(x, y, color);
                x = x + 1;
            }
            proof {
                assert(spec_fill_partial(bytes0, by, bh, color, isect, y as int, x1 as int) =~= spec_fill_partial(
                    bytes0,
                    by,
                    bh,
                    color,
                    isect,
                    y + 1,
                    x0 as int,
                ));
            }
            y = y + 1;
        }
        proof {
            assert(self.buffer@ =~= spec_fill_rect(bytes0, by, bh, isect, color));
        }
    }
}

/// The whole stripe buffer in one colour, big-endian.
pub open spec fn spec_solid_stripe(color: u16) -> Seq<u8> {
    Seq::new(
        STRIPE_BYTES as nat,
        |i: int|
            if i % 2 == 0 {
                (color / 256) as u8
            } else {
                (color % 256) as u8
            },
    )
}

/// A rectangle of the screen: its top-left corner and size.
#[derive(Clone, Copy, Debug, PartialEq, Eq, Structural)]
pub struct Rect {
    pub x: i32,
    pub y: i32,
    pub w: u32,
    pub h: u32,
}

pub open spec fn is_empty(r: Rect) -> bool {
    r.w == 0 || r.h == 0
}

/// A non-empty rectangle's far edges are representable.
pub open spec fn rect_fits(r: Rect) -> bool {
    is_empty(r) || (r.w <= i32::MAX && r.h <= i32::MAX && r.x + r.w <= i32::MAX && r.y + r.h <= i32::MAX)
}

/// Whether (col, row) lies in `r`.
pub open spec fn in_rect(r: Rect, col: int, row: int) -> bool {
    r.x <= col < r.x + r.w && r.y <= row < r.y + r.h
}

/// The common part of two non-empty rectangles, or the zero rectangle at the
/// origin when they do not meet.
pub open spec fn spec_overlap(a: Rect, b: Rect) -> Rect {
    let x0 = if a.x >= b.x { a.x as int } else { b.x as int };
    let y0 = if a.y >= b.y { a.y as int } else { b.y as int };
    let x1 = if a.x + a.w <= b.x + b.w { a.x + a.w } else { b.x + b.w };
    let y1 = if a.y + a.h <= b.y + b.h { a.y + a.h } else { b.y + b.h };
    if x0 < x1 && y0 < y1 {
        Rect { x: x0 as i32, y: y0 as i32, w: (x1 - x0) as u32, h: (y1 - y0) as u32 }
    } else {
        Rect { x: 0, y: 0, w: 0, h: 0 }
    }
}

/// `embedded_graphics::primitives::Rectangle::intersection` of `a` with `b`:
/// for two non-empty rectangles, their common part, or the zero rectangle at
/// the origin when they do not meet; when either is empty, an empty rectangle
/// (which one is not stated).
#[verifier::external_body]
fn rect_intersection(a: Rect, b: Rect) -> (r: Rect)
    requires
        rect_fits(a),
        rect_fits(b),
    ensures
        !is_empty(a) && !is_empty(b) ==> r == spec_overlap(a, b),
        is_empty(a) || is_empty(b) ==> is_empty(r),
{
    let ra = Rectangle::new(Point::new(a.x, a.y), Size::new(a.w, a.h));
    let rb = Rectangle::new(Point::new(b.x, b.y), Size::new(b.w, b.h));
    let r = ra.intersection(&rb);
    Rect { x: r.top_left.x, y: r.top_left.y, w: r.size.width, h: r.size.height }
}

/// Pixels of `r` already painted when the fill has reached row `row_end`,
/// column `col_end`.
pub open spec fn fill_done(r: Rect, row_end: int, col_end: int, col: int, row: int) -> bool {
    (r.y <= row < row_end && r.x <= col < r.x + r.w) || (row == row_end && r.x <= col < col_end)
}

/// The stripe with the pixels that `fill_done` selects painted: a pixel at
/// buffer column `c`, stripe row `ly` is screen point (c - 5, band_y + ly).
pub open spec fn spec_fill_partial(
    bytes: Seq<u8>,
    band_y: u16,
    band_h: u16,
    color: u16,
    r: Rect,
    row_end: int,
    col_end: int,
) -> Seq<u8> {
    Seq::new(
        bytes.len(),
        |i: int|
            if (i / 2) / (SCREEN_W as int) < band_h && fill_done(
                r,
                row_end,
                col_end,
                (i / 2) % (SCREEN_W as int) - UI_X_OFFSET,
                band_y + (i / 2) / (SCREEN_W as int),
            ) {
                if i % 2 == 0 {
                    (color / 256) as u8
                } else {
                    (color % 256) as u8
                }
            } else {
                bytes[i]
            },
    )
}

/// The stripe with every pixel of `r` painted.
pub open spec fn spec_fill_rect(bytes: Seq<u8>, band_y: u16, band_h: u16, r: Rect, color: u16) -> Seq<u8> {
    Seq::new(
        bytes.len(),
        |i: int|
            if (i / 2) / (SCREEN_W as int) < band_h && in_rect(
                r,
                (i / 2) % (SCREEN_W as int) - UI_X_OFFSET,
                band_y + (i / 2) / (SCREEN_W as int),
            ) {
                if i % 2 == 0 {
                    (color / 256) as u8
                } else {
                    (color % 256) as u8
                }
            } else {
                bytes[i]
            },
    )
}

/// The stripe after filling `area`: nothing when it misses the stripe, the
/// whole buffer when it covers the stripe, else its pixels in the stripe.
pub open spec fn spec_fill_solid(bytes: Seq<u8>, band_y: u16, band_h: u16, area: Rect, color: u16) -> Seq<u8> {
    let band = Rect { x: 0, y: band_y as i32, w: SCREEN_W as u32, h: band_h as u32 };
    let isect = spec_overlap(area, band);
    if is_empty(area) || band_h == 0 || is_empty(isect) {
        bytes
    } else if isect == band {
        spec_solid_stripe(color)
    } else {
        spec_fill_rect(bytes, band_y, band_h, isect, color)
    }
}

/// Byte `i` of the buffer belongs to the pixel at stripe row `ly`, column
/// `col` exactly when it is one of that pixel's two bytes.
proof fn lemma_pixel_index(i: int, ly: int, col: int)
    requires
        0 <= i,
        0 <= ly,
        0 <= col < (SCREEN_W as int),
    ensures
        ((i / 2) / (SCREEN_W as int) == ly && (i / 2) % (SCREEN_W as int) == col) <==> (i == (ly * (
        SCREEN_W as int) + col) * 2 || i == (ly * (SCREEN_W as int) + col) * 2 + 1),
{
    let p = i / 2;
    vstd::arithmetic::div_mod::lemma_fundamental_div_mod(i, 2);
    vstd::arithmetic::div_mod::lemma_fundamental_div_mod(p, SCREEN_W as int);
    if i == (ly * (SCREEN_W as int) + col) * 2 || i == (ly * (SCREEN_W as int) + col) * 2 + 1 {
        let q = ly * (SCREEN_W as int) + col;
        vstd::arithmetic::div_mod::lemma_fundamental_div_mod_converse(i, 2, q, i - 2 * q);
        vstd::arithmetic::div_mod::lemma_fundamental_div_mod_converse(p, SCREEN_W as int, ly, col);
    }
}

/// Painting pixel (x, y) of the fill advances it by one column.
proof fn lemma_fill_step(bytes0: Seq<u8>, by: u16, bh: u16, color: u16, r: Rect, y: int, x: int)
    requires
        bytes0.len() == STRIPE_BYTES,
        bh <= STRIPE_H,
        by <= y < by + bh,
        r.x <= x < r.x + r.w,
        0 <= x < (SCREEN_W as int),
    ensures
        spec_put_pixel(spec_fill_partial(bytes0, by, bh, color, r, y, x), by, bh, x, y, color) == spec_fill_partial(
            bytes0,
            by,
            bh,
            color,
            r,
            y,
            x + 1,
        ),
{
    let cur = spec_fill_partial(bytes0, by, bh, color, r, y, x);
    let next = spec_fill_partial(bytes0, by, bh, color, r, y, x + 1);
    let col = x + UI_X_OFFSET;
    let ly = y - by;
    let put = spec_put_pixel(cur, by, bh, x, y, color);
    assert forall|i: int| 0 <= i < next.len() implies #[trigger] put[i] == next[i] by {
        let p = i / 2;
        assert(0 <= p % (SCREEN_W as int) < (SCREEN_W as int));
        if col < (SCREEN_W as int) {
            lemma_pixel_index(i, ly, col);
            assert((ly * (SCREEN_W as int) + col) * 2 + 1 < STRIPE_BYTES);
        } else {
            assert(p % (SCREEN_W as int) - UI_X_OFFSET != x);
        }
    }
    assert(put =~= next);
}

/// The stripe after setting pixel (x, y): column `x + 5`, row `y`, if both are
/// on screen and the row is in the stripe `band_y..band_y + band_h`.
pub open spec fn spec_put_pixel(bytes: Seq<u8>, band_y: u16, band_h: u16, x: int, y: int, color: u16) -> Seq<u8> {
    let col = x + UI_X_OFFSET;
    if col < 0 || y < 0 || col >= SCREEN_W || y < band_y || y >= band_y + band_h {
        bytes
    } else {
        let off = ((y - band_y) * SCREEN_W + col) * 2;
        if off + 1 >= bytes.len() {
            bytes
        } else {
            bytes.update(off, (color / 256) as u8).update(off + 1, (color % 256) as u8)
        }
    }
}

/// Where bringing up the panel stands. A panel that failed stays failed: the
/// keyboard goes on without a screen.
#[derive(Clone, Copy, Debug, PartialEq, Eq, Structural)]
pub enum LcdPhase {
    Pending,
    Active,
    Failed,
}

/// Whether a present must first try to bring up the panel.
pub fn lcd_needs_init(phase: LcdPhase) -> (init: bool)
    ensures
        init == (phase == LcdPhase::Pending),
{
    match phase {
        LcdPhase::Pending => true,
        _ => false,
    }
}

pub open spec fn spec_lcd_after_init(phase: LcdPhase, init_ok: bool) -> LcdPhase {
    match phase {
        LcdPhase::Pending => if init_ok {
            LcdPhase::Active
        } else {
            LcdPhase::Failed
        },
        _ => phase,
    }
}

/// The phase after an attempt to bring up the panel that succeeded or not.
pub fn lcd_after_init(phase: LcdPhase, init_ok: bool) -> (next: LcdPhase)
    ensures
        next == spec_lcd_after_init(phase, init_ok),
{
    match phase {
        LcdPhase::Pending => if init_ok {
            LcdPhase::Active
        } else {
            LcdPhase::Failed
        },
        _ => phase,
    }
}

/// The panel is brought up at most once: an active or failed panel is never
/// tried again.
pub proof fn lemma_lcd_init_at_most_once(phase: LcdPhase, init_ok: bool)
    requires
        phase != LcdPhase::Pending,
    ensures
        spec_lcd_after_init(phase, init_ok) == phase,
{
}

/// What the screen shows, besides the host data.
#[derive(Debug)]
pub struct RenderContext {
    pub layer: u8,
    pub wpm: u16,
    pub key_pressed: bool,
    /// A key went down since the last present.
    pub key_press_latch: bool,
    pub sleeping: bool,
    pub battery: BatteryStatus,
    pub ble_status: BleStatus,
    pub peripherals_connected: Vec<bool>,
    pub peripheral_batteries: Vec<BatteryStatus>,
    pub central_connected: bool,
}

/// An event the screen reacts to.
#[derive(Debug)]
pub enum UiEvent {
    Layer(u8),
    Wpm(u16),
    Key { pressed: bool },
    Sleep(bool),
    Battery(BatteryStatus),
    Connection(BleStatus),
    PeripheralConnected { id: usize, connected: bool },
    PeripheralBattery { id: usize, state: BatteryStatus },
    CentralConnected(bool),
    /// The periodic look at the host feeds: a fresh snapshot and the layer
    /// names' version.
    HostDataTick { host_data: HostData, layer_names_version: u8 },
}

/// State of the dongle screen (the panel and backlight pin stay with the caller).
#[derive(Debug)]
pub struct DongleScreen {
    pub ctx: RenderContext,
    pub last_host_data: HostData,
    pub last_layer_names_version: u8,
    /// When (milliseconds) the last present finished.
    pub last_render: u64,
    /// A redraw is wanted.
    pub pending: bool,
    pub dirty: DirtyRegion,
    /// Shortest time between presents, in milliseconds.
    pub min_interval: u64,
}

pub ghost struct RenderContextView {
    pub layer: u8,
    pub wpm: u16,
    pub key_pressed: bool,
    pub key_press_latch: bool,
    pub sleeping: bool,
    pub battery: BatteryStatus,
    pub ble_status: BleStatus,
    pub peripherals_connected: Seq<bool>,
    pub peripheral_batteries: Seq<BatteryStatus>,
    pub central_connected: bool,
}

impl View for RenderContext {
    type V = RenderContextView;

    open spec fn view(&self) -> RenderContextView {
        RenderContextView {
            layer: self.layer,
            wpm: self.wpm,
            key_pressed: self.key_pressed,
            key_press_latch: self.key_press_latch,
            sleeping: self.sleeping,
            battery: self.battery,
            ble_status: self.ble_status,
            peripherals_connected: self.peripherals_connected@,
            peripheral_batteries: self.peripheral_batteries@,
            central_connected: self.central_connected,
        }
    }
}

pub ghost struct ScreenView {
    pub ctx: RenderContextView,
    pub last_host_data: HostDataView,
    pub last_layer_names_version: u8,
    pub last_render: u64,
    pub pending: bool,
    pub dirty: DirtyRegion,
    pub min_interval: u64,
}

impl View for DongleScreen {
    type V = ScreenView;

    open spec fn view(&self) -> ScreenView {
        ScreenView {
            ctx: self.ctx@,
            last_host_data: self.last_host_data@,
            last_layer_names_version: self.last_layer_names_version,
            last_render: self.last_render,
            pending: self.pending,
            dirty: self.dirty,
            min_interval: self.min_interval,
        }
    }
}

/// Asks for a full repaint.
pub open spec fn spec_request_redraw(s: ScreenView) -> ScreenView {
    ScreenView { pending: true, dirty: DirtyRegion::Full, ..s }
}

/// Asks for rows `d` to be repainted, on top of what is already asked for.
pub open spec fn spec_request_region(s: ScreenView, d: DirtyRegion) -> ScreenView {
    ScreenView {
        dirty: if s.pending {
            spec_union(s.dirty, d)
        } else {
            d
        },
        pending: true,
        ..s
    }
}

/// The screen after looking at a host snapshot: if it changed, the agent panel
/// (body) and/or the clock (header) are repainted; any other change repaints
/// the header.
pub open spec fn spec_sync_host_data(s: ScreenView, host: HostDataView) -> ScreenView {
    if host == s.last_host_data {
        s
    } else {
        let agents_changed = host.agents != s.last_host_data.agents;
        let time_changed = host.hour != s.last_host_data.hour || host.minute != s.last_host_data.minute;
        let dirty = if agents_changed && time_changed {
            spec_union(header_dirty(), body_dirty())
        } else if agents_changed {
            body_dirty()
        } else {
            header_dirty()
        };
        spec_request_region(ScreenView { last_host_data: host, ..s }, dirty)
    }
}

/// The screen after looking at the layer names' version: a new one repaints the header.
pub open spec fn spec_sync_layer_names(s: ScreenView, version: u8) -> ScreenView {
    if version != s.last_layer_names_version {
        spec_request_region(ScreenView { last_layer_names_version: version, ..s }, header_dirty())
    } else {
        s
    }
}

pub open spec fn update_slot<T>(slots: Seq<T>, id: usize, value: T) -> Seq<T> {
    if (id as int) < slots.len() {
        slots.update(id as int, value)
    } else {
        slots
    }
}

/// The screen after an event (other than the host data tick), and the
/// backlight level to set, if any. Key presses, layer and battery changes
/// repaint only their band; connection events repaint everything.
pub open spec fn spec_apply(s: ScreenView, ev: UiEvent) -> (ScreenView, Option<bool>) {
    match ev {
        UiEvent::Layer(layer) => (
            spec_request_region(ScreenView { ctx: RenderContextView { layer, ..s.ctx }, ..s }, header_dirty()),
            None,
        ),
        UiEvent::Wpm(wpm) => (ScreenView { ctx: RenderContextView { wpm, ..s.ctx }, ..s }, None),
        UiEvent::Key { pressed } => if pressed {
            (
                ScreenView {
                    ctx: RenderContextView { key_pressed: true, key_press_latch: true, ..s.ctx },
                    ..s
                },
                Some(true),
            )
        } else {
            (ScreenView { ctx: RenderContextView { key_pressed: false, ..s.ctx }, ..s }, None)
        },
        UiEvent::Sleep(sleeping) => {
            let t = ScreenView { ctx: RenderContextView { sleeping, ..s.ctx }, ..s };
            (
                if !sleeping {
                    spec_request_redraw(t)
                } else {
                    t
                },
                Some(!sleeping),
            )
        },
        UiEvent::Battery(battery) => (
            spec_request_region(ScreenView { ctx: RenderContextView { battery, ..s.ctx }, ..s }, body_dirty()),
            None,
        ),
        UiEvent::Connection(ble) => (
            spec_request_redraw(ScreenView { ctx: RenderContextView { ble_status: ble, ..s.ctx }, ..s }),
            None,
        ),
        UiEvent::PeripheralConnected { id, connected } => (
            spec_request_redraw(
                ScreenView {
                    ctx: RenderContextView {
                        peripherals_connected: update_slot(s.ctx.peripherals_connected, id, connected),
                        ..s.ctx
                    },
                    ..s
                },
            ),
            None,
        ),
        UiEvent::PeripheralBattery { id, state } => (
            spec_request_region(
                ScreenView {
                    ctx: RenderContextView {
                        peripheral_batteries: update_slot(s.ctx.peripheral_batteries, id, state),
                        ..s.ctx
                    },
                    ..s
                },
                body_dirty(),
            ),
            None,
        ),
        UiEvent::CentralConnected(connected) => (
            spec_request_redraw(ScreenView { ctx: RenderContextView { central_connected: connected, ..s.ctx }, ..s }),
            None,
        ),
        UiEvent::HostDataTick { host_data, layer_names_version } => (
            spec_sync_layer_names(spec_sync_host_data(s, host_data@), layer_names_version),
            None,
        ),
    }
}

/// Longest time the loop waits for an event before looking at the host feeds.
pub const HOST_TICK_MS: u64 = 250;

/// Most queued events taken in after the awaited one, before a redraw.
pub const COALESCE_MAX: usize = 16;

/// A redraw at `now`: the host feeds are taken in; it presents the dirty rows
/// unless the last present was less than `min_interval` ago, in which case the
/// redraw stays pending.
pub open spec fn spec_redraw_begin(s: ScreenView, now: u64, host: HostDataView, version: u8) -> (
    ScreenView,
    Option<DirtyRegion>,
) {
    let synced = spec_sync_layer_names(spec_sync_host_data(s, host), version);
    if since(now, synced.last_render) < synced.min_interval {
        (ScreenView { pending: true, ..synced }, None)
    } else {
        (synced, Some(synced.dirty))
    }
}

/// How long a pending redraw still has to wait at `now`.
pub open spec fn spec_redraw_wait(s: ScreenView, now: u64) -> u64 {
    if since(now, s.last_render) < s.min_interval {
        (s.min_interval - since(now, s.last_render)) as u64
    } else {
        0
    }
}

/// How long a pass of the loop waits for an event at `now`, and whether the
/// wait ending without one is the periodic look at the host feeds. While a
/// redraw is pending and falls due within a host tick, the pass waits exactly
/// until it is due; otherwise it waits one host tick.
pub open spec fn spec_pass_wait(s: ScreenView, now: u64) -> (u64, bool) {
    if s.pending && spec_redraw_wait(s, now) <= HOST_TICK_MS {
        (spec_redraw_wait(s, now), false)
    } else {
        (HOST_TICK_MS, true)
    }
}

/// The events a pass takes in: the awaited one, if the wait gave one, then
/// those already queued.
pub open spec fn spec_pass_events(awaited: Option<UiEvent>, queued: Seq<UiEvent>) -> Seq<UiEvent> {
    match awaited {
        Some(ev) => seq![ev] + queued,
        None => queued,
    }
}

/// The screen after taking in `events` in order, and the backlight levels
/// they ask for, in order.
pub open spec fn spec_take_events(s: ScreenView, events: Seq<UiEvent>) -> (ScreenView, Seq<bool>)
    decreases events.len(),
{
    if events.len() == 0 {
        (s, Seq::empty())
    } else {
        let (t, levels) = spec_take_events(s, events.drop_last());
        let (u, level) = spec_apply(t, events.last());
        (
            u,
            match level {
                Some(high) => levels.push(high),
                None => levels,
            },
        )
    }
}

/// The first redraw of a run: a redraw is asked for, the host feeds are taken
/// in, and the redraw starts at `now`.
pub open spec fn spec_startup(s: ScreenView, now: u64, host: HostDataView, version: u8) -> (
    ScreenView,
    Option<DirtyRegion>,
) {
    spec_redraw_begin(ScreenView { pending: true, ..s }, now, host, version)
}

proof fn lemma_take_events_step(s: ScreenView, events: Seq<UiEvent>, k: int)
    requires
        0 <= k < events.len(),
    ensures
        ({
            let (t, levels) = spec_take_events(s, events.take(k));
            let (u, level) = spec_apply(t, events[k]);
            spec_take_events(s, events.take(k + 1)) == (
                u,
                match level {
                    Some(high) => levels.push(high),
                    None => levels,
                },
            )
        }),
{
    assert(events.take(k + 1).drop_last() =~= events.take(k));
    assert(events.take(k + 1).last() == events[k]);
}

impl DongleScreen {
    /// A screen that will paint everything at its first chance, showing `host_data`.
    pub fn new(host_data: HostData, layer_names_version: u8, ctx: RenderContext) -> (screen: DongleScreen)
        ensures
            screen@ == (ScreenView {
                ctx: ctx@,
                last_host_data: host_data@,
                last_layer_names_version: layer_names_version,
                last_render: 0,
                pending: true,
                dirty: DirtyRegion::Full,
                min_interval: 80,
            }),
    {
        DongleScreen {
            ctx,
            last_host_data: host_data,
            last_layer_names_version: layer_names_version,
            last_render: 0,
            pending: true,
            dirty: DirtyRegion::Full,
            min_interval: 80,
        }
    }

    pub fn request_redraw(&mut self)
        ensures
            final(self)@ == spec_request_redraw(old(self)@),
    {
        self.pending = true;
        self.dirty = DirtyRegion::Full;
    }

    pub fn request_redraw_region(&mut self, dirty: DirtyRegion)
        ensures
            final(self)@ == spec_request_region(old(self)@, dirty),
    {
        self.dirty = if self.pending {
            self.dirty.union(dirty)
        } else {
            dirty
        };
        self.pending = true;
    }

    /// Takes in a host snapshot, repainting the bands it changes.
    pub fn sync_host_data(&mut self, host_data: HostData)
        ensures
            final(self)@ == spec_sync_host_data(old(self)@, host_data@),
    {
        if host_data_eq(&host_data, &self.last_host_data) {
            return;
        }
        let agents_changed = host_data.agents != self.last_host_data.agents;
        let time_changed = host_data.hour != self.last_host_data.hour || host_data.minute
            != self.last_host_data.minute;
        let dirty = if agents_changed && time_changed {
            header_dirty_region().union(body_dirty_region())
        } else if agents_changed {
            body_dirty_region()
        } else {
            header_dirty_region()
        };
        self.last_host_data = host_data;
        self.request_redraw_region(dirty);
    }

    /// Takes in the layer names' version, repainting the header when it changed.
    pub fn sync_layer_names(&mut self, version: u8)
        ensures
            final(self)@ == spec_sync_layer_names(old(self)@, version),
    {
        if version != self.last_layer_names_version {
            self.last_layer_names_version = version;
            self.request_redraw_region(header_dirty_region());
        }
    }

    /// Backlight pin level for `on` (the backlight is active high).
    pub fn backlight_level(on: bool) -> (high: bool)
        ensures
            high == on,
    {
        on
    }

    /// Reacts to an event; returns the backlight level to set, if any.
    pub fn apply(&mut self, ev: UiEvent) -> (backlight: Option<bool>)
        ensures
            (final(self)@, backlight) == spec_apply(old(self)@, ev),
    {
        match ev {
            UiEvent::Layer(layer) => {
                self.ctx.layer = layer;
                self.request_redraw_region(header_dirty_region());
                None
            },
            UiEvent::Wpm(wpm) => {
                self.ctx.wpm = wpm;
                None
            },
            UiEvent::Key { pressed } => {
                self.ctx.key_pressed = pressed;
                if pressed {
                    self.ctx.key_press_latch = true;
                    Some(Self::backlight_level(true))
                } else {
                    None
                }
            },
            UiEvent::Sleep(sleeping) => {
                self.ctx.sleeping = sleeping;
                let level = Self::backlight_level(!sleeping);
                if !sleeping {
                    self.request_redraw();
                }
                Some(level)
            },
            UiEvent::Battery(battery) => {
                self.ctx.battery = battery;
                self.request_redraw_region(body_dirty_region());
                None
            },
            UiEvent::Connection(ble) => {
                self.ctx.ble_status = ble;
                self.request_redraw();
                None
            },
            UiEvent::PeripheralConnected { id, connected } => {
                if id < self.ctx.peripherals_connected.len() {
                    self.ctx.peripherals_connected.set(id, connected);
                }
                self.request_redraw();
                None
            },
            UiEvent::PeripheralBattery { id, state } => {
                if id < self.ctx.peripheral_batteries.len() {
                    self.ctx.peripheral_batteries.set(id, state);
                }
                self.request_redraw_region(body_dirty_region());
                None
            },
            UiEvent::CentralConnected(connected) => {
                self.ctx.central_connected = connected;
                self.request_redraw();
                None
            },
            UiEvent::HostDataTick { host_data, layer_names_version } => {
                self.sync_host_data(host_data);
                self.sync_layer_names(layer_names_version);
                None
            },
        }
    }

    /// Starts a redraw at `now` after taking in the host feeds: the rows to
    /// present, or `None` (keeping the redraw pending) when the last present
    /// was less than `min_interval` ago.
    pub fn redraw_begin(&mut self, now: u64, host_data: HostData, layer_names_version: u8) -> (rows: Option<DirtyRegion>)
        ensures
            (final(self)@, rows) == spec_redraw_begin(old(self)@, now, host_data@, layer_names_version),
    {
        self.sync_host_data(host_data);
        self.sync_layer_names(layer_names_version);
        let elapsed = elapsed_ms(now, self.last_render);
        if elapsed < self.min_interval {
            self.pending = true;
            return None;
        }
        Some(self.dirty)
    }

    /// Records a finished present at `now`: nothing is pending, the key latch
    /// is cleared, and the next redraw is full unless narrowed.
    pub fn redraw_done(&mut self, now: u64)
        ensures
            final(self)@ == (ScreenView {
                ctx: RenderContextView { key_press_latch: false, ..old(self)@.ctx },
                pending: false,
                dirty: DirtyRegion::Full,
                last_render: now,
                ..old(self)@
            }),
    {
        self.ctx.key_press_latch = false;
        self.pending = false;
        self.dirty = DirtyRegion::Full;
        self.last_render = now;
    }

    /// How long (milliseconds) a pending redraw still has to wait at `now`.
    pub fn redraw_wait(&self, now: u64) -> (wait: u64)
        ensures
            wait == spec_redraw_wait(self@, now),
    {
        let elapsed = elapsed_ms(now, self.last_render);
        if elapsed < self.min_interval {
            self.min_interval - elapsed
        } else {
            0
        }
    }

    /// How long a pass waits for an event at `now`, and whether a wait that
    /// ends without one is a host tick.
    pub fn pass_wait(&self, now: u64) -> (wait: (u64, bool))
        ensures
            wait == spec_pass_wait(self@, now),
    {
        if self.pending {
            let due = self.redraw_wait(now);
            if due <= HOST_TICK_MS {
                return (due, false);
            }
        }
        (HOST_TICK_MS, true)
    }

    /// Takes in a pass's events: the awaited one, if any, then at most
    /// [`COALESCE_MAX`] that were already queued. Returns the backlight
    /// levels to set, in order.
    pub fn take_events(&mut self, awaited: Option<UiEvent>, queued: Vec<UiEvent>) -> (levels: Vec<bool>)
        requires
            queued.len() <= COALESCE_MAX,
        ensures
            (final(self)@, levels@) == spec_take_events(old(self)@, spec_pass_events(awaited, queued@)),
    {
        let ghost s0 = self@;
        let ghost all = spec_pass_events(awaited, queued@);
        let ghost first: int = if awaited is Some { 1 } else { 0 };
        let mut levels: Vec<bool> = Vec::new();
        proof {
            assert(all.take(0) =~= Seq::<UiEvent>::empty());
        }
        match awaited {
            Some(ev) => {
                proof {
                    lemma_take_events_step(s0, all, 0);
                }
                if let Some(high) = self.apply(ev) {
                    levels.push(high);
                }
            },
            None => {},
        }
        let mut rest = queued;
        let ghost queued_all = rest@;
        let mut taken: usize = 0;
        while rest.len() > 0
            invariant
                all == spec_pass_events(awaited, queued_all),
                first == (if awaited is Some { 1int } else { 0int }),
                all.len() == first + queued_all.len(),
                queued_all.len() <= COALESCE_MAX,
                taken <= queued_all.len(),
                rest@ == queued_all.skip(taken as int),
                forall|k: int| 0 <= k < queued_all.len() ==> #[trigger] all[first + k] == queued_all[k],
                (self@, levels@) == spec_take_events(s0, all.take(first + taken)),
            decreases rest.len(),
        {
            let ev = rest.remove(0);
            proof {
                assert(ev == queued_all[taken as int]);
                assert(all[first + taken] == queued_all[taken as int]);
                lemma_take_events_step(s0, all, first + taken);
            }
            if let Some(high) = self.apply(ev) {
                levels.push(high);
            }
            taken = taken + 1;
            proof {
                assert(rest@ =~= queued_all.skip(taken as int));
            }
        }
        proof {
            assert(all.take(first + taken) =~= all);
        }
        levels
    }

    /// The first redraw of a run at `now`, after taking in the host feeds:
    /// the rows to present, or `None` (keeping it pending) when the last
    /// present was less than `min_interval` ago.
    pub fn startup(&mut self, now: u64, host_data: HostData, layer_names_version: u8) -> (rows: Option<DirtyRegion>)
        ensures
            (final(self)@, rows) == spec_startup(old(self)@, now, host_data@, layer_names_version),
    {
        self.pending = true;
        self.redraw_begin(now, host_data, layer_names_version)
    }

    /// How long the loop waits for an event at `now` before redrawing: until
    /// the pending redraw is due, or, with nothing pending, for the next event
    /// or host tick alone (`None`).
    pub fn next_wait(&self, now: u64) -> (wait: Option<u64>)
        ensures
            wait == (if self.pending { Some(spec_redraw_wait(self@, now)) } else { None::<u64> }),
    {
        if self.pending {
            Some(self.redraw_wait(now))
        } else {
            None
        }
    }
}


/// What a battery gauge knows of its half.
#[derive(Clone, Copy, Debug, PartialEq, Eq, Structural)]
pub enum BatReading {
    Unknown,
    Pending,
    Pct(u8),
}

pub open spec fn spec_battery_reading(status: Option<BatteryStatus>) -> BatReading {
    match status {
        Some(BatteryStatus::Available { level: Some(level), .. }) => BatReading::Pct(level),
        Some(BatteryStatus::Available { level: None, .. }) => BatReading::Pending,
        _ => BatReading::Unknown,
    }
}

/// The reading a gauge shows for a half's battery status (absent: unknown).
pub fn battery_reading(status: Option<BatteryStatus>) -> (reading: BatReading)
    ensures
        reading == spec_battery_reading(status),
{
    match status {
        Some(BatteryStatus::Available { level: Some(level), .. }) => BatReading::Pct(level),
        Some(BatteryStatus::Available { level: None, .. }) => BatReading::Pending,
        _ => BatReading::Unknown,
    }
}

/// Palette entries the status screen draws with.
#[derive(Clone, Copy, Debug, PartialEq, Eq, Structural)]
pub enum Tone {
    Dim,
    Muted,
    Accent,
    Fg,
    Yellow,
    Red,
    BarFg,
}

/// The decimal digits of `n`, as ASCII.
pub open spec fn decimal(n: nat) -> Seq<u8>
    decreases n,
{
    if n < 10 {
        seq![(48 + n) as u8]
    } else {
        decimal(n / 10).push((48 + n % 10) as u8)
    }
}

/// `n` in decimal, ASCII.
pub fn decimal_text(n: u8) -> (text: Vec<u8>)
    ensures
        text@ == decimal(n as nat),
{
    let mut text: Vec<u8> = Vec::new();
    let ghost m: nat = n as nat;
    if n >= 100 {
        text.push(48 + n / 100);
        text.push(48 + (n / 10) % 10);
        text.push(48 + n % 10);
        proof {
            assert(m / 10 / 10 == m / 100) by (nonlinear_arith)
                requires
                    m >= 100,
            ;
            assert(m / 100 < 10) by (nonlinear_arith)
                requires
                    m < 256,
            ;
            assert(decimal(m / 100) == seq![(48 + m / 100) as u8]);
            assert(decimal(m / 10) == decimal(m / 10 / 10).push((48 + (m / 10) % 10) as u8));
            assert(decimal(m) == decimal(m / 10).push((48 + m % 10) as u8));
        }
    } else if n >= 10 {
        text.push(48 + n / 10);
        text.push(48 + n % 10);
        proof {
            assert(decimal(m / 10) == seq![(48 + m / 10) as u8]);
            assert(decimal(m) == decimal(m / 10).push((48 + m % 10) as u8));
        }
    } else {
        text.push(48 + n);
    }
    assert(text@ =~= decimal(m));
    text
}

/// `n` as `{:02}` formats it: at least two digits, zero-padded.
pub open spec fn two_digits(n: u8) -> Seq<u8> {
    if n < 10 {
        seq![48u8, (48 + n) as u8]
    } else {
        decimal(n as nat)
    }
}

/// The header clock: `HH:MM` when the host sent a time, `--:--` otherwise.
pub open spec fn spec_host_time_text(hour: Option<u8>, minute: Option<u8>) -> Seq<u8> {
    match (hour, minute) {
        (Some(h), Some(m)) => two_digits(h) + seq![58u8] + two_digits(m),
        _ => seq![45u8, 45u8, 58u8, 45u8, 45u8],
    }
}

fn push_two_digits(text: &mut Vec<u8>, n: u8)
    ensures
        final(text)@ == old(text)@ + two_digits(n),
{
    if n < 10 {
        text.push(48);
        text.push(48 + n);
        assert(final(text)@ =~= old(text)@ + two_digits(n));
    } else {
        let digits = decimal_text(n);
        let mut i: usize = 0;
        while i < digits.len()
            invariant
                i <= digits@.len(),
                digits@ == decimal(n as nat),
                text@ =~= old(text)@ + digits@.take(i as int),
            decreases digits@.len() - i,
        {
            text.push(digits[i]);
            i = i + 1;
        }
        assert(digits@.take(digits@.len() as int) =~= digits@);
    }
}

/// The header clock text.
pub fn push_host_time(hour: Option<u8>, minute: Option<u8>) -> (text: Vec<u8>)
    ensures
        text@ == spec_host_time_text(hour, minute),
{
    let mut text: Vec<u8> = Vec::new();
    match (hour, minute) {
        (Some(h), Some(m)) => {
            push_two_digits(&mut text, h);
            text.push(58);
            push_two_digits(&mut text, m);
        },
        _ => {
            text.push(45);
            text.push(45);
            text.push(58);
            text.push(45);
            text.push(45);
        },
    }
    assert(text@ =~= spec_host_time_text(hour, minute));
    text
}

/// Top of the body band.
pub const BODY_Y: i32 = 50;
/// Height of the body band.
pub const BODY_H: u32 = 182;
/// Top of a gauge's bar.
pub const BAR_Y: i32 = 78;
/// Height of a gauge's bar.
pub const BAR_H: u32 = 144;
/// Room inside the bar's border.
pub const BAR_INNER_H: u32 = 140;

/// What one battery gauge shows.
#[derive(Clone, Debug)]
pub struct BatColumn {
    /// ASCII label above the bar: `--`, `??` or the percentage.
    pub label: Vec<u8>,
    pub label_tone: Tone,
    /// The filled part of the bar: its top row, height and tone.
    pub fill: Option<(i32, u32, Tone)>,
}

/// Warning tone of a percentage: red under 10, yellow under 25, else `ok`.
pub open spec fn level_tone(p: u8, ok: Tone) -> Tone {
    if p < 10 {
        Tone::Red
    } else if p < 25 {
        Tone::Yellow
    } else {
        ok
    }
}

/// Height of the fill for `p` percent: that share of the bar, at least 2 rows.
pub open spec fn fill_height(p: u8) -> u32 {
    let h = (BAR_INNER_H * p) / 100;
    if h < 2 {
        2
    } else {
        h as u32
    }
}

/// A gauge for an unconnected half shows `--`; for a connected half with no
/// reading, `??`; else the percentage, toned by level, with a bar filled from
/// the bottom in proportion (nothing at 0 %).
pub open spec fn spec_bat_column(reading: BatReading, connected: bool) -> (Seq<u8>, Tone, Option<(i32, u32, Tone)>) {
    if !connected {
        (seq![45u8, 45u8], Tone::Dim, None)
    } else {
        match reading {
            BatReading::Pct(p) => (
                decimal(p as nat).push(37u8),
                level_tone(p, Tone::Fg),
                if p > 0 {
                    Some(
                        (
                            (BAR_Y + 2 + (BAR_INNER_H - fill_height(p))) as i32,
                            fill_height(p),
                            level_tone(p, Tone::BarFg),
                        ),
                    )
                } else {
                    None
                },
            ),
            _ => (seq![63u8, 63u8], Tone::Dim, None),
        }
    }
}

/// What a battery gauge shows.
pub fn draw_bat_column(reading: BatReading, connected: bool) -> (column: BatColumn)
    requires
        connected ==> (reading matches BatReading::Pct(p) ==> p <= 100),
    ensures
        (column.label@, column.label_tone, column.fill) == spec_bat_column(reading, connected),
{
    if !connected {
        return BatColumn { label: vec![45u8, 45u8], label_tone: Tone::Dim, fill: None };
    }
    match reading {
        BatReading::Pct(p) => {
            let mut label = decimal_text(p);
            label.push(37);
            let tone = if p < 10 {
                Tone::Red
            } else if p < 25 {
                Tone::Yellow
            } else {
                Tone::Fg
            };
            let fill = if p > 0 {
                assert(BAR_INNER_H * (p as u32) <= 14000) by (nonlinear_arith)
                    requires p <= 100;
                assert((BAR_INNER_H * (p as u32)) / 100 <= BAR_INNER_H) by (nonlinear_arith)
                    requires p <= 100;
                let h = BAR_INNER_H * (p as u32) / 100;
                let fh = if h < 2 {
                    2
                } else {
                    h
                };
                let fill_tone = if p < 10 {
                    Tone::Red
                } else if p < 25 {
                    Tone::Yellow
                } else {
                    Tone::BarFg
                };
                Some((BAR_Y + 2 + (BAR_INNER_H - fh) as i32, fh, fill_tone))
            } else {
                None
            };
            BatColumn { label, label_tone: tone, fill }
        },
        _ => BatColumn { label: vec![63u8, 63u8], label_tone: Tone::Dim, fill: None },
    }
}

/// One quadrant of the agent grid.
#[derive(Clone, Copy, Debug, PartialEq, Eq, Structural)]
pub struct AgentCell {
    /// 0 WORKING, 1 BLOCKED, 2 IDLE, 3 DONE.
    pub status: u8,
    pub count: u8,
    /// The title's tone: the status colour while any agent is in it, else dim.
    pub label_tone: Tone,
    /// The count is drawn only when it is not zero.
    pub show_count: bool,
    /// Top-left corner of the quadrant.
    pub x: i32,
    pub y: i32,
}

pub const AGENT_X: i32 = 52;
pub const AGENT_CELL_W: i32 = 88;
pub const AGENT_CELL_H: i32 = 91;

pub open spec fn status_tone(status: u8) -> Tone {
    if status == 0 {
        Tone::Accent
    } else if status == 1 {
        Tone::Yellow
    } else if status == 2 {
        Tone::Muted
    } else {
        Tone::Fg
    }
}

pub open spec fn spec_agent_cell(status: u8, count: u8) -> AgentCell {
    AgentCell {
        status,
        count,
        label_tone: if count > 0 { status_tone(status) } else { Tone::Dim },
        show_count: count > 0,
        x: (AGENT_X + (status % 2) * AGENT_CELL_W) as i32,
        y: (BODY_Y + (status / 2) * AGENT_CELL_H) as i32,
    }
}

fn agent_cell(status: u8, count: u8) -> (cell: AgentCell)
    requires
        status < 4,
    ensures
        cell == spec_agent_cell(status, count),
{
    let tone = if count == 0 {
        Tone::Dim
    } else if status == 0 {
        Tone::Accent
    } else if status == 1 {
        Tone::Yellow
    } else if status == 2 {
        Tone::Muted
    } else {
        Tone::Fg
    };
    AgentCell {
        status,
        count,
        label_tone: tone,
        show_count: count > 0,
        x: AGENT_X + (status % 2) as i32 * AGENT_CELL_W,
        y: BODY_Y + (status / 2) as i32 * AGENT_CELL_H,
    }
}

/// The 2 x 2 agent grid: working and blocked on top, idle and done below.
pub fn agent_cells(agents: AgentSummary) -> (cells: [AgentCell; 4])
    ensures
        cells@ == seq![
            spec_agent_cell(0, agents.working),
            spec_agent_cell(1, agents.blocked),
            spec_agent_cell(2, agents.idle),
            spec_agent_cell(3, agents.done),
        ],
{
    let cells = [
        agent_cell(0, agents.working),
        agent_cell(1, agents.blocked),
        agent_cell(2, agents.idle),
        agent_cell(3, agents.done),
    ];
    assert(cells@ =~= seq![
        spec_agent_cell(0, agents.working),
        spec_agent_cell(1, agents.blocked),
        spec_agent_cell(2, agents.idle),
        spec_agent_cell(3, agents.done),
    ]);
    cells
}

/// The value at `i`, if there is one.
pub open spec fn slot<T>(items: Seq<T>, i: int) -> Option<T> {
    if 0 <= i < items.len() {
        Some(items[i])
    } else {
        None
    }
}

/// Whether half `i` is connected (unknown halves count as not connected).
pub open spec fn half_connected(ctx: RenderContextView, i: int) -> bool {
    match slot(ctx.peripherals_connected, i) {
        Some(c) => c,
        None => false,
    }
}

/// The reading half `i`'s gauge shows.
pub open spec fn half_reading(ctx: RenderContextView, i: int) -> BatReading {
    spec_battery_reading(slot(ctx.peripheral_batteries, i))
}

/// A gauge can be drawn for half `i`: a connected half reports at most 100 %.
pub open spec fn half_drawable(ctx: RenderContextView, i: int) -> bool {
    half_connected(ctx, i) ==> (half_reading(ctx, i) matches BatReading::Pct(p) ==> p <= 100)
}

/// What the status screen shows: the clock and layer in the header, a gauge
/// per half (left half on the left), and the agent grid when an agent feed is
/// live ("NO AGENT FEED" otherwise).
pub struct StatusView {
    pub clock: Vec<u8>,
    pub layer: u8,
    pub left: BatColumn,
    pub right: BatColumn,
    pub agents: Option<[AgentCell; 4]>,
}

pub open spec fn spec_agent_grid(agents: AgentSummary) -> Seq<AgentCell> {
    seq![
        spec_agent_cell(0, agents.working),
        spec_agent_cell(1, agents.blocked),
        spec_agent_cell(2, agents.idle),
        spec_agent_cell(3, agents.done),
    ]
}

fn half_state(ctx: &RenderContext, i: usize) -> (state: (bool, BatReading))
    ensures
        state == (half_connected(ctx@, i as int), half_reading(ctx@, i as int)),
{
    let connected = if i < ctx.peripherals_connected.len() {
        ctx.peripherals_connected[i]
    } else {
        false
    };
    let status = if i < ctx.peripheral_batteries.len() {
        Some(ctx.peripheral_batteries[i])
    } else {
        None
    };
    (connected, battery_reading(status))
}

/// Whether both gauges can be drawn: a connected half reports at most 100 %.
pub fn halves_drawable(ctx: &RenderContext) -> (ok: bool)
    ensures
        ok == (half_drawable(ctx@, 0) && half_drawable(ctx@, 1)),
{
    let (left_connected, left_reading) = half_state(ctx, 0);
    let (right_connected, right_reading) = half_state(ctx, 1);
    let left_ok = match left_reading {
        BatReading::Pct(p) => !left_connected || p <= 100,
        _ => true,
    };
    let right_ok = match right_reading {
        BatReading::Pct(p) => !right_connected || p <= 100,
        _ => true,
    };
    left_ok && right_ok
}

pub open spec fn status_view_ok(view: StatusView, host: HostData, ctx: RenderContext) -> bool {
    &&& view.clock@ == spec_host_time_text(host.hour, host.minute)
    &&& view.layer == ctx.layer
    &&& (view.left.label@, view.left.label_tone, view.left.fill) == spec_bat_column(
        half_reading(ctx@, 0),
        half_connected(ctx@, 0),
    )
    &&& (view.right.label@, view.right.label_tone, view.right.fill) == spec_bat_column(
        half_reading(ctx@, 1),
        half_connected(ctx@, 1),
    )
    &&& view.agents is Some <==> host.agents is Some
    &&& view.agents matches Some(cells) ==> cells@ == spec_agent_grid(host.agents->Some_0)
}

fn view_of(host: &HostData, ctx: &RenderContext) -> (view: StatusView)
    requires
        half_drawable(ctx@, 0),
        half_drawable(ctx@, 1),
    ensures
        status_view_ok(view, *host, *ctx),
{
    let (left_connected, left_reading) = half_state(ctx, 0);
    let (right_connected, right_reading) = half_state(ctx, 1);
    let agents = match host.agents {
        Some(summary) => Some(agent_cells(summary)),
        None => None,
    };
    StatusView {
        clock: push_host_time(host.hour, host.minute),
        layer: ctx.layer,
        left: draw_bat_column(left_reading, left_connected),
        right: draw_bat_column(right_reading, right_connected),
        agents,
    }
}

/// Works out what the status screen shows from the host data it was handed
/// and the keyboard's state.
#[derive(Debug)]
pub struct QubeStatusRenderer {
    pub host_data: HostData,
}

impl QubeStatusRenderer {
    /// What the status screen shows for `ctx`: the clock and layer in the
    /// header, a gauge per half (left half on the left), and the agent grid
    /// while an agent feed is live.
    pub fn status_view(&self, ctx: &RenderContext) -> (view: StatusView)
        requires
            half_drawable(ctx@, 0),
            half_drawable(ctx@, 1),
        ensures
            status_view_ok(view, self.host_data, *ctx),
    {
        view_of(&self.host_data, ctx)
    }
}

impl DongleScreen {
    /// What the next present shows: the last host data taken in and the
    /// keyboard's state.
    pub fn status_view(&self) -> (view: StatusView)
        requires
            half_drawable(self.ctx@, 0),
            half_drawable(self.ctx@, 1),
        ensures
            status_view_ok(view, self.last_host_data, self.ctx),
    {
        view_of(&self.last_host_data, &self.ctx)
    }
}

/// A redraw asked for is never dropped: taking in an event or the host
/// feeds keeps it pending, and only a present clears it.
pub proof fn lemma_pending_survives_events(s: ScreenView, ev: UiEvent, now: u64, host: HostDataView, version: u8)
    ensures
        s.pending ==> spec_apply(s, ev).0.pending,
        s.pending ==> spec_redraw_begin(s, now, host, version).0.pending || spec_redraw_begin(
            s,
            now,
            host,
            version,
        ).1 is Some,
{
}

/// A redraw at least `min_interval` after the last present presents.
pub proof fn lemma_due_redraw_presents(s: ScreenView, now: u64, host: HostDataView, version: u8)
    requires
        since(now, s.last_render) >= s.min_interval,
    ensures
        spec_redraw_begin(s, now, host, version).1 is Some,
{
}

/// Waiting the time the loop waits while a redraw is pending brings it to the
/// moment the redraw is due, so the pass that ends then presents it.
pub proof fn lemma_wait_reaches_due_time(s: ScreenView, now: u64)
    requires
        now >= s.last_render,
        now + spec_redraw_wait(s, now) <= u64::MAX,
    ensures
        since((now + spec_redraw_wait(s, now)) as u64, s.last_render) >= s.min_interval,
{
}

/// Taking in a pass's events never drops a pending redraw, and leaves the
/// time of the last present and the shortest interval as they were.
pub proof fn lemma_pass_keeps_pending(s: ScreenView, events: Seq<UiEvent>)
    ensures
        s.pending ==> spec_take_events(s, events).0.pending,
        spec_take_events(s, events).0.last_render == s.last_render,
        spec_take_events(s, events).0.min_interval == s.min_interval,
    decreases events.len(),
{
    if events.len() > 0 {
        lemma_pass_keeps_pending(s, events.drop_last());
    }
}

/// A pass waits at most one host tick, and while a redraw is pending never
/// past the moment it falls due; a wait that ends without an event and is no
/// host tick is a pending redraw's wait, ending just when it is due.
pub proof fn lemma_pass_wait_bounds(s: ScreenView, now: u64)
    ensures
        spec_pass_wait(s, now).0 <= HOST_TICK_MS,
        s.pending ==> spec_pass_wait(s, now).0 <= spec_redraw_wait(s, now),
        !s.pending ==> spec_pass_wait(s, now).1,
        !spec_pass_wait(s, now).1 ==> s.pending && spec_pass_wait(s, now).0 == spec_redraw_wait(s, now),
{
}

/// A pending redraw is presented by the first pass that redraws at least
/// `min_interval` after the last present, whatever events the pass took in.
pub proof fn lemma_due_pass_presents(
    s: ScreenView,
    awaited: Option<UiEvent>,
    queued: Seq<UiEvent>,
    now: u64,
    host: HostDataView,
    version: u8,
)
    requires
        s.pending,
        since(now, s.last_render) >= s.min_interval,
    ensures
        ({
            let t = spec_take_events(s, spec_pass_events(awaited, queued)).0;
            &&& t.pending
            &&& spec_redraw_begin(t, now, host, version).1 is Some
        }),
{
    lemma_pass_keeps_pending(s, spec_pass_events(awaited, queued));
}

/// A pass whose wait for a pending redraw ran out presents the redraw, at any
/// time from the end of that wait on.
pub proof fn lemma_timed_out_pass_presents(
    s: ScreenView,
    now: u64,
    queued: Seq<UiEvent>,
    then: u64,
    host: HostDataView,
    version: u8,
)
    requires
        s.pending,
        !spec_pass_wait(s, now).1,
        now >= s.last_render,
        then >= now + spec_pass_wait(s, now).0,
    ensures
        spec_redraw_begin(spec_take_events(s, spec_pass_events(None, queued)).0, then, host, version).1 is Some,
{
    lemma_due_pass_presents(s, None, queued, then, host, version);
}

/// The first redraw of a run repaints the whole screen of a screen that asks
/// for a full repaint (as [`DongleScreen::new`] leaves it): it presents every
/// row, or, when the last present is too recent, stays pending.
pub proof fn lemma_startup_repaints_everything(s: ScreenView, now: u64, host: HostDataView, version: u8)
    requires
        s.dirty == DirtyRegion::Full,
    ensures
        spec_startup(s, now, host, version).1 is None ==> spec_startup(s, now, host, version).0.pending,
        spec_startup(s, now, host, version).1 is Some ==> spec_startup(s, now, host, version).1 == Some(
            DirtyRegion::Full,
        ),
        since(now, s.last_render) >= s.min_interval ==> spec_startup(s, now, host, version).1 == Some(
            DirtyRegion::Full,
        ),
{
}

/// Each agent quadrant shows its count exactly when the count is not zero,
/// and its title is dimmed exactly then too; working and blocked sit on top,
/// idle and done below, in columns at x 52 and 140 and rows at y 50 and 141.
pub proof fn lemma_agent_cell_shows_nonzero_count(status: u8, count: u8)
    requires
        status < 4,
    ensures
        ({
            let c = spec_agent_cell(status, count);
            &&& c.status == status
            &&& c.count == count
            &&& c.show_count == (count != 0)
            &&& (c.label_tone == Tone::Dim) == (count == 0)
            &&& c.x == (if status % 2 == 0 { 52i32 } else { 140i32 })
            &&& c.y == (if status < 2 { 50i32 } else { 141i32 })
        }),
{
}

/// The agent grid holds, in order, the working, blocked, idle and done
/// counts, each shown exactly when it is not zero.
pub proof fn lemma_agent_grid_counts(agents: AgentSummary)
    ensures
        ({
            let g = spec_agent_grid(agents);
            &&& g.len() == 4
            &&& g[0].status == 0 && g[0].count == agents.working
            &&& g[1].status == 1 && g[1].count == agents.blocked
            &&& g[2].status == 2 && g[2].count == agents.idle
            &&& g[3].status == 3 && g[3].count == agents.done
            &&& forall|i: int| 0 <= i < 4 ==> (#[trigger] g[i]).show_count == (g[i].count != 0)
        }),
{
    let g = spec_agent_grid(agents);
    assert forall|i: int| 0 <= i < 4 implies (#[trigger] g[i]).show_count == (g[i].count != 0) by {
        lemma_agent_cell_shows_nonzero_count(i as u8, g[i].count);
    }
}

/// Taking in a host snapshot: one that differs from the last asks for a
/// redraw and becomes the last; a changed hour or minute repaints every
/// header row (12..44), changed agents every body row (48..234), any other
/// change the header; rows already asked for stay asked for. An unchanged
/// snapshot changes nothing.
pub proof fn lemma_host_change_repaints_its_bands(s: ScreenView, host: HostDataView)
    ensures
        ({
            let t = spec_sync_host_data(s, host);
            let time_changed = host.hour != s.last_host_data.hour || host.minute != s.last_host_data.minute;
            let agents_changed = host.agents != s.last_host_data.agents;
            &&& host == s.last_host_data ==> t == s
            &&& host != s.last_host_data ==> t.pending && t.last_host_data == host
            &&& host != s.last_host_data && !agents_changed ==> forall|y: int| 12 <= y < 44 ==> covers(t.dirty, y)
            &&& time_changed ==> forall|y: int| 12 <= y < 44 ==> covers(t.dirty, y)
            &&& agents_changed ==> forall|y: int| 48 <= y < 234 ==> covers(t.dirty, y)
            &&& s.pending ==> forall|y: int| 0 <= y < SCREEN_H && covers(s.dirty, y) ==> covers(t.dirty, y)
            &&& t.ctx == s.ctx && t.last_render == s.last_render && t.min_interval == s.min_interval
        }),
{
}

/// Each event changes what it reports and asks for the repaint it needs:
/// a layer change repaints the header, a battery level the body, and a
/// connection change, a half (dis)connecting, the central (dis)connecting or
/// waking up the whole screen; a key press lights the backlight and latches,
/// going to sleep darkens it; words per minute repaint nothing. Rows already
/// asked for stay asked for.
pub proof fn lemma_events_repaint_their_bands(s: ScreenView, ev: UiEvent)
    ensures
        ({
            let (t, backlight) = spec_apply(s, ev);
            &&& t.last_render == s.last_render && t.min_interval == s.min_interval
            &&& s.pending ==> t.pending && forall|y: int| 0 <= y < SCREEN_H && covers(s.dirty, y) ==> covers(t.dirty, y)
            &&& ev matches UiEvent::Layer(l) ==> {
                &&& t.ctx.layer == l && t.pending && backlight is None
                &&& forall|y: int| 12 <= y < 44 ==> covers(t.dirty, y)
            }
            &&& ev matches UiEvent::Wpm(w) ==> t == (ScreenView { ctx: RenderContextView { wpm: w, ..s.ctx }, ..s })
                && backlight is None
            &&& ev matches UiEvent::Key { pressed } ==> {
                &&& t.ctx.key_pressed == pressed
                &&& t.ctx.key_press_latch == (pressed || s.ctx.key_press_latch)
                &&& backlight == (if pressed { Some(true) } else { None::<bool> })
                &&& t.pending == s.pending && t.dirty == s.dirty
            }
            &&& ev matches UiEvent::Sleep(sleeping) ==> {
                &&& t.ctx.sleeping == sleeping && backlight == Some(!sleeping)
                &&& !sleeping ==> t.pending && t.dirty == DirtyRegion::Full
                &&& sleeping ==> t.pending == s.pending && t.dirty == s.dirty
            }
            &&& ev matches UiEvent::Battery(b) ==> {
                &&& t.ctx.battery == b && t.pending && backlight is None
                &&& forall|y: int| 48 <= y < 234 ==> covers(t.dirty, y)
            }
            &&& ev matches UiEvent::Connection(c) ==> t.ctx.ble_status == c && t.pending && t.dirty == DirtyRegion::Full
            &&& ev matches UiEvent::CentralConnected(c) ==> t.ctx.central_connected == c && t.pending && t.dirty
                == DirtyRegion::Full
            &&& ev matches UiEvent::PeripheralConnected { id, connected } ==> {
                &&& t.pending && t.dirty == DirtyRegion::Full
                &&& t.ctx.peripherals_connected.len() == s.ctx.peripherals_connected.len()
                &&& forall|i: int| 0 <= i < s.ctx.peripherals_connected.len() ==> #[trigger] t.ctx.peripherals_connected[i]
                    == if i == id { connected } else { s.ctx.peripherals_connected[i] }
            }
            &&& ev matches UiEvent::PeripheralBattery { id, state } ==> {
                &&& t.pending && forall|y: int| 48 <= y < 234 ==> covers(t.dirty, y)
                &&& t.ctx.peripheral_batteries.len() == s.ctx.peripheral_batteries.len()
                &&& forall|i: int| 0 <= i < s.ctx.peripheral_batteries.len() ==> #[trigger] t.ctx.peripheral_batteries[i]
                    == if i == id { state } else { s.ctx.peripheral_batteries[i] }
            }
        }),
{
    let (t, backlight) = spec_apply(s, ev);
    if s.pending {
        assert forall|y: int| 0 <= y < SCREEN_H && covers(s.dirty, y) implies covers(t.dirty, y) by {
            lemma_union_covers_both(s.dirty, header_dirty(), y);
            lemma_union_covers_both(s.dirty, body_dirty(), y);
            match ev {
                UiEvent::HostDataTick { host_data, layer_names_version } => {
                    lemma_host_change_repaints_its_bands(s, host_data@);
                    let u = spec_sync_host_data(s, host_data@);
                    lemma_union_covers_both(u.dirty, header_dirty(), y);
                },
                _ => {},
            }
        }
    }
}

/// A number the screen prints is its decimal digits, most significant first,
/// without leading zeros.
pub proof fn lemma_decimal_digits(n: u8)
    ensures
        n < 10 ==> decimal(n as nat) == seq![(48 + n) as u8],
        10 <= n < 100 ==> decimal(n as nat) == seq![(48 + n / 10) as u8, (48 + n % 10) as u8],
        100 <= n ==> decimal(n as nat) == seq![(48 + n / 100) as u8, (48 + (n / 10) % 10) as u8, (48 + n % 10) as u8],
{
    let m = n as nat;
    if n >= 100 {
        assert(m / 10 / 10 == m / 100) by (nonlinear_arith)
            requires
                m >= 100,
        ;
        assert(m / 100 < 10) by (nonlinear_arith)
            requires
                m < 256,
        ;
        assert(decimal(m / 100) == seq![(48 + m / 100) as u8]);
        assert(decimal(m / 10) == decimal(m / 10 / 10).push((48 + (m / 10) % 10) as u8));
    } else if n >= 10 {
        assert(decimal(m / 10) == seq![(48 + m / 10) as u8]);
    }
}

/// The header clock of a time of day reads `HH:MM`, each zero-padded to two
/// digits; without both an hour and a minute it reads `--:--`.
pub proof fn lemma_clock_text(hour: Option<u8>, minute: Option<u8>)
    ensures
        ({
            let t = spec_host_time_text(hour, minute);
            &&& (hour is Some && minute is Some && hour.unwrap() < 100 && minute.unwrap() < 100) ==> t == seq![
                (48 + hour.unwrap() / 10) as u8,
                (48 + hour.unwrap() % 10) as u8,
                58u8,
                (48 + minute.unwrap() / 10) as u8,
                (48 + minute.unwrap() % 10) as u8,
            ]
            &&& (hour is None || minute is None) ==> t == seq![45u8, 45u8, 58u8, 45u8, 45u8]
        }),
{
    match (hour, minute) {
        (Some(h), Some(m)) => {
            lemma_decimal_digits(h);
            lemma_decimal_digits(m);
            if h < 100 && m < 100 {
                assert(spec_host_time_text(hour, minute) =~= seq![
                    (48 + h / 10) as u8,
                    (48 + h % 10) as u8,
                    58u8,
                    (48 + m / 10) as u8,
                    (48 + m % 10) as u8,
                ]);
            }
        },
        _ => {},
    }
}

/// A connected half's gauge for `p` percent (at most 100) is labelled with
/// `p` and a percent sign; its fill, when `p` is not 0, rests on the bottom of
/// the bar (y 80 to 220) and is `p` percent of its 140 rows, at least 2; it is
/// red under 10 %, yellow under 25 %. An unconnected half shows `--`.
pub proof fn lemma_gauge_fill_rests_on_bottom(p: u8, reading: BatReading)
    requires
        p <= 100,
    ensures
        ({
            let (label, tone, fill) = spec_bat_column(BatReading::Pct(p), true);
            &&& label == decimal(p as nat).push(37u8)
            &&& (p < 10 ==> tone == Tone::Red) && (10 <= p < 25 ==> tone == Tone::Yellow) && (25 <= p ==> tone == Tone::Fg)
            &&& (p == 0) == (fill is None)
            &&& fill matches Some((y, h, bar)) ==> {
                &&& y + h == 220
                &&& h == (if 140 * p / 100 < 2 { 2 } else { 140 * p / 100 })
                &&& 2 <= h <= 140
                &&& (p < 10 ==> bar == Tone::Red) && (10 <= p < 25 ==> bar == Tone::Yellow) && (25 <= p ==> bar
                    == Tone::BarFg)
            }
        }),
        spec_bat_column(reading, false) == (seq![45u8, 45u8], Tone::Dim, None::<(i32, u32, Tone)>),
{
    assert(140 * p / 100 <= 140) by (nonlinear_arith)
        requires
            p <= 100,
    ;
}

/// Merging dirty regions does not depend on their order or grouping, and
/// merging a region with itself changes nothing.
pub proof fn lemma_union_algebra(a: DirtyRegion, b: DirtyRegion, c: DirtyRegion)
    ensures
        spec_union(a, b) == spec_union(b, a),
        spec_union(spec_union(a, b), c) == spec_union(a, spec_union(b, c)),
        spec_union(a, a) == a,
{
}

/// Every on-screen row either region repaints, their union repaints.
pub proof fn lemma_union_covers_both(a: DirtyRegion, b: DirtyRegion, y: int)
    requires
        0 <= y < SCREEN_H,
        covers(a, y) || covers(b, y),
    ensures
        covers(spec_union(a, b), y),
{
}

/// Asking for a region to be repainted keeps every row already asked for and
/// adds the new ones.
pub proof fn lemma_request_region_keeps_rows(s: ScreenView, d: DirtyRegion, y: int)
    requires
        0 <= y < SCREEN_H,
        covers(d, y) || (s.pending && covers(s.dirty, y)),
    ensures
        spec_request_region(s, d).pending,
        covers(spec_request_region(s, d).dirty, y),
{
}

/// The stripes of a present tile its rows: they start at the first row, each
/// begins where the previous one ended, each is 1 to 48 rows high, and the
/// last ends at the region's end (clamped to the screen).
pub proof fn lemma_present_bands_tile(d: DirtyRegion)
    ensures
        ({
            let bands = spec_present_bands(d);
            let (y0, y1) = present_rows(d);
            &&& y0 < y1 ==> bands.len() > 0 && bands[0].0 == y0 && bands.last().0 + bands.last().1 == y1
            &&& y0 >= y1 ==> bands.len() == 0
            &&& forall|i: int| 0 <= i < bands.len() ==> 1 <= #[trigger] bands[i].1 <= STRIPE_H
            &&& forall|i: int|
                0 <= i < bands.len() - 1 ==> #[trigger] bands[i].0 + bands[i].1 == bands[i + 1].0
        }),
{
    let bands = spec_present_bands(d);
    let (y0, y1) = present_rows(d);
    if y0 < y1 {
        let n = (y1 - y0 + 47) / 48;
        assert(n >= 1);
        assert(48 * (n - 1) < y1 - y0 <= 48 * n) by (nonlinear_arith)
            requires
                n == (y1 - y0 + 47) / 48,
                y1 - y0 >= 1,
        ;
        assert forall|i: int| 0 <= i < bands.len() implies 1 <= #[trigger] bands[i].1 <= STRIPE_H by {
            assert(48 * i <= 48 * (n - 1)) by (nonlinear_arith)
                requires
                    i <= n - 1,
            ;
        }
        assert forall|i: int| 0 <= i < bands.len() - 1 implies #[trigger] bands[i].0 + bands[i].1
            == bands[i + 1].0 by {
            assert(48 * (i + 1) <= 48 * (n - 1)) by (nonlinear_arith)
                requires
                    i + 1 <= n - 1,
            ;
        }
    }
}

} // verus!
