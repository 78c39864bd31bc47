//! A painter over an in-memory RGBA surface, or over no storage at all where
//! the real framebuffer is not wired yet.

use vstd::prelude::*;
use crate::widgets::{Color, PixelSink, PixelWrite, Rect};

verus! {

/// The RGBA8888 word of an opaque pixel.
pub open spec fn pack_rgb(r: u8, g: u8, b: u8) -> u32 {
    ((r as u32) << 24u32) | ((g as u32) << 16u32) | ((b as u32) << 8u32) | 0xFFu32
}

fn pack(r: u8, g: u8, b: u8) -> (px: u32)
    ensures
        px == pack_rgb(r, g, b),
{
    ((r as u32) << 24u32) | ((g as u32) << 16u32) | ((b as u32) << 8u32) | 0xFFu32
}

/// Distinct points of a row-major surface `w` wide have distinct indices.
proof fn lemma_index_unique(w: int, x1: int, y1: int, x2: int, y2: int)
    requires
        0 <= x1 < w,
        0 <= x2 < w,
        0 <= y1,
        0 <= y2,
        y1 * w + x1 == y2 * w + x2,
    ensures
        x1 == x2 && y1 == y2,
{
    if y1 < y2 {
        assert(y1 * w + w <= y2 * w) by (nonlinear_arith)
            requires
                y1 < y2,
                w > 0,
        ;
    } else if y2 < y1 {
        assert(y2 * w + w <= y1 * w) by (nonlinear_arith)
            requires
                y2 < y1,
                w > 0,
        ;
    }
}

/// A point of a row-major surface `w` wide and `h` high has an index below
/// `w * h`.
proof fn lemma_index_bound(w: int, h: int, x: int, y: int)
    requires
        0 <= x < w,
        0 <= y < h,
    ensures
        0 <= y * w + x < w * h,
{
    assert(0 <= y * w + x < w * h) by (nonlinear_arith)
        requires
            0 <= x < w,
            0 <= y < h,
    ;
}

/// A drawing surface of `w` by `h` pixels, stored row by row, and the number
/// of frames presented so far.
pub struct Painter {
    w: i32,
    h: i32,
    buf: Vec<u32>,
    frame_count: u64,
    /// The writes received through `PixelSink::put`.
    log: Ghost<Seq<PixelWrite>>,
}

impl Painter {
    /// Width in pixels.
    pub closed spec fn wide(&self) -> int {
        self.w as int
    }

    /// Height in pixels.
    pub closed spec fn high(&self) -> int {
        self.h as int
    }

    /// Frames presented so far.
    pub closed spec fn frames(&self) -> u64 {
        self.frame_count
    }

    /// Whether the surface has storage behind it.
    pub closed spec fn stored(&self) -> bool {
        self.buf.len() > 0
    }

    /// The stored pixels, row by row.
    pub closed spec fn pixels(&self) -> Seq<u32> {
        self.buf@
    }

    /// The stored pixel at `(x, y)`.
    pub open spec fn pixel(&self, x: int, y: int) -> u32 {
        self.pixels()[y * self.wide() + x]
    }

    /// `(x, y)` lies on the surface.
    pub open spec fn on_surface(&self, x: int, y: int) -> bool {
        0 <= x < self.wide() && 0 <= y < self.high()
    }

    /// The size is positive, and the storage is empty or holds every pixel.
    pub closed spec fn wf(&self) -> bool {
        &&& self.w >= 1
        &&& self.h >= 1
        &&& (self.buf.len() == 0 || self.buf.len() == self.w * self.h)
    }

    /// A painter over a cleared in-memory surface; sizes below one count as one.
    pub fn new_devhost(w: i32, h: i32) -> (p: Painter)
        requires
            (if w >= 1 { w as int } else { 1 }) * (if h >= 1 { h as int } else { 1 }) <= usize::MAX,
        ensures
            p.wf(),
            p.stored(),
            p.wide() == if w >= 1 { w as int } else { 1 },
            p.high() == if h >= 1 { h as int } else { 1 },
            p.frames() == 0,
            p.pixels() =~= Seq::new((p.wide() * p.high()) as nat, |i: int| 0u32),
    {
        let w: i32 = if w >= 1 { w } else { 1 };
        let h: i32 = if h >= 1 { h } else { 1 };
        assert((w as int) * (h as int) >= 1) by (nonlinear_arith)
            requires
                w >= 1,
                h >= 1,
        ;
        let buf = vec![0u32; (w as usize) * (h as usize)];
        Painter { w, h, buf, frame_count: 0, log: Ghost(Seq::empty()) }
    }

    /// A painter with no storage behind it: drawing on it changes nothing.
    pub fn new_os_stub(w: i32, h: i32) -> (p: Painter)
        ensures
            p.wf(),
            !p.stored(),
            p.wide() == if w >= 1 { w as int } else { 1 },
            p.high() == if h >= 1 { h as int } else { 1 },
            p.frames() == 0,
    {
        let w: i32 = if w >= 1 { w } else { 1 };
        let h: i32 = if h >= 1 { h } else { 1 };
        Painter { w, h, buf: Vec::new(), frame_count: 0, log: Ghost(Seq::empty()) }
    }

    pub fn width(&self) -> (r: i32)
        ensures
            r == self.wide(),
    {
        self.w
    }

    pub fn height(&self) -> (r: i32)
        ensures
            r == self.high(),
    {
        self.h
    }

    pub fn frame(&self) -> (r: u64)
        ensures
            r == self.frames(),
    {
        self.frame_count
    }

    /// Sets every pixel to the opaque colour `(r, g, b)`.
    pub fn clear_rgb(&mut self, r: u8, g: u8, b: u8)
        requires
            old(self).wf(),
        ensures
            final(self).wf(),
            final(self).wide() == old(self).wide(),
            final(self).high() == old(self).high(),
            final(self).frames() == old(self).frames(),
            final(self).stored() == old(self).stored(),
            final(self).pixels() =~= Seq::new(old(self).pixels().len(), |i: int| pack_rgb(r, g, b)),
    {
        let px = pack(r, g, b);
        let n = self.buf.len();
        for i in 0..n
            invariant
                n == self.buf.len(),
                self.w == old(self).w,
                self.h == old(self).h,
                self.frame_count == old(self).frame_count,
                old(self).wf(),
                forall|j: int| 0 <= j < i ==> self.buf@[j] == px,
        {
            self.buf.set(i, px);
        }
    }

    /// Sets the pixel at `(x, y)` to the opaque colour `(r, g, b)`; a point off
    /// the surface, or a surface without storage, is left alone.
    pub fn put_px(&mut self, x: i32, y: i32, r: u8, g: u8, b: u8)
        requires
            old(self).wf(),
        ensures
            final(self).wf(),
            final(self).wide() == old(self).wide(),
            final(self).high() == old(self).high(),
            final(self).frames() == old(self).frames(),
            final(self).stored() == old(self).stored(),
            final(self).received() == old(self).received(),
            final(self).pixels() == if old(self).on_surface(x as int, y as int) && old(self).stored() {
                old(self).pixels().update(y * old(self).wide() + x, pack_rgb(r, g, b))
            } else {
                old(self).pixels()
            },
    {
        if x < 0 || y < 0 || x >= self.w || y >= self.h || self.buf.len() == 0 {
            return;
        }
        proof {
            lemma_index_bound(self.w as int, self.h as int, x as int, y as int);
        }
        let idx = (y as usize) * (self.w as usize) + (x as usize);
        self.buf.set(idx, pack(r, g, b));
    }

    /// Ends a frame: counts it, wrapping around at the end of `u64`.
    pub fn present(&mut self)
        ensures
            final(self).frames() == old(self).frames().wrapping_add(1),
            final(self).pixels() == old(self).pixels(),
            final(self).wide() == old(self).wide(),
            final(self).high() == old(self).high(),
            final(self).stored() == old(self).stored(),
            final(self).wf() == old(self).wf(),
    {
        self.frame_count = self.frame_count.wrapping_add(1);
    }

    /// Fills the rectangle of `w` by `h` pixels at `(x, y)`, clipped to the
    /// surface, with the opaque colour `(r, g, b)`.
    pub fn rect(&mut self, x: i32, y: i32, w: i32, h: i32, r: u8, g: u8, b: u8)
        requires
            old(self).wf(),
        ensures
            final(self).wf(),
            final(self).wide() == old(self).wide(),
            final(self).high() == old(self).high(),
            final(self).frames() == old(self).frames(),
            final(self).stored() == old(self).stored(),
            final(self).pixels().len() == old(self).pixels().len(),
            !old(self).stored() ==> final(self).pixels() == old(self).pixels(),
            old(self).stored() ==> forall|px: int, py: int|
                #![trigger final(self).pixel(px, py)]
                old(self).on_surface(px, py) ==> final(self).pixel(px, py) == if (Rect { x, y, w, h }).holds(px, py) {
                    pack_rgb(r, g, b)
                } else {
                    old(self).pixel(px, py)
                },
    {
        if self.buf.len() == 0 {
            return;
        }
        let area = Rect { x, y, w, h };
        let x0: i32 = if x >= 0 { x } else { 0 };
        let y0: i32 = if y >= 0 { y } else { 0 };
        let xe: i64 = x as i64 + w as i64;
        let ye: i64 = y as i64 + h as i64;
        let x1: i64 = if xe <= self.w as i64 { xe } else { self.w as i64 };
        let y1: i64 = if ye <= self.h as i64 { ye } else { self.h as i64 };
        if x1 <= x0 as i64 || y1 <= y0 as i64 {
            assert forall|px: int, py: int| old(self).on_surface(px, py) implies !area.holds(px, py) by {}
            return;
        }
        let x1 = x1 as i32;
        let y1 = y1 as i32;
        let ghost start = *self;
        for yy in y0..y1
            invariant
                self.wf(),
                self.stored(),
                self.w == start.w,
                self.h == start.h,
                self.frame_count == start.frame_count,
                self.buf.len() == start.buf.len(),
                start.wf(),
                area == (Rect { x, y, w, h }),
                x0 < x1,
                x0 == if x >= 0 { x } else { 0 },
                y0 == if y >= 0 { y } else { 0 },
                y1 == if ye <= start.h { ye } else { start.h as i64 },
                ye == y + h,
                x1 == if xe <= start.w { xe } else { start.w as i64 },
                xe == x + w,
                forall|px: int, py: int|
                    #![trigger self.pixel(px, py)]
                    start.on_surface(px, py) ==> self.pixel(px, py) == if area.holds(px, py) && py < yy {
                        pack_rgb(r, g, b)
                    } else {
                        start.pixel(px, py)
                    },
        {
            for xx in x0..x1
                invariant
                    self.wf(),
                    self.stored(),
                    self.w == start.w,
                    self.h == start.h,
                    self.frame_count == start.frame_count,
                    self.buf.len() == start.buf.len(),
                    start.wf(),
                    area == (Rect { x, y, w, h }),
                    0 <= yy < start.h,
                    y0 <= yy,
                    y0 == if y >= 0 { y } else { 0 },
                    yy < y + h,
                    x0 == if x >= 0 { x } else { 0 },
                    x1 == if xe <= start.w { xe } else { start.w as i64 },
                    xe == x + w,
                    forall|px: int, py: int|
                        #![trigger self.pixel(px, py)]
                        start.on_surface(px, py) ==> self.pixel(px, py) == if area.holds(px, py) && (py < yy || (
                        py == yy && px < xx)) {
                            pack_rgb(r, g, b)
                        } else {
                            start.pixel(px, py)
                        },
            {
                let ghost before = *self;
                self.put_px(xx, yy, r, g, b);
                proof {
                    assert forall|px: int, py: int| start.on_surface(px, py) implies #[trigger] self.pixel(px, py)
                        == if area.holds(px, py) && (py < yy || (py == yy && px < xx + 1)) {
                        pack_rgb(r, g, b)
                    } else {
                        start.pixel(px, py)
                    } by {
                        let idx = yy * start.w + xx;
                        lemma_index_bound(start.w as int, start.h as int, xx as int, yy as int);
                        assert(self.pixels() == before.pixels().update(idx, pack_rgb(r, g, b)));
                        lemma_index_bound(start.w as int, start.h as int, px, py);
                        if px != xx || py != yy {
                            if py * start.w + px == idx {
                                lemma_index_unique(start.w as int, px, py, xx as int, yy as int);
                            }
                            assert(self.pixel(px, py) == before.pixel(px, py));
                        } else {
                            assert(self.pixel(px, py) == pack_rgb(r, g, b));
                        }
                    }
                }
            }
        }
    }

    /// The pixels as RGB bytes, three per pixel, row by row.
    pub fn rgb_bytes(&self) -> (out: Vec<u8>)
        ensures
            out@.len() == 3 * self.pixels().len(),
            forall|i: int|
                0 <= i < self.pixels().len() ==> {
                    &&& #[trigger] out@[3 * i] == #[verifier::truncate] ((self.pixels()[i] >> 24u32) as u8)
                    &&& out@[3 * i + 1] == #[verifier::truncate] ((self.pixels()[i] >> 16u32) as u8)
                    &&& out@[3 * i + 2] == #[verifier::truncate] ((self.pixels()[i] >> 8u32) as u8)
                },
    {
        let mut out: Vec<u8> = Vec::new();
        let n = self.buf.len();
        let mut i: usize = 0;
        while i < n
            invariant
                n == self.buf.len(),
                i <= n,
                out@.len() == 3 * i,
                forall|j: int|
                    0 <= j < i ==> {
                        &&& #[trigger] out@[3 * j] == #[verifier::truncate] ((self.buf@[j] >> 24u32) as u8)
                        &&& out@[3 * j + 1] == #[verifier::truncate] ((self.buf@[j] >> 16u32) as u8)
                        &&& out@[3 * j + 2] == #[verifier::truncate] ((self.buf@[j] >> 8u32) as u8)
                    },
            decreases n - i,
        {
            let p = self.buf[i];
            let ghost prev = out@;
            out.push(#[verifier::truncate] ((p >> 24u32) as u8));
            out.push(#[verifier::truncate] ((p >> 16u32) as u8));
            out.push(#[verifier::truncate] ((p >> 8u32) as u8));
            proof {
                assert forall|j: int| 0 <= j < i implies #[trigger] out@[3 * j] == prev[3 * j] && out@[3 * j + 1]
                    == prev[3 * j + 1] && out@[3 * j + 2] == prev[3 * j + 2] by {}
                assert(out@[3 * i as int] == #[verifier::truncate] ((self.buf@[i as int] >> 24u32) as u8));
                assert(out@[3 * i as int + 1] == #[verifier::truncate] ((self.buf@[i as int] >> 16u32) as u8));
                assert(out@[3 * i as int + 2] == #[verifier::truncate] ((self.buf@[i as int] >> 8u32) as u8));
            }
            i = i + 1;
        }
        out
    }
}

impl PixelSink for Painter {
    closed spec fn extent(&self) -> (i32, i32) {
        (self.w, self.h)
    }

    closed spec fn received(&self) -> Seq<PixelWrite> {
        self.log@
    }

    fn size(&self) -> (r: (i32, i32))
        ensures
            r.0 == self.wide() && r.1 == self.high(),
    {
        (self.w, self.h)
    }

    fn put(&mut self, x: i32, y: i32, c: Color)
        ensures
            old(self).wf() ==> final(self).pixels() == if old(self).on_surface(x as int, y as int) && old(self).stored() {
                old(self).pixels().update(y * old(self).wide() + x, pack_rgb(c.r, c.g, c.b))
            } else {
                old(self).pixels()
            },
            final(self).wide() == old(self).wide(),
            final(self).high() == old(self).high(),
            final(self).wf() == old(self).wf(),
    {
        if self.w >= 1 && self.h >= 1 {
            let cols = self.w as u64;
            let rows = self.h as u64;
            assert(cols * rows <= 0x4000_0000_0000_0000) by (nonlinear_arith)
                requires
                    cols <= 0x8000_0000,
                    rows <= 0x8000_0000,
            ;
            if self.buf.len() == 0 || self.buf.len() as u64 == cols * rows {
                self.put_px(x, y, c.r, c.g, c.b);
            }
        }
        self.log = Ghost(self.log@.push((x, y, c)));
    }
}

} // verus!
