//! Immediate-mode widgets over any surface that can set pixels.

use vstd::prelude::*;

verus! {

/// An RGBA colour; fills ignore alpha.
#[derive(Copy, Clone, Debug, PartialEq, Eq, Structural)]
pub struct Color {
    pub r: u8,
    pub g: u8,
    pub b: u8,
    pub a: u8,
}

impl Color {
    /// The background colour of the palette.
    pub fn bg() -> (c: Color)
        ensures
            c == (Color { r: 16, g: 16, b: 24, a: 255 }),
    {
        Color { r: 16, g: 16, b: 24, a: 255 }
    }

    /// The panel fill colour of the palette.
    pub fn panel() -> (c: Color)
        ensures
            c == (Color { r: 32, g: 32, b: 48, a: 255 }),
    {
        Color { r: 32, g: 32, b: 48, a: 255 }
    }

    /// The panel header band colour of the palette.
    pub fn panel_hi() -> (c: Color)
        ensures
            c == (Color { r: 48, g: 48, b: 72, a: 255 }),
    {
        Color { r: 48, g: 48, b: 72, a: 255 }
    }

    /// The foreground colour of the palette.
    pub fn fg() -> (c: Color)
        ensures
            c == (Color { r: 220, g: 220, b: 230, a: 255 }),
    {
        Color { r: 220, g: 220, b: 230, a: 255 }
    }

    /// The accent colour of the palette.
    pub fn accent() -> (c: Color)
        ensures
            c == (Color { r: 80, g: 160, b: 255, a: 255 }),
    {
        Color { r: 80, g: 160, b: 255, a: 255 }
    }

    /// The warning colour of the palette.
    pub fn warn() -> (c: Color)
        ensures
            c == (Color { r: 255, g: 180, b: 0, a: 255 }),
    {
        Color { r: 255, g: 180, b: 0, a: 255 }
    }

    /// The error colour of the palette.
    pub fn err() -> (c: Color)
        ensures
            c == (Color { r: 220, g: 80, b: 80, a: 255 }),
    {
        Color { r: 220, g: 80, b: 80, a: 255 }
    }

    /// An opaque colour.
    pub fn rgb(r: u8, g: u8, b: u8) -> (c: Color)
        ensures
            c == (Color { r, g, b, a: 255 }),
    {
        Color { r, g, b, a: 255 }
    }

    /// A colour with the given alpha.
    pub fn rgba(r: u8, g: u8, b: u8, a: u8) -> (c: Color)
        ensures
            c == (Color { r, g, b, a }),
    {
        Color { r, g, b, a }
    }
}

/// A rectangle in pixel coordinates: `w` columns from `x`, `h` rows from `y`.
#[derive(Copy, Clone, Debug, PartialEq, Eq, Structural)]
pub struct Rect {
    pub x: i32,
    pub y: i32,
    pub w: i32,
    pub h: i32,
}

impl Rect {
    /// The point `(px, py)` lies inside the rectangle.
    pub open spec fn holds(self, px: int, py: int) -> bool {
        &&& self.x <= px < self.x + self.w
        &&& self.y <= py < self.y + self.h
    }

    pub fn new(x: i32, y: i32, w: i32, h: i32) -> (r: Rect)
        ensures
            r == (Rect { x, y, w, h }),
    {
        Rect { x, y, w, h }
    }

    /// Whether `(px, py)` lies inside the rectangle.
    pub fn contains(&self, px: i32, py: i32) -> (b: bool)
        ensures
            b == self.holds(px as int, py as int),
    {
        px >= self.x && py >= self.y && (px as i64) < self.x as i64 + self.w as i64 && (py as i64)
            < self.y as i64 + self.h as i64
    }
}

/// A snapshot of the pointer for immediate-mode interaction.
#[derive(Copy, Clone, Debug, Default, PartialEq, Eq, Structural)]
pub struct UiState {
    pub mouse_x: i32,
    pub mouse_y: i32,
    /// The primary button is down.
    pub pressed: bool,
    /// The primary button went down this frame.
    pub just_pressed: bool,
    /// The primary button went up this frame.
    pub just_released: bool,
}

/// The larger of two coordinates.
fn max_i32(a: i32, b: i32) -> (r: i32)
    ensures
        r == if a >= b { a } else { b },
{
    if a >= b {
        a
    } else {
        b
    }
}

/// The smaller of two wide coordinates.
fn min_i64(a: i64, b: i64) -> (r: i64)
    ensures
        r == if a <= b { a } else { b },
{
    if a <= b {
        a
    } else {
        b
    }
}

/// The far edge `start + len - 1` of a span, kept to at most `limit - 1` and
/// to no less than `i32::MIN`.
pub open spec fn last_edge(start: i32, len: i32, limit: i32) -> int {
    if start + len - 1 <= limit - 1 {
        if start + len - 1 >= i32::MIN { start + len - 1 } else { i32::MIN as int }
    } else {
        if limit - 1 >= i32::MIN { limit - 1 } else { i32::MIN as int }
    }
}

fn last_within(start: i32, len: i32, limit: i32) -> (r: i32)
    ensures
        r == last_edge(start, len, limit),
{
    let v = min_i64(start as i64 + len as i64 - 1, limit as i64 - 1);
    if v < i32::MIN as i64 {
        i32::MIN
    } else {
        v as i32
    }
}

/// The near edge of a span clipped to a surface that starts at zero.
pub open spec fn clip_lo(v: i32) -> int {
    if v >= 0 { v as int } else { 0 }
}

/// The end of the span of `len` from `v`, clipped to a surface `limit` long.
pub open spec fn clip_hi(v: i32, len: i32, limit: i32) -> int {
    if v + len <= limit { v + len } else { limit as int }
}

/// One write of colour `c` at `(x, y)`, as a sink receives it.
pub type PixelWrite = (i32, i32, Color);

/// The writes that fill row `y` from column `x0` up to `x1`, left to right.
pub open spec fn span_writes(x0: int, x1: int, y: int, c: Color) -> Seq<PixelWrite> {
    Seq::new(if x1 > x0 { (x1 - x0) as nat } else { 0 }, |i: int| ((x0 + i) as i32, y as i32, c))
}

/// The writes that fill columns `x0..x1` of rows `y0..y1`, row by row.
pub open spec fn block_writes(x0: int, x1: int, y0: int, y1: int, c: Color) -> Seq<PixelWrite>
    decreases y1 - y0,
{
    if y1 <= y0 {
        Seq::empty()
    } else {
        block_writes(x0, x1, y0, y1 - 1, c) + span_writes(x0, x1, y1 - 1, c)
    }
}

/// The writes that fill `r`, clipped to a surface of `size`, with `c`.
pub open spec fn fill_writes(r: Rect, size: (i32, i32), c: Color) -> Seq<PixelWrite> {
    let x0 = clip_lo(r.x);
    let y0 = clip_lo(r.y);
    let x1 = clip_hi(r.x, r.w, size.0);
    let y1 = clip_hi(r.y, r.h, size.1);
    if x1 <= x0 || y1 <= y0 {
        Seq::empty()
    } else {
        block_writes(x0, x1, y0, y1, c)
    }
}

/// For each column of `x0..x1`, left to right, a write in row `ya` and one in
/// row `yb`.
pub open spec fn column_pairs(x0: int, x1: int, ya: int, yb: int, c: Color) -> Seq<PixelWrite>
    decreases x1 - x0,
{
    if x1 <= x0 {
        Seq::empty()
    } else {
        column_pairs(x0, x1 - 1, ya, yb, c) + seq![((x1 - 1) as i32, ya as i32, c), ((x1 - 1) as i32, yb as i32, c)]
    }
}

/// For each row of `y0..y1`, top to bottom, a write in column `xa` and one in
/// column `xb`.
pub open spec fn row_pairs(y0: int, y1: int, xa: int, xb: int, c: Color) -> Seq<PixelWrite>
    decreases y1 - y0,
{
    if y1 <= y0 {
        Seq::empty()
    } else {
        row_pairs(y0, y1 - 1, xa, xb, c) + seq![(xa as i32, (y1 - 1) as i32, c), (xb as i32, (y1 - 1) as i32, c)]
    }
}

/// The writes that draw the border of `r` on a surface of `size`: the top and
/// bottom edges column by column, then the left and right edges row by row.
pub open spec fn stroke_writes(r: Rect, size: (i32, i32), c: Color) -> Seq<PixelWrite> {
    let left = clip_lo(r.x);
    let top = clip_lo(r.y);
    let right = last_edge(r.x, r.w, size.0);
    let bottom = last_edge(r.y, r.h, size.1);
    column_pairs(left, clip_hi(r.x, r.w, size.0), top, bottom, c) + row_pairs(
        top,
        clip_hi(r.y, r.h, size.1),
        left,
        right,
        c,
    )
}

/// A surface that can set single pixels and reports its size.
pub trait PixelSink {
    /// The size the surface reports.
    spec fn extent(&self) -> (i32, i32);

    /// Every pixel write the surface has received through `put`, in order.
    spec fn received(&self) -> Seq<PixelWrite>;

    /// Width and height of the surface.
    fn size(&self) -> (r: (i32, i32))
        ensures
            r == self.extent(),
    ;

    /// Sets the pixel at `(x, y)`; a point off the surface is ignored.
    fn put(&mut self, x: i32, y: i32, c: Color)
        ensures
            final(self).received() == old(self).received().push((x, y, c)),
            final(self).extent() == old(self).extent(),
    ;

    /// Fills `r`, clipped to the surface, with `c`, row by row.
    fn fill_rect(&mut self, r: Rect, c: Color)
        ensures
            final(self).received() == old(self).received() + fill_writes(r, old(self).extent(), c),
            final(self).extent() == old(self).extent(),
    {
        let ghost start = self.received();
        let (sw, sh) = self.size();
        let x0 = max_i32(r.x, 0);
        let y0 = max_i32(r.y, 0);
        let x1 = min_i64(r.x as i64 + r.w as i64, sw as i64);
        let y1 = min_i64(r.y as i64 + r.h as i64, sh as i64);
        if x1 <= x0 as i64 || y1 <= y0 as i64 {
            assert(start + Seq::<PixelWrite>::empty() =~= start);
            return;
        }
        let x1 = x1 as i32;
        let y1 = y1 as i32;
        assert(start + block_writes(x0 as int, x1 as int, y0 as int, y0 as int, c) =~= start);
        for yy in y0..y1
            invariant
                x0 < x1,
                self.extent() == (sw, sh),
                self.received() == start + block_writes(x0 as int, x1 as int, y0 as int, yy as int, c),
        {
            let ghost done = self.received();
            assert(done + span_writes(x0 as int, x0 as int, yy as int, c) =~= done);
            for xx in x0..x1
                invariant
                    self.extent() == (sw, sh),
                    self.received() == done + span_writes(x0 as int, xx as int, yy as int, c),
            {
                self.put(xx, yy, c);
                assert(span_writes(x0 as int, xx + 1, yy as int, c) =~= span_writes(x0 as int, xx as int, yy as int, c).push((xx, yy, c)));
                assert(self.received() =~= done + span_writes(x0 as int, xx + 1, yy as int, c));
            }
            assert(block_writes(x0 as int, x1 as int, y0 as int, yy + 1, c) == block_writes(x0 as int, x1 as int, y0 as int, yy as int, c) + span_writes(x0 as int, x1 as int, yy as int, c));
            assert(self.received() =~= start + block_writes(x0 as int, x1 as int, y0 as int, yy + 1, c));
        }
    }

    /// Draws the one-pixel border of `r`; edges past the surface are drawn
    /// along the surface's own edge.
    fn stroke_rect(&mut self, r: Rect, c: Color)
        ensures
            final(self).received() == old(self).received() + stroke_writes(r, old(self).extent(), c),
            final(self).extent() == old(self).extent(),
    {
        let ghost start = self.received();
        let (sw, sh) = self.size();
        let left = max_i32(r.x, 0);
        let top = max_i32(r.y, 0);
        let right = last_within(r.x, r.w, sw);
        let bottom = last_within(r.y, r.h, sh);
        let x1 = min_i64(r.x as i64 + r.w as i64, sw as i64);
        if x1 > left as i64 {
            let x1 = x1 as i32;
            assert(start + column_pairs(left as int, left as int, top as int, bottom as int, c) =~= start);
            for x in left..x1
                invariant
                    self.extent() == (sw, sh),
                    self.received() == start + column_pairs(left as int, x as int, top as int, bottom as int, c),
            {
                let ghost before = self.received();
                self.put(x, top, c);
                self.put(x, bottom, c);
                assert(self.received() =~= start + column_pairs(left as int, x + 1, top as int, bottom as int, c));
            }
        } else {
            assert(start + column_pairs(left as int, x1 as int, top as int, bottom as int, c) =~= start);
        }
        let ghost mid = self.received();
        assert(mid == start + column_pairs(left as int, clip_hi(r.x, r.w, sw), top as int, bottom as int, c));
        let y1 = min_i64(r.y as i64 + r.h as i64, sh as i64);
        if y1 > top as i64 {
            let y1 = y1 as i32;
            assert(mid + row_pairs(top as int, top as int, left as int, right as int, c) =~= mid);
            for y in top..y1
                invariant
                    self.extent() == (sw, sh),
                    self.received() == mid + row_pairs(top as int, y as int, left as int, right as int, c),
            {
                self.put(left, y, c);
                self.put(right, y, c);
                assert(self.received() =~= mid + row_pairs(top as int, y + 1, left as int, right as int, c));
            }
        } else {
            assert(mid + row_pairs(top as int, y1 as int, left as int, right as int, c) =~= mid);
        }
        assert(self.received() =~= start + stroke_writes(r, (sw, sh), c));
    }
}

/// The content area of a panel drawn in `rect`: eight pixels in from the
/// sides, below the header band, and never of negative size.
pub open spec fn panel_content(rect: Rect) -> Rect {
    Rect {
        x: (rect.x + 8) as i32,
        y: (rect.y + 22) as i32,
        w: if rect.w - 16 >= 0 { (rect.w - 16) as i32 } else { 0 },
        h: if rect.h - 30 >= 0 { (rect.h - 30) as i32 } else { 0 },
    }
}

/// Draws a panel with a header band and a border; returns its content area.
pub fn panel<S: PixelSink>(sink: &mut S, rect: Rect) -> (inner: Rect)
    requires
        rect.x + 8 <= i32::MAX,
        rect.y + 22 <= i32::MAX,
    ensures
        inner == panel_content(rect),
        final(sink).extent() == old(sink).extent(),
        final(sink).received() == old(sink).received() + fill_writes(rect, old(sink).extent(), Color { r: 32, g: 32, b: 48, a: 255 })
            + fill_writes(Rect { x: rect.x, y: rect.y, w: rect.w, h: 18 }, old(sink).extent(), Color { r: 48, g: 48, b: 72, a: 255 })
            + stroke_writes(rect, old(sink).extent(), Color { r: 24, g: 24, b: 36, a: 255 }),
{
    sink.fill_rect(rect, Color::panel());
    let header = Rect::new(rect.x, rect.y, rect.w, 18);
    sink.fill_rect(header, Color::panel_hi());
    sink.stroke_rect(rect, Color::rgb(24, 24, 36));
    let w = if rect.w >= i32::MIN + 16 && rect.w - 16 > 0 {
        rect.w - 16
    } else {
        0
    };
    let h = if rect.h >= i32::MIN + 30 && rect.h - 30 > 0 {
        rect.h - 30
    } else {
        0
    };
    Rect::new(rect.x + 8, rect.y + 22, w, h)
}

/// Draws a short baseline dash of 24 pixels from `(x, y)` where a label goes.
pub fn label_baseline<S: PixelSink>(sink: &mut S, x: i32, y: i32, text: &str)
    requires
        x + 24 <= i32::MAX,
    ensures
        final(sink).extent() == old(sink).extent(),
        final(sink).received() == old(sink).received() + span_writes(
            x as int,
            x + 24,
            y as int,
            Color { r: 220, g: 220, b: 230, a: 255 },
        ),
{
    let ghost start = sink.received();
    let fg = Color::fg();
    assert(start + span_writes(x as int, x as int, y as int, fg) =~= start);
    for dx in 0..24i32
        invariant
            x + 24 <= i32::MAX,
            fg == (Color { r: 220, g: 220, b: 230, a: 255 }),
            sink.extent() == old(sink).extent(),
            sink.received() == start + span_writes(x as int, x + dx, y as int, fg),
    {
        sink.put(x + dx, y, fg);
        assert(sink.received() =~= start + span_writes(x as int, x + dx + 1, y as int, fg));
    }
}

/// Whether a button in `rect` is clicked this frame: the pointer is over it
/// and the button was released this frame, or, where releases are not
/// tracked, is held down.
pub open spec fn is_click(rect: Rect, ui: UiState) -> bool {
    let hovered = rect.holds(ui.mouse_x as int, ui.mouse_y as int);
    if ui.just_released {
        hovered
    } else {
        hovered && ui.pressed
    }
}

/// Draws a button, highlighted while the pointer is over it, and reports a
/// click.
pub fn button<S: PixelSink>(sink: &mut S, rect: Rect, label: &str, ui: UiState) -> (clicked: bool)
    ensures
        clicked == is_click(rect, ui),
        final(sink).extent() == old(sink).extent(),
        final(sink).received() == old(sink).received() + fill_writes(
            rect,
            old(sink).extent(),
            if rect.holds(ui.mouse_x as int, ui.mouse_y as int) {
                Color { r: 52, g: 52, b: 72, a: 255 }
            } else {
                Color { r: 44, g: 44, b: 64, a: 255 }
            },
        ) + stroke_writes(
            rect,
            old(sink).extent(),
            if rect.holds(ui.mouse_x as int, ui.mouse_y as int) {
                Color { r: 80, g: 160, b: 255, a: 255 }
            } else {
                Color { r: 28, g: 28, b: 40, a: 255 }
            },
        ),
{
    let hovered = rect.contains(ui.mouse_x, ui.mouse_y);
    let base = if hovered {
        Color::rgb(52, 52, 72)
    } else {
        Color::rgb(44, 44, 64)
    };
    sink.fill_rect(rect, base);
    let edge = if hovered {
        Color::accent()
    } else {
        Color::rgb(28, 28, 40)
    };
    sink.stroke_rect(rect, edge);
    if ui.just_released {
        hovered
    } else {
        hovered && ui.pressed
    }
}

} // verus!
