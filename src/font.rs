//! A 5x7 bitmap font drawn into any pixel sink, in cells of 6x8 pixels.

use vstd::prelude::*;
use vstd::string::StrSliceExecFns;
use crate::widgets::{fill_writes, Color, PixelSink, PixelWrite, Rect};

verus! {

/// Horizontal advance of one character: five pixels of glyph and one of space.
pub const FONT_W: i32 = 6;

/// Height of a character cell: seven pixels of glyph and one of space.
pub const FONT_H: i32 = 8;

/// The characters the font has a glyph for; lower case draws as upper case.
pub open spec fn has_glyph(c: char) -> bool {
    ||| c == ' '
    ||| ('0' <= c && c <= '9')
    ||| ('A' <= c && c <= 'Z')
    ||| ('a' <= c && c <= 'z')
    ||| c == ':' || c == '.' || c == '-' || c == '/' || c == '='
    ||| c == '(' || c == ')' || c == ',' || c == '%' || c == '_'
}

/// The size in pixels of a text of `n` characters.
pub open spec fn text_extent(n: nat) -> (int, int) {
    (FONT_W * n, FONT_H as int)
}

/// The character whose glyph `c` draws with: lower case letters draw as
/// their upper case letter.
pub open spec fn fold_case(c: char) -> char {
    match c {
        'a' => 'A',
        'b' => 'B',
        'c' => 'C',
        'd' => 'D',
        'e' => 'E',
        'f' => 'F',
        'g' => 'G',
        'h' => 'H',
        'i' => 'I',
        'j' => 'J',
        'k' => 'K',
        'l' => 'L',
        'm' => 'M',
        'n' => 'N',
        'o' => 'O',
        'p' => 'P',
        'q' => 'Q',
        'r' => 'R',
        's' => 'S',
        't' => 'T',
        'u' => 'U',
        'v' => 'V',
        'w' => 'W',
        'x' => 'X',
        'y' => 'Y',
        'z' => 'Z',
        _ => c,
    }
}

/// The font: the seven rows of the glyph of `c`, five bits each with the
/// leftmost pixel in the highest bit; `None` for a character without one.
/// Lower case letters are covered through `fold_case`.
pub open spec fn glyph_rows(c: char) -> Option<[u8; 7]> {
    match c {
        ' ' => Some([0, 0, 0, 0, 0, 0, 0]),
        '0' => Some([0b01110, 0b10001, 0b10011, 0b10101, 0b11001, 0b10001, 0b01110]),
        '1' => Some([0b00100, 0b01100, 0b00100, 0b00100, 0b00100, 0b00100, 0b01110]),
        '2' => Some([0b01110, 0b10001, 0b00001, 0b00010, 0b00100, 0b01000, 0b11111]),
        '3' => Some([0b11110, 0b00001, 0b00001, 0b01110, 0b00001, 0b00001, 0b11110]),
        '4' => Some([0b00010, 0b00110, 0b01010, 0b10010, 0b11111, 0b00010, 0b00010]),
        '5' => Some([0b11111, 0b10000, 0b11110, 0b00001, 0b00001, 0b10001, 0b01110]),
        '6' => Some([0b00110, 0b01000, 0b10000, 0b11110, 0b10001, 0b10001, 0b01110]),
        '7' => Some([0b11111, 0b00001, 0b00010, 0b00100, 0b01000, 0b01000, 0b01000]),
        '8' => Some([0b01110, 0b10001, 0b10001, 0b01110, 0b10001, 0b10001, 0b01110]),
        '9' => Some([0b01110, 0b10001, 0b10001, 0b01111, 0b00001, 0b00010, 0b01100]),
        'A' => Some([0b01110, 0b10001, 0b10001, 0b11111, 0b10001, 0b10001, 0b10001]),
        'B' => Some([0b11110, 0b10001, 0b10001, 0b11110, 0b10001, 0b10001, 0b11110]),
        'C' => Some([0b01110, 0b10001, 0b10000, 0b10000, 0b10000, 0b10001, 0b01110]),
        'D' => Some([0b11100, 0b10010, 0b10001, 0b10001, 0b10001, 0b10010, 0b11100]),
        'E' => Some([0b11111, 0b10000, 0b10000, 0b11110, 0b10000, 0b10000, 0b11111]),
        'F' => Some([0b11111, 0b10000, 0b10000, 0b11110, 0b10000, 0b10000, 0b10000]),
        'G' => Some([0b01110, 0b10001, 0b10000, 0b10111, 0b10001, 0b10001, 0b01110]),
        'H' => Some([0b10001, 0b10001, 0b10001, 0b11111, 0b10001, 0b10001, 0b10001]),
        'I' => Some([0b01110, 0b00100, 0b00100, 0b00100, 0b00100, 0b00100, 0b01110]),
        'J' => Some([0b00001, 0b00001, 0b00001, 0b00001, 0b10001, 0b10001, 0b01110]),
        'K' => Some([0b10001, 0b10010, 0b10100, 0b11000, 0b10100, 0b10010, 0b10001]),
        'L' => Some([0b10000, 0b10000, 0b10000, 0b10000, 0b10000, 0b10000, 0b11111]),
        'M' => Some([0b10001, 0b11011, 0b10101, 0b10101, 0b10001, 0b10001, 0b10001]),
        'N' => Some([0b10001, 0b11001, 0b10101, 0b10011, 0b10001, 0b10001, 0b10001]),
        'O' => Some([0b01110, 0b10001, 0b10001, 0b10001, 0b10001, 0b10001, 0b01110]),
        'P' => Some([0b11110, 0b10001, 0b10001, 0b11110, 0b10000, 0b10000, 0b10000]),
        'Q' => Some([0b01110, 0b10001, 0b10001, 0b10001, 0b10101, 0b10010, 0b01101]),
        'R' => Some([0b11110, 0b10001, 0b10001, 0b11110, 0b10100, 0b10010, 0b10001]),
        'S' => Some([0b01111, 0b10000, 0b10000, 0b01110, 0b00001, 0b00001, 0b11110]),
        'T' => Some([0b11111, 0b00100, 0b00100, 0b00100, 0b00100, 0b00100, 0b00100]),
        'U' => Some([0b10001, 0b10001, 0b10001, 0b10001, 0b10001, 0b10001, 0b01110]),
        'V' => Some([0b10001, 0b10001, 0b10001, 0b10001, 0b01010, 0b01010, 0b00100]),
        'W' => Some([0b10001, 0b10001, 0b10001, 0b10101, 0b10101, 0b11011, 0b10001]),
        'X' => Some([0b10001, 0b01010, 0b00100, 0b00100, 0b00100, 0b01010, 0b10001]),
        'Y' => Some([0b10001, 0b01010, 0b00100, 0b00100, 0b00100, 0b00100, 0b00100]),
        'Z' => Some([0b11111, 0b00001, 0b00010, 0b00100, 0b01000, 0b10000, 0b11111]),
        ':' => Some([0b00000, 0b00100, 0b00100, 0b00000, 0b00100, 0b00100, 0b00000]),
        '.' => Some([0b00000, 0b00000, 0b00000, 0b00000, 0b00000, 0b00100, 0b00100]),
        '-' => Some([0b00000, 0b00000, 0b00000, 0b01110, 0b00000, 0b00000, 0b00000]),
        '/' => Some([0b00001, 0b00010, 0b00100, 0b01000, 0b10000, 0b00000, 0b00000]),
        '=' => Some([0b00000, 0b01110, 0b00000, 0b01110, 0b00000, 0b00000, 0b00000]),
        '(' => Some([0b00010, 0b00100, 0b01000, 0b01000, 0b01000, 0b00100, 0b00010]),
        ')' => Some([0b01000, 0b00100, 0b00010, 0b00010, 0b00010, 0b00100, 0b01000]),
        ',' => Some([0b00000, 0b00000, 0b00000, 0b00000, 0b00100, 0b00100, 0b01000]),
        '%' => Some([0b11000, 0b11001, 0b00010, 0b00100, 0b01000, 0b10011, 0b00011]),
        '_' => Some([0b00000, 0b00000, 0b00000, 0b00000, 0b00000, 0b00000, 0b11111]),
        _ => None,
    }
}

/// The glyph `ch` draws with.
fn glyph5x7(ch: char) -> (r: Option<[u8; 7]>)
    ensures
        r == glyph_rows(fold_case(ch)),
        r is Some <==> has_glyph(ch),
        r matches Some(g) ==> forall|i: int| 0 <= i < 7 ==> g[i] < 32,
{
    match ch {
        ' ' => Some([0, 0, 0, 0, 0, 0, 0]),
        '0' => Some([0b01110, 0b10001, 0b10011, 0b10101, 0b11001, 0b10001, 0b01110]),
        '1' => Some([0b00100, 0b01100, 0b00100, 0b00100, 0b00100, 0b00100, 0b01110]),
        '2' => Some([0b01110, 0b10001, 0b00001, 0b00010, 0b00100, 0b01000, 0b11111]),
        '3' => Some([0b11110, 0b00001, 0b00001, 0b01110, 0b00001, 0b00001, 0b11110]),
        '4' => Some([0b00010, 0b00110, 0b01010, 0b10010, 0b11111, 0b00010, 0b00010]),
        '5' => Some([0b11111, 0b10000, 0b11110, 0b00001, 0b00001, 0b10001, 0b01110]),
        '6' => Some([0b00110, 0b01000, 0b10000, 0b11110, 0b10001, 0b10001, 0b01110]),
        '7' => Some([0b11111, 0b00001, 0b00010, 0b00100, 0b01000, 0b01000, 0b01000]),
        '8' => Some([0b01110, 0b10001, 0b10001, 0b01110, 0b10001, 0b10001, 0b01110]),
        '9' => Some([0b01110, 0b10001, 0b10001, 0b01111, 0b00001, 0b00010, 0b01100]),
        'A' | 'a' => Some([0b01110, 0b10001, 0b10001, 0b11111, 0b10001, 0b10001, 0b10001]),
        'B' | 'b' => Some([0b11110, 0b10001, 0b10001, 0b11110, 0b10001, 0b10001, 0b11110]),
        'C' | 'c' => Some([0b01110, 0b10001, 0b10000, 0b10000, 0b10000, 0b10001, 0b01110]),
        'D' | 'd' => Some([0b11100, 0b10010, 0b10001, 0b10001, 0b10001, 0b10010, 0b11100]),
        'E' | 'e' => Some([0b11111, 0b10000, 0b10000, 0b11110, 0b10000, 0b10000, 0b11111]),
        'F' | 'f' => Some([0b11111, 0b10000, 0b10000, 0b11110, 0b10000, 0b10000, 0b10000]),
        'G' | 'g' => Some([0b01110, 0b10001, 0b10000, 0b10111, 0b10001, 0b10001, 0b01110]),
        'H' | 'h' => Some([0b10001, 0b10001, 0b10001, 0b11111, 0b10001, 0b10001, 0b10001]),
        'I' | 'i' => Some([0b01110, 0b00100, 0b00100, 0b00100, 0b00100, 0b00100, 0b01110]),
        'J' | 'j' => Some([0b00001, 0b00001, 0b00001, 0b00001, 0b10001, 0b10001, 0b01110]),
        'K' | 'k' => Some([0b10001, 0b10010, 0b10100, 0b11000, 0b10100, 0b10010, 0b10001]),
        'L' | 'l' => Some([0b10000, 0b10000, 0b10000, 0b10000, 0b10000, 0b10000, 0b11111]),
        'M' | 'm' => Some([0b10001, 0b11011, 0b10101, 0b10101, 0b10001, 0b10001, 0b10001]),
        'N' | 'n' => Some([0b10001, 0b11001, 0b10101, 0b10011, 0b10001, 0b10001, 0b10001]),
        'O' | 'o' => Some([0b01110, 0b10001, 0b10001, 0b10001, 0b10001, 0b10001, 0b01110]),
        'P' | 'p' => Some([0b11110, 0b10001, 0b10001, 0b11110, 0b10000, 0b10000, 0b10000]),
        'Q' | 'q' => Some([0b01110, 0b10001, 0b10001, 0b10001, 0b10101, 0b10010, 0b01101]),
        'R' | 'r' => Some([0b11110, 0b10001, 0b10001, 0b11110, 0b10100, 0b10010, 0b10001]),
        'S' | 's' => Some([0b01111, 0b10000, 0b10000, 0b01110, 0b00001, 0b00001, 0b11110]),
        'T' | 't' => Some([0b11111, 0b00100, 0b00100, 0b00100, 0b00100, 0b00100, 0b00100]),
        'U' | 'u' => Some([0b10001, 0b10001, 0b10001, 0b10001, 0b10001, 0b10001, 0b01110]),
        'V' | 'v' => Some([0b10001, 0b10001, 0b10001, 0b10001, 0b01010, 0b01010, 0b00100]),
        'W' | 'w' => Some([0b10001, 0b10001, 0b10001, 0b10101, 0b10101, 0b11011, 0b10001]),
        'X' | 'x' => Some([0b10001, 0b01010, 0b00100, 0b00100, 0b00100, 0b01010, 0b10001]),
        'Y' | 'y' => Some([0b10001, 0b01010, 0b00100, 0b00100, 0b00100, 0b00100, 0b00100]),
        'Z' | 'z' => Some([0b11111, 0b00001, 0b00010, 0b00100, 0b01000, 0b10000, 0b11111]),
        ':' => Some([0b00000, 0b00100, 0b00100, 0b00000, 0b00100, 0b00100, 0b00000]),
        '.' => Some([0b00000, 0b00000, 0b00000, 0b00000, 0b00000, 0b00100, 0b00100]),
        '-' => Some([0b00000, 0b00000, 0b00000, 0b01110, 0b00000, 0b00000, 0b00000]),
        '/' => Some([0b00001, 0b00010, 0b00100, 0b01000, 0b10000, 0b00000, 0b00000]),
        '=' => Some([0b00000, 0b01110, 0b00000, 0b01110, 0b00000, 0b00000, 0b00000]),
        '(' => Some([0b00010, 0b00100, 0b01000, 0b01000, 0b01000, 0b00100, 0b00010]),
        ')' => Some([0b01000, 0b00100, 0b00010, 0b00010, 0b00010, 0b00100, 0b01000]),
        ',' => Some([0b00000, 0b00000, 0b00000, 0b00000, 0b00100, 0b00100, 0b01000]),
        '%' => Some([0b11000, 0b11001, 0b00010, 0b00100, 0b01000, 0b10011, 0b00011]),
        '_' => Some([0b00000, 0b00000, 0b00000, 0b00000, 0b00000, 0b00000, 0b11111]),
        _ => None,
    }
}

/// The outline box drawn for a character without a glyph.
pub open spec fn missing_rows() -> [u8; 7] {
    [0b11111u8, 0b10001u8, 0b10001u8, 0b10001u8, 0b10001u8, 0b10001u8, 0b11111u8]
}

fn missing_glyph() -> (r: [u8; 7])
    ensures
        r == missing_rows(),
{
    [0b11111, 0b10001, 0b10001, 0b10001, 0b10001, 0b10001, 0b11111]
}

/// The rows drawn for `ch`: its glyph, or the outline box.
pub open spec fn drawn_rows(ch: char) -> [u8; 7] {
    match glyph_rows(fold_case(ch)) {
        Some(g) => g,
        None => missing_rows(),
    }
}

/// The writes of colour `c` for the set bits among the `n` leftmost of the
/// five columns of a glyph row `bits` drawn at `(x, y)`, left to right.
pub open spec fn bit_writes(x: int, y: int, bits: u8, n: int, c: Color) -> Seq<PixelWrite>
    decreases n,
{
    if n <= 0 {
        Seq::empty()
    } else {
        bit_writes(x, y, bits, n - 1, c) + if bits & (16u8 >> ((n - 1) as u8)) != 0 {
            seq![((x + n - 1) as i32, y as i32, c)]
        } else {
            Seq::empty()
        }
    }
}

/// The writes for the first `n` rows of the glyph `g` drawn at `(x, y)`.
pub open spec fn row_writes(x: int, y: int, g: [u8; 7], n: int, c: Color) -> Seq<PixelWrite>
    decreases n,
{
    if n <= 0 {
        Seq::empty()
    } else {
        row_writes(x, y, g, n - 1, c) + bit_writes(x, y + n - 1, g[n - 1], 5, c)
    }
}

/// The character cell at `(x, y)`.
pub open spec fn cell(x: i32, y: i32) -> Rect {
    Rect { x, y, w: FONT_W, h: FONT_H }
}

/// The writes that draw `ch` at `(x, y)` on a surface of `size`: the filled
/// cell when `bg` is given, then the glyph's pixels row by row.
pub open spec fn glyph_writes(x: i32, y: i32, ch: char, fg: Color, bg: Option<Color>, size: (i32, i32)) -> Seq<
    PixelWrite,
> {
    (match bg {
        Some(b) => fill_writes(cell(x, y), size, b),
        None => Seq::empty(),
    }) + row_writes(x as int, y as int, drawn_rows(ch), 7, fg)
}

/// The writes that draw the characters `chars` from `(x, y)`, one cell after
/// another.
pub open spec fn text_writes(x: int, y: i32, chars: Seq<char>, fg: Color, bg: Option<Color>, size: (i32, i32)) -> Seq<
    PixelWrite,
>
    decreases chars.len(),
{
    if chars.len() == 0 {
        Seq::empty()
    } else {
        text_writes(x, y, chars.drop_last(), fg, bg, size) + glyph_writes(
            (x + FONT_W * (chars.len() - 1)) as i32,
            y,
            chars.last(),
            fg,
            bg,
            size,
        )
    }
}

/// Fills the character cell at `(x, y)`, clipped to the surface.
fn fill_cell<S: PixelSink>(sink: &mut S, x: i32, y: i32, c: Color)
    ensures
        final(sink).received() == old(sink).received() + fill_writes(cell(x, y), old(sink).extent(), c),
        final(sink).extent() == old(sink).extent(),
{
    sink.fill_rect(Rect::new(x, y, FONT_W, FONT_H), c);
}

/// Draws `ch` with its top left corner at `(x, y)`, over a filled cell when
/// `bg` is given; returns the advance to the next character.
pub fn draw_glyph<S: PixelSink>(sink: &mut S, x: i32, y: i32, ch: char, fg: Color, bg: Option<Color>) -> (advance: i32)
    requires
        x + FONT_W <= i32::MAX,
        y + FONT_H <= i32::MAX,
    ensures
        advance == FONT_W,
        final(sink).received() == old(sink).received() + glyph_writes(x, y, ch, fg, bg, old(sink).extent()),
        final(sink).extent() == old(sink).extent(),
{
    let ghost start = sink.received();
    let ghost size = sink.extent();
    if let Some(c) = bg {
        fill_cell(sink, x, y, c);
    }
    let ghost under = sink.received();
    assert(under == start + match bg {
        Some(b) => fill_writes(cell(x, y), size, b),
        None => Seq::empty(),
    }) by {
        if bg is None {
            assert(start + Seq::<PixelWrite>::empty() =~= start);
        }
    }
    let rows = match glyph5x7(ch) {
        Some(g) => g,
        None => missing_glyph(),
    };
    assert(rows == drawn_rows(ch));
    assert(under + row_writes(x as int, y as int, rows, 0, fg) =~= under);
    for row in 0..7usize
        invariant
            x + FONT_W <= i32::MAX,
            y + FONT_H <= i32::MAX,
            sink.extent() == size,
            sink.received() == under + row_writes(x as int, y as int, rows, row as int, fg),
    {
        let bits = rows[row];
        let yy = y + row as i32;
        let ghost done = sink.received();
        assert(done + bit_writes(x as int, yy as int, bits, 0, fg) =~= done);
        for col in 0..5u8
            invariant
                x + FONT_W <= i32::MAX,
                sink.extent() == size,
                sink.received() == done + bit_writes(x as int, yy as int, bits, col as int, fg),
        {
            let mask: u8 = 16u8 >> col;
            let ghost before = sink.received();
            if bits & mask != 0 {
                sink.put(x + col as i32, yy, fg);
            }
            assert(sink.received() =~= done + bit_writes(x as int, yy as int, bits, col + 1, fg));
        }
        assert(sink.received() =~= under + row_writes(x as int, y as int, rows, row + 1, fg));
    }
    FONT_W
}

/// Draws `text` from `(x, y)` one cell after another; returns its size.
pub fn draw_text<S: PixelSink>(sink: &mut S, x: i32, y: i32, text: &str, fg: Color, bg: Option<Color>) -> (r: (i32, i32))
    requires
        x + FONT_W * text@.len() <= i32::MAX,
        FONT_W * text@.len() <= i32::MAX,
        y + FONT_H <= i32::MAX,
    ensures
        r.0 == text_extent(text@.len()).0,
        r.1 == text_extent(text@.len()).1,
        final(sink).received() == old(sink).received() + text_writes(x as int, y, text@, fg, bg, old(sink).extent()),
        final(sink).extent() == old(sink).extent(),
{
    let ghost start = sink.received();
    let ghost size = sink.extent();
    let n = text.unicode_len();
    let mut cx = x;
    assert(text@.subrange(0, 0) =~= Seq::<char>::empty());
    assert(start + text_writes(x as int, y, text@.subrange(0, 0), fg, bg, size) =~= start);
    for i in 0..n
        invariant
            n == text@.len(),
            cx == x + FONT_W * i,
            x + FONT_W * n <= i32::MAX,
            FONT_W * n <= i32::MAX,
            y + FONT_H <= i32::MAX,
            sink.extent() == size,
            sink.received() == start + text_writes(x as int, y, text@.subrange(0, i as int), fg, bg, size),
    {
        let ch = text.get_char(i);
        let ghost done = sink.received();
        let w = draw_glyph(sink, cx, y, ch, fg, bg);
        assert(text@.subrange(0, i + 1).drop_last() =~= text@.subrange(0, i as int));
        assert(sink.received() =~= start + text_writes(x as int, y, text@.subrange(0, i + 1), fg, bg, size));
        cx = cx + w;
    }
    assert(text@.subrange(0, n as int) =~= text@);
    measure_text(text)
}

/// The size in pixels of `text` at the fixed advance.
pub fn measure_text(text: &str) -> (r: (i32, i32))
    requires
        FONT_W * text@.len() <= i32::MAX,
    ensures
        r.0 == text_extent(text@.len()).0,
        r.1 == text_extent(text@.len()).1,
{
    let n = text.unicode_len();
    ((n as i32) * FONT_W, FONT_H)
}

} // verus!
