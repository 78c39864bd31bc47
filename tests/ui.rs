use asteria::font::{draw_glyph, draw_text, measure_text, FONT_H, FONT_W};
use asteria::paint::Painter;
use asteria::widgets::{button, label_baseline, panel, Color, PixelSink, Rect, UiState};

fn rgb_at(p: &Painter, x: i32, y: i32) -> (u8, u8, u8) {
    let bytes = p.rgb_bytes();
    let i = 3 * (y as usize * p.width() as usize + x as usize);
    (bytes[i], bytes[i + 1], bytes[i + 2])
}

#[test]
fn colors_and_palette() {
    assert_eq!(Color::rgb(1, 2, 3), Color { r: 1, g: 2, b: 3, a: 255 });
    assert_eq!(Color::rgba(1, 2, 3, 4), Color { r: 1, g: 2, b: 3, a: 4 });
    assert_eq!(Color::panel(), Color::rgb(32, 32, 48));
    assert_eq!(Color::accent(), Color::rgb(80, 160, 255));
    assert_eq!(Color::bg(), Color::rgb(16, 16, 24));
    assert_eq!(Color::err(), Color::rgb(220, 80, 80));
}

#[test]
fn rect_contains_half_open() {
    let r = Rect::new(10, 20, 5, 3);
    assert!(r.contains(10, 20));
    assert!(r.contains(14, 22));
    assert!(!r.contains(15, 22));
    assert!(!r.contains(14, 23));
    assert!(!r.contains(9, 20));
    let big = Rect::new(i32::MAX - 1, 0, i32::MAX, 1);
    assert!(big.contains(i32::MAX, 0));
}

#[test]
fn painter_sizes_clamp_to_one() {
    let p = Painter::new_devhost(0, -5);
    assert_eq!((p.width(), p.height(), p.frame()), (1, 1, 0));
    assert_eq!(p.rgb_bytes(), vec![0, 0, 0]);
    let s = Painter::new_os_stub(-1, 40);
    assert_eq!((s.width(), s.height()), (1, 40));
    assert!(s.rgb_bytes().is_empty());
}

#[test]
fn painter_clear_put_and_present() {
    let mut p = Painter::new_devhost(4, 3);
    p.clear_rgb(9, 8, 7);
    assert_eq!(rgb_at(&p, 3, 2), (9, 8, 7));
    p.put_px(1, 2, 200, 100, 50);
    assert_eq!(rgb_at(&p, 1, 2), (200, 100, 50));
    p.put_px(4, 0, 1, 1, 1);
    p.put_px(-1, 0, 1, 1, 1);
    assert_eq!(rgb_at(&p, 0, 0), (9, 8, 7));
    p.present();
    p.present();
    assert_eq!(p.frame(), 2);
    assert_eq!(p.size(), (4, 3));
}

#[test]
fn painter_rect_is_clipped() {
    let mut p = Painter::new_devhost(5, 5);
    p.rect(-2, 3, 4, 10, 255, 0, 0);
    for y in 0..5 {
        for x in 0..5 {
            let want = if x < 2 && y >= 3 { (255, 0, 0) } else { (0, 0, 0) };
            assert_eq!(rgb_at(&p, x, y), want);
        }
    }
    let mut stub = Painter::new_os_stub(5, 5);
    stub.rect(0, 0, 5, 5, 1, 2, 3);
    stub.clear_rgb(1, 2, 3);
    assert!(stub.rgb_bytes().is_empty());
}

#[test]
fn panel_returns_content_area() {
    let mut p = Painter::new_devhost(64, 64);
    let inner = panel(&mut p, Rect::new(4, 4, 40, 50));
    assert_eq!(inner, Rect::new(12, 26, 24, 20));
    // header band, border and body
    assert_eq!(rgb_at(&p, 10, 10), (48, 48, 72));
    assert_eq!(rgb_at(&p, 4, 30), (24, 24, 36));
    assert_eq!(rgb_at(&p, 10, 40), (32, 32, 48));
    assert_eq!(rgb_at(&p, 50, 50), (0, 0, 0));
    let tiny = panel(&mut p, Rect::new(0, 0, 10, 10));
    assert_eq!(tiny, Rect::new(8, 22, 0, 0));
}

#[test]
fn baseline_is_a_dash() {
    let mut p = Painter::new_devhost(40, 4);
    label_baseline(&mut p, 2, 1, "hud");
    assert_eq!(rgb_at(&p, 2, 1), (220, 220, 230));
    assert_eq!(rgb_at(&p, 25, 1), (220, 220, 230));
    assert_eq!(rgb_at(&p, 26, 1), (0, 0, 0));
    assert_eq!(rgb_at(&p, 2, 0), (0, 0, 0));
}

#[test]
fn button_clicks() {
    let mut p = Painter::new_devhost(32, 32);
    let r = Rect::new(4, 4, 10, 6);
    let mut ui = UiState { mouse_x: 5, mouse_y: 5, ..UiState::default() };
    assert!(!button(&mut p, r, "OK", ui));
    assert_eq!(rgb_at(&p, 6, 6), (52, 52, 72));
    assert_eq!(rgb_at(&p, 4, 4), (80, 160, 255));
    ui.pressed = true;
    assert!(button(&mut p, r, "OK", ui));
    ui.just_released = true;
    ui.pressed = false;
    assert!(button(&mut p, r, "OK", ui));
    ui.mouse_x = 30;
    assert!(!button(&mut p, r, "OK", ui));
    assert_eq!(rgb_at(&p, 6, 6), (44, 44, 64));
}

#[test]
fn text_measures_fixed_cells() {
    assert_eq!(measure_text(""), (0, FONT_H));
    assert_eq!(measure_text("CPU 42%"), (42, 8));
    assert_eq!((FONT_W, FONT_H), (6, 8));
}

#[test]
fn glyphs_draw_their_bits() {
    let mut p = Painter::new_devhost(20, 10);
    let fg = Color::rgb(255, 255, 255);
    assert_eq!(draw_glyph(&mut p, 0, 0, '1', fg, None), 6);
    // top row of '1' is 00100
    assert_eq!(rgb_at(&p, 2, 0), (255, 255, 255));
    assert_eq!(rgb_at(&p, 1, 0), (0, 0, 0));
    // unknown characters draw a box; the cell background is filled
    assert_eq!(draw_glyph(&mut p, 6, 0, '@', fg, Some(Color::rgb(1, 1, 1))), 6);
    assert_eq!(rgb_at(&p, 6, 0), (255, 255, 255));
    assert_eq!(rgb_at(&p, 7, 1), (1, 1, 1));
    assert_eq!(rgb_at(&p, 11, 7), (1, 1, 1));
}

#[test]
fn lowercase_draws_as_uppercase() {
    let fg = Color::rgb(255, 0, 0);
    let mut lower = Painter::new_devhost(12, 8);
    let mut upper = Painter::new_devhost(12, 8);
    assert_eq!(draw_text(&mut lower, 0, 0, "hi", fg, None), (12, 8));
    assert_eq!(draw_text(&mut upper, 0, 0, "HI", fg, None), (12, 8));
    assert_eq!(lower.rgb_bytes(), upper.rgb_bytes());
    assert_ne!(lower.rgb_bytes(), Painter::new_devhost(12, 8).rgb_bytes());
}

#[test]
fn text_draws_cell_after_cell() {
    let fg = Color::rgb(9, 9, 9);
    let bg = Color::rgb(1, 2, 3);
    let mut p = Painter::new_devhost(20, 8);
    assert_eq!(draw_text(&mut p, 1, 0, "I-", fg, Some(bg)), (12, 8));
    // 'I' in the cell at x = 1: top row 01110
    assert_eq!(rgb_at(&p, 1, 0), (1, 2, 3));
    assert_eq!(rgb_at(&p, 2, 0), (9, 9, 9));
    // '-' in the cell at x = 7: row 3 is 01110
    assert_eq!(rgb_at(&p, 8, 3), (9, 9, 9));
    assert_eq!(rgb_at(&p, 7, 3), (1, 2, 3));
    assert_eq!(rgb_at(&p, 12, 7), (1, 2, 3));
    assert_eq!(rgb_at(&p, 13, 0), (0, 0, 0));
}

#[test]
fn stroke_draws_only_the_border() {
    let mut p = Painter::new_devhost(8, 8);
    let c = Color::rgb(7, 7, 7);
    p.stroke_rect(Rect::new(1, 1, 4, 3), c);
    for y in 0..8 {
        for x in 0..8 {
            let inside = (1..5).contains(&x) && (1..4).contains(&y);
            let border = inside && (x == 1 || x == 4 || y == 1 || y == 3);
            let want = if border { (7, 7, 7) } else { (0, 0, 0) };
            assert_eq!(rgb_at(&p, x, y), want);
        }
    }
}
