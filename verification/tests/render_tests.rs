use ql_raster::display::Display;
use ql_raster::geometry::{Pixel, Point};
use ql_raster::ops::{FontKind, HAlign, TextOptions, VAlign};
use ql_raster::qr::ModuleGrid;
use ql_raster::render::{transposed, Orientation, Render, RenderConfig};
use ql_raster::PTouchError;

fn config(orientation: Orientation, min_x: usize, y: usize) -> RenderConfig {
    RenderConfig { orientation, min_x, max_x: 10240, y }
}

#[test]
fn default_render_config() {
    let cfg = RenderConfig::default();
    assert!(matches!(cfg.orientation, Orientation::Vertical));
    assert_eq!(cfg.min_x, 320);
    assert_eq!(cfg.max_x, 10240);
    assert_eq!(cfg.y, 696);
}

#[test]
fn default_text_options() {
    let opts = TextOptions::default();
    assert_eq!(opts.font, FontKind::Font12x16);
    assert_eq!(opts.v_align, VAlign::Centre);
    assert_eq!(opts.h_align, HAlign::Centre);
}

#[test]
fn render_text_places_glyph_pixels() {
    let mut render = Render::new(config(Orientation::Vertical, 2, 8));
    let glyphs = vec![
        Pixel { point: Point { x: 0, y: 0 }, on: true },
        Pixel { point: Point { x: 1, y: 2 }, on: true },
    ];
    render.render_text(&glyphs, Point { x: 3, y: 4 }).unwrap();
    assert!(render.get_pixel(3, 4).unwrap().on);
    assert!(render.get_pixel(4, 6).unwrap().on);
    assert!(!render.get_pixel(3, 5).unwrap().on);
    assert_eq!(render.size(), (5, 8));
}

#[test]
fn render_text_out_of_range_is_an_error() {
    let mut render = Render::new(config(Orientation::Vertical, 2, 8));
    let glyphs = vec![Pixel { point: Point { x: 0, y: 9 }, on: true }];
    assert_eq!(
        render.render_text(&glyphs, Point { x: 0, y: 0 }),
        Err(PTouchError::RenderError)
    );
    let negative = vec![Pixel { point: Point { x: -2, y: 0 }, on: true }];
    assert_eq!(
        render.render_text(&negative, Point { x: 1, y: 0 }),
        Err(PTouchError::RenderError)
    );
}

#[test]
fn transposed_swaps_axes_and_keeps_pixels() {
    let mut src = Display::new(2, 3);
    src.set(0, 0, true).unwrap();
    src.set(2, 1, true).unwrap();
    let t = transposed(&src);
    assert_eq!(t.size(), (2, 3));
    let (w, h) = src.size();
    for x in 0..w {
        for y in 0..h {
            // Applying the transform and reading back through its
            // inverse recovers every source pixel.
            assert_eq!(t.get(y, w - 1 - x).unwrap(), src.get(x, y).unwrap());
        }
    }
    assert!(t.get(0, 2).unwrap());
    assert!(t.get(1, 0).unwrap());
    assert!(!t.get(0, 0).unwrap());
}

#[test]
fn finish_vertical_packs_in_place() {
    let mut render = Render::new(config(Orientation::Vertical, 3, 8));
    let glyphs = vec![
        Pixel { point: Point { x: 0, y: 0 }, on: true },
        Pixel { point: Point { x: 0, y: 1 }, on: true },
        Pixel { point: Point { x: 1, y: 0 }, on: true },
    ];
    render.render_text(&glyphs, Point { x: 0, y: 0 }).unwrap();
    let packed = render.finish().unwrap();
    assert_eq!(packed.len(), 3);
    assert_eq!(packed[0].len(), 1);
    assert_eq!(packed[0][0], 0b1100_0000);
    assert_eq!(packed[1][0], 0b1000_0000);
    assert_eq!(packed[2][0], 0);
}

#[test]
fn finish_horizontal_rotates() {
    let mut render = Render::new(config(Orientation::Horizontal, 3, 8));
    let glyphs = vec![Pixel { point: Point { x: 0, y: 0 }, on: true }];
    render.render_text(&glyphs, Point { x: 0, y: 0 }).unwrap();
    let packed = render.finish().unwrap();
    // The axes swap: one byte column per source row, one packed byte for
    // the three source columns.
    assert_eq!(packed.len(), 8);
    assert_eq!(packed[0].len(), 1);
    // Source pixel (0, 0) lands on output pixel (0, width - 1) = (0, 2).
    assert_eq!(packed[0][0], 0b0010_0000);
    for x in 1..8 {
        assert_eq!(packed[x][0], 0);
    }
}

#[test]
fn finish_twice_is_rejected() {
    let mut render = Render::new(config(Orientation::Vertical, 1, 8));
    render.finish().unwrap();
    assert_eq!(render.finish(), Err(PTouchError::AlreadyFinalized));
    let glyphs = vec![Pixel { point: Point { x: 0, y: 0 }, on: true }];
    assert_eq!(
        render.render_text(&glyphs, Point { x: 0, y: 0 }),
        Err(PTouchError::AlreadyFinalized)
    );
    let grid = ModuleGrid::new(1, vec![true]).unwrap();
    assert_eq!(
        render.render_qrcode(grid, Point { x: 0, y: 0 }),
        Err(PTouchError::AlreadyFinalized)
    );
}

#[test]
fn render_qrcode_draws_styled_overlay() {
    let mut render = Render::new(config(Orientation::Vertical, 1, 204));
    let grid = ModuleGrid::new(1, vec![true]).unwrap();
    render.render_qrcode(grid, Point { x: 0, y: 0 }).unwrap();
    // The overlay spans the full 204-pixel extent: 100 border pixels,
    // a 4-pixel module body, 100 more border pixels.
    assert_eq!(render.size(), (204, 204));
    assert!(!render.get_pixel(0, 0).unwrap().on);
    assert!(!render.get_pixel(99, 102).unwrap().on);
    assert!(render.get_pixel(100, 100).unwrap().on);
    assert!(render.get_pixel(103, 103).unwrap().on);
    assert!(!render.get_pixel(105, 105).unwrap().on);
}

#[test]
fn render_qrcode_too_tall_is_an_error() {
    let mut render = Render::new(config(Orientation::Vertical, 1, 203));
    let grid = ModuleGrid::new(1, vec![true]).unwrap();
    assert_eq!(
        render.render_qrcode(grid, Point { x: 0, y: 0 }),
        Err(PTouchError::RenderError)
    );
    let grid = ModuleGrid::new(1, vec![true]).unwrap();
    assert_eq!(
        render.render_qrcode(grid, Point { x: -1, y: 0 }),
        Err(PTouchError::RenderError)
    );
    // A failed placement left the buffer unchanged.
    assert_eq!(render.size(), (1, 203));
    assert!(!render.get_pixel(0, 0).unwrap().on);
}
