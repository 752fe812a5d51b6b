use ql_raster::display::{Display, DrawPixel};
use ql_raster::geometry::{Pixel, Point};
use ql_raster::PTouchError;

#[test]
fn test_display() {
    let mut display = Display::new(8, 4);
    display.set(0, 0, true).unwrap();
    display.set(1, 0, true).unwrap();
    display.set(0, 1, true).unwrap();
    display.bounding_box();
    display.render().expect("render failed");
}

#[test]
fn packed_scenario() {
    let mut display = Display::new(8, 4);
    display.set(0, 0, true).unwrap();
    display.set(1, 0, true).unwrap();
    display.set(0, 1, true).unwrap();
    assert_eq!(display.size(), (4, 8));
    assert_eq!(display.get(0, 0).unwrap(), true);
    assert_eq!(display.get(2, 0).unwrap(), false);
    let packed = display.render().unwrap();
    assert_eq!(packed.len(), 4);
    assert_eq!(packed[0].len(), 1);
    // Bits 0 and 1 of column 0 are set; in device order (MSB first) that
    // is the two topmost bits of the byte.
    assert_eq!(packed[0][0], 0b1100_0000);
    assert_eq!(packed[1][0], 0b1000_0000);
    assert_eq!(packed[2][0], 0);
    assert_eq!(packed[3][0], 0);
}

#[test]
fn set_get_round_trip() {
    let mut display = Display::new(16, 2);
    for &v in &[true, false, true] {
        display.set(1, 9, v).unwrap();
        assert_eq!(display.get(1, 9).unwrap(), v);
    }
    display.set(0, 15, true).unwrap();
    assert_eq!(display.get(0, 15).unwrap(), true);
    display.set(0, 15, false).unwrap();
    assert_eq!(display.get(0, 15).unwrap(), false);
}

#[test]
fn growth_extends_and_reads_off() {
    let mut display = Display::new(8, 2);
    assert_eq!(display.size().0, 2);
    display.set(5, 3, true).unwrap();
    assert!(display.size().0 > 5);
    assert_eq!(display.size(), (6, 8));
    // Freshly created columns read off everywhere but the written pixel.
    assert_eq!(display.get(2, 3).unwrap(), false);
    assert_eq!(display.get(3, 0).unwrap(), false);
    assert_eq!(display.get(4, 7).unwrap(), false);
    assert_eq!(display.get(5, 2).unwrap(), false);
    assert_eq!(display.get(5, 3).unwrap(), true);
}

#[test]
fn y_out_of_bounds_is_an_error() {
    let mut display = Display::new(8, 4);
    assert_eq!(display.set(0, 8, true), Err(PTouchError::RenderError));
    assert_eq!(display.set(0, 9, true), Err(PTouchError::RenderError));
    assert_eq!(display.get(0, 8), Err(PTouchError::RenderError));
    assert_eq!(display.get(0, 100), Err(PTouchError::RenderError));
    // The failed writes left no trace, and the width did not grow.
    assert_eq!(display.size(), (4, 8));
    // A read past the current width is an error too: no growth on read.
    assert_eq!(display.get(4, 0), Err(PTouchError::RenderError));
}

#[test]
fn packed_dimensions_after_growth() {
    let mut display = Display::new(10, 1);
    display.set(7, 9, true).unwrap();
    let packed = display.render().unwrap();
    assert_eq!(packed.len(), 8);
    for col in &packed {
        assert_eq!(col.len(), 2);
    }
    // Pixel (7, 9) sits in byte 1, device bit 7 - (9 % 8) = 6.
    assert_eq!(packed[7][1], 0b0100_0000);
    assert_eq!(packed[7][0], 0);
    assert_eq!(packed[0][1], 0);
}

#[test]
fn draw_iter_applies_batch() {
    let mut display = Display::new(8, 1);
    let pixels = vec![
        Pixel { point: Point { x: 0, y: 0 }, on: true },
        Pixel { point: Point { x: 2, y: 5 }, on: true },
        Pixel { point: Point { x: 0, y: 0 }, on: false },
    ];
    display.draw_iter(&pixels).unwrap();
    // The later write at (0, 0) wins.
    assert_eq!(display.get(0, 0).unwrap(), false);
    assert_eq!(display.get(2, 5).unwrap(), true);
}

#[test]
fn draw_iter_aborts_without_rollback() {
    let mut display = Display::new(8, 1);
    let pixels = vec![
        Pixel { point: Point { x: 0, y: 1 }, on: true },
        Pixel { point: Point { x: 1, y: 8 }, on: true },
        Pixel { point: Point { x: 0, y: 2 }, on: true },
    ];
    assert_eq!(display.draw_iter(&pixels), Err(PTouchError::RenderError));
    // The write before the failure stays; the one after was never made.
    assert_eq!(display.get(0, 1).unwrap(), true);
    assert_eq!(display.get(0, 2).unwrap(), false);
    // The failing write did not grow the buffer either.
    assert_eq!(display.size().0, 1);
}

#[test]
fn draw_pixel_capability() {
    let mut display = Display::new(8, 1);
    display
        .draw_pixel(Pixel { point: Point { x: 3, y: 4 }, on: true })
        .unwrap();
    assert_eq!(display.get(3, 4).unwrap(), true);
    assert_eq!(
        display.draw_pixel(Pixel { point: Point { x: -1, y: 0 }, on: true }),
        Err(PTouchError::RenderError)
    );
    assert_eq!(
        display.draw_pixel(Pixel { point: Point { x: 0, y: 8 }, on: true }),
        Err(PTouchError::RenderError)
    );
}

#[test]
fn get_pixel_reports_coordinates() {
    let mut display = Display::new(8, 2);
    display.set(1, 6, true).unwrap();
    let p = display.get_pixel(1, 6).unwrap();
    assert_eq!(p.point, Point { x: 1, y: 6 });
    assert!(p.on);
    assert_eq!(display.get_pixel(9, 0), Err(PTouchError::RenderError));
}

#[test]
fn height_rounds_up_to_packing_unit() {
    let mut display = Display::new(9, 1);
    display.set(0, 8, true).unwrap();
    assert_eq!(display.size(), (1, 9));
    let packed = display.render().unwrap();
    assert_eq!(packed.len(), 1);
    assert_eq!(packed[0].len(), 2);
    assert_eq!(packed[0][1], 0b1000_0000);
}
