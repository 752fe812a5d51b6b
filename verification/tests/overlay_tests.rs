use ql_raster::geometry::Point;
use ql_raster::qr::{ModuleGrid, StyledQrCode};
use ql_raster::PTouchError;

fn checkerboard2() -> ModuleGrid {
    // Row-major 2x2 grid: (0,0) and (1,1) on.
    ModuleGrid::new(2, vec![true, false, false, true]).unwrap()
}

#[test]
fn module_grid_rejects_mismatched_count() {
    assert!(matches!(
        ModuleGrid::new(2, vec![true, false, true]),
        Err(PTouchError::InvalidModuleGrid)
    ));
    assert!(matches!(
        ModuleGrid::new(46341, vec![]),
        Err(PTouchError::InvalidModuleGrid)
    ));
    assert!(ModuleGrid::new(0, vec![]).is_ok());
}

#[test]
fn module_lookup_out_of_range_reads_off() {
    let grid = checkerboard2();
    assert_eq!(grid.size(), 2);
    assert!(grid.get_module(0, 0));
    assert!(!grid.get_module(1, 0));
    assert!(!grid.get_module(0, 1));
    assert!(grid.get_module(1, 1));
    assert!(!grid.get_module(-1, 0));
    assert!(!grid.get_module(0, 2));
    assert!(!grid.get_module(2, 2));
}

#[test]
fn default_styling_from_grid() {
    let styled = StyledQrCode::from(checkerboard2());
    assert_eq!(styled.position, Point { x: 0, y: 0 });
    assert_eq!(styled.scale, 1);
    assert_eq!(styled.border_size_px, 2);
    assert!(!styled.is_inverted);
}

#[test]
fn builders_update_styling() {
    let styled = StyledQrCode::from(checkerboard2())
        .with_scale(3)
        .with_border(5)
        .inverted();
    assert_eq!(styled.scale, 3);
    assert_eq!(styled.border_size_px, 5);
    assert!(styled.is_inverted);
    assert_eq!(styled.body_size(), 6);
    let reset = styled.reset();
    assert_eq!(reset.scale, 1);
    assert_eq!(reset.border_size_px, 2);
    assert!(!reset.is_inverted);
    assert_eq!(reset.position, Point { x: 0, y: 0 });
}

#[test]
fn translate_moves_position() {
    let mut styled = StyledQrCode::from(checkerboard2());
    styled.position = Point { x: 10, y: 20 };
    styled.translate(Point { x: -3, y: 4 });
    assert_eq!(styled.position, Point { x: 7, y: 24 });
}

#[test]
fn overlay_round_trip() {
    let mut styled = StyledQrCode::from(checkerboard2()).with_scale(3).with_border(5);
    styled.position = Point { x: 10, y: 20 };
    // The drawing coordinate at position + (border, border) reads the
    // first module.
    assert_eq!(
        styled.get_element_translated(Point { x: 15, y: 25 }),
        true
    );
    // Either axis inside the border margin reads the base color.
    assert!(!styled.get_element(Point { x: 4, y: 7 }));
    assert!(!styled.get_element(Point { x: 7, y: 0 }));
    // Either axis beyond border + body (= 11) reads the base color.
    assert!(!styled.get_element(Point { x: 12, y: 6 }));
    assert!(!styled.get_element(Point { x: 6, y: 100 }));
}

#[test]
fn one_module_scaled_block() {
    let mut styled = StyledQrCode::from(ModuleGrid::new(1, vec![true]).unwrap()).with_scale(4);
    styled.border_size_px = 0;
    for x in 0..4 {
        for y in 0..4 {
            assert!(styled.get_element_translated(Point { x, y }));
        }
    }
    assert!(!styled.get_element_translated(Point { x: 4, y: 4 }));
    assert!(!styled.get_element_translated(Point { x: 5, y: 5 }));
    assert!(!styled.get_element_translated(Point { x: -1, y: 0 }));
}

#[test]
fn inverted_flips_both_regions() {
    let styled = StyledQrCode::from(ModuleGrid::new(1, vec![false]).unwrap())
        .with_border(1)
        .inverted();
    // Border territory resolves to the inverted base color.
    assert!(styled.get_element(Point { x: 0, y: 0 }));
    // The module itself is XORed with the inversion.
    assert!(styled.get_element(Point { x: 1, y: 1 }));
}

#[test]
fn bounding_box_covers_scaled_extent() {
    let mut styled = StyledQrCode::from(checkerboard2()).with_scale(4).with_border(3);
    styled.position = Point { x: 7, y: 9 };
    let bb = styled.bounding_box();
    assert_eq!(bb.top_left, Point { x: 7, y: 9 });
    assert_eq!(bb.width, 2 * 4 + 2 * 3);
    assert_eq!(bb.height, 14);
    assert!(styled.is_border(Point { x: 2, y: 5 }));
    assert!(!styled.is_border(Point { x: 3, y: 5 }));
}
