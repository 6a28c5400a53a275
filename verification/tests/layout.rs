//! Where things stand on the screen.
use mox::layout::{centered_rect, regions, Area};

#[test]
fn boxes_are_centered() {
    let screen = Area { x: 0, y: 1, width: 78, height: 14 };
    assert_eq!(centered_rect(screen, 48, 11), Area { x: 15, y: 3, width: 48, height: 11 });
    assert_eq!(centered_rect(screen, 100, 100), screen);
    assert_eq!(centered_rect(screen, 0, 0), Area { x: 39, y: 8, width: 0, height: 0 });
}

#[test]
fn centering_is_exact_for_every_size() {
    for w in 0..130u16 {
        for size in 0..=w {
            let area = Area { x: 3, y: 5, width: w, height: w };
            let r = centered_rect(area, size, size);
            let before = (w - size + 1) / 2;
            assert_eq!(r, Area { x: 3 + before, y: 5 + before, width: size, height: size });
        }
    }
    let wide = Area { x: 100, y: 200, width: 65435, height: 65335 };
    assert_eq!(centered_rect(wide, 65434, 1), Area { x: 101, y: 32867, width: 65434, height: 1 });
}

#[test]
fn the_screen_is_divided_into_header_table_and_footer() {
    for h in 2..300u16 {
        let r = regions(Area { x: 0, y: 0, width: 80, height: h });
        assert_eq!(r.header, Area { x: 0, y: 0, width: 80, height: 1 });
        assert_eq!(r.table, Area { x: 0, y: 1, width: 80, height: h - 2 });
        assert_eq!(r.footer, Area { x: 0, y: h - 1, width: 80, height: 1 });
    }
    let r = regions(Area { x: 2, y: 7, width: 9, height: 60000 });
    assert_eq!(r.footer, Area { x: 2, y: 60006, width: 9, height: 1 });
    // A screen without room for all keeps its columns.
    let r = regions(Area { x: 1, y: 0, width: 5, height: 1 });
    assert_eq!((r.table.x, r.table.width), (1, 5));
}
