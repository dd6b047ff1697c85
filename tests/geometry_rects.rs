use cursor_mover::geometry::{PixelRect, Point, Screen};
use cursor_mover::grid::Cell;

const SCREEN: Screen = Screen { width: 2560, height: 1440 };

#[test]
fn primary_rect_of_a_cell() {
    assert_eq!(
        SCREEN.primary_rect(Cell { row: 0, col: 0 }),
        PixelRect { x: 0, y: 0, width: 196, height: 110 }
    );
    assert_eq!(
        SCREEN.primary_rect(Cell { row: 4, col: 3 }),
        PixelRect { x: 588, y: 440, width: 196, height: 110 }
    );
    assert_eq!(
        SCREEN.primary_rect(Cell { row: 12, col: 12 }),
        PixelRect { x: 2352, y: 1320, width: 196, height: 110 }
    );
}

#[test]
fn sub_rect_inside_pinned_cell() {
    let pinned = Cell { row: 4, col: 3 };
    assert_eq!(
        SCREEN.sub_rect(pinned, Cell { row: 1, col: 2 }),
        PixelRect { x: 652, y: 467, width: 32, height: 27 }
    );
    assert_eq!(
        SCREEN.sub_rect(pinned, Cell { row: 3, col: 5 }),
        PixelRect { x: 748, y: 521, width: 32, height: 27 }
    );
}

#[test]
fn sub_target_is_sub_cell_center() {
    let pinned = Cell { row: 4, col: 3 };
    assert_eq!(SCREEN.sub_target(pinned, Cell { row: 1, col: 2 }), Point { x: 668, y: 480 });
    assert_eq!(
        SCREEN.sub_target(Cell { row: 0, col: 0 }, Cell { row: 0, col: 0 }),
        Point { x: 16, y: 13 }
    );
}

#[test]
fn tiny_screen_has_empty_cells() {
    let tiny = Screen { width: 12, height: 5 };
    assert_eq!(
        tiny.primary_rect(Cell { row: 12, col: 12 }),
        PixelRect { x: 0, y: 0, width: 0, height: 0 }
    );
}

#[test]
fn largest_screen_stays_in_range() {
    let big = Screen { width: u32::MAX, height: u32::MAX };
    let r = big.primary_rect(Cell { row: 12, col: 12 });
    assert_eq!(r.width, u32::MAX / 13);
    assert!(r.x as u64 + r.width as u64 <= u32::MAX as u64);
    let s = big.sub_rect(Cell { row: 12, col: 12 }, Cell { row: 3, col: 5 });
    assert!(s.x + s.width <= r.x + r.width);
}
