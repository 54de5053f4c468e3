use dead_wars::geom::grid_pos_to_rectangle;
use dead_wars::geom::screen_to_grid;
use dead_wars::geom::Position;
use dead_wars::geom::Rectangle;
use dead_wars::geom::ScreenPoint;
use dead_wars::grid::TILE_SIZE;

fn point(x: i32, y: i32) -> ScreenPoint {
    ScreenPoint { x, y }
}

fn cell(x: i32, y: i32) -> Position {
    Position { x, y }
}

#[test]
fn tile_size_is_sixty_four_pixels() {
    assert_eq!(TILE_SIZE, 64);
}

#[test]
fn screen_to_grid_without_scroll() {
    assert_eq!(screen_to_grid(point(0, 0), point(0, 0)), cell(0, 0));
    assert_eq!(screen_to_grid(point(63, 63), point(0, 0)), cell(0, 0));
    assert_eq!(screen_to_grid(point(64, 128), point(0, 0)), cell(1, 2));
    assert_eq!(screen_to_grid(point(127, 191), point(0, 0)), cell(1, 2));
}

#[test]
fn screen_to_grid_axes_are_independent() {
    assert_eq!(screen_to_grid(point(640, 0), point(0, 0)), cell(10, 0));
    assert_eq!(screen_to_grid(point(0, 640), point(0, 0)), cell(0, 10));
}

#[test]
fn screen_to_grid_rounds_down_below_zero() {
    assert_eq!(screen_to_grid(point(-1, -1), point(0, 0)), cell(-1, -1));
    assert_eq!(screen_to_grid(point(-64, -65), point(0, 0)), cell(-1, -2));
    assert_eq!(screen_to_grid(point(-128, 5), point(0, 0)), cell(-2, 0));
}

#[test]
fn screen_to_grid_undoes_the_scroll() {
    assert_eq!(screen_to_grid(point(60, 50), point(-10, -20)), cell(1, 1));
    assert_eq!(screen_to_grid(point(0, 0), point(-64, -640)), cell(1, 10));
    assert_eq!(screen_to_grid(point(10, 10), point(20, 20)), cell(-1, -1));
}

#[test]
fn screen_to_grid_at_the_limits_of_i32() {
    assert_eq!(
        screen_to_grid(point(i32::MAX, i32::MIN), point(i32::MIN, i32::MAX)),
        cell(67108863, -67108864)
    );
    assert_eq!(
        screen_to_grid(point(i32::MIN, i32::MAX), point(0, 0)),
        cell(-33554432, 33554431)
    );
}

#[test]
fn rectangle_contains_left_and_top_edge_only() {
    let r = Rectangle { x: 10, y: 20, width: 50, height: 30 };
    assert!(r.contains(point(10, 20)));
    assert!(r.contains(point(59, 49)));
    assert!(!r.contains(point(60, 20)));
    assert!(!r.contains(point(10, 50)));
    assert!(!r.contains(point(9, 20)));
    assert!(!r.contains(point(10, 19)));
}

#[test]
fn rectangle_without_area_contains_nothing() {
    let r = Rectangle { x: 0, y: 0, width: 0, height: 10 };
    assert!(!r.contains(point(0, 0)));
    let r = Rectangle { x: 0, y: 0, width: -5, height: 10 };
    assert!(!r.contains(point(-1, 0)));
}

#[test]
fn rectangle_contains_near_the_limits_of_i32() {
    let r = Rectangle { x: i32::MAX - 1, y: 0, width: i32::MAX, height: 1 };
    assert!(r.contains(point(i32::MAX, 0)));
    assert!(!r.contains(point(i32::MAX - 2, 0)));
}

#[test]
fn grid_pos_to_rectangle_scales_by_the_tile_size() {
    assert_eq!(
        grid_pos_to_rectangle(cell(2, 3)),
        Rectangle { x: 128, y: 192, width: 64, height: 64 }
    );
    assert_eq!(
        grid_pos_to_rectangle(cell(0, 0)),
        Rectangle { x: 0, y: 0, width: 64, height: 64 }
    );
    assert_eq!(
        grid_pos_to_rectangle(cell(-1, 33554431)),
        Rectangle { x: -64, y: 2147483584, width: 64, height: 64 }
    );
}

#[test]
fn grid_pos_to_rectangle_is_reached_from_the_crate_root() {
    assert_eq!(dead_wars::grid_pos_to_rectangle(cell(1, 1)), grid_pos_to_rectangle(cell(1, 1)));
}

#[test]
fn cell_rectangle_contains_exactly_the_points_of_the_cell() {
    let r = grid_pos_to_rectangle(cell(2, 3));
    assert!(r.contains(point(128, 192)));
    assert!(r.contains(point(191, 255)));
    assert!(!r.contains(point(192, 192)));
    assert_eq!(screen_to_grid(point(128, 192), point(0, 0)), cell(2, 3));
    assert_eq!(screen_to_grid(point(191, 255), point(0, 0)), cell(2, 3));
}
