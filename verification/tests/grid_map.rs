use pseudo3d::game::input::KeyBuffer;
use pseudo3d::game::map::{is_wall_at, map_data, GridMap, MAP_H, MAP_W};

#[test]
fn demo_map_is_walled_in() {
    let grid = map_data();
    for x in 0..MAP_W {
        assert_eq!(grid[0][x], 1);
        assert_eq!(grid[MAP_H - 1][x], 1);
    }
    for y in 0..MAP_H {
        assert_eq!(grid[y][0], 1);
        assert_eq!(grid[y][MAP_W - 1], 1);
    }
    assert_eq!(grid[1][1], 0);
    assert_eq!(grid[3][3], 1);
}

#[test]
fn map_pixels_mark_walls() {
    let map = GridMap::new(map_data());
    let cells = map.cells();
    assert_eq!(cells.len(), MAP_W * MAP_H);
    assert_eq!(cells[0], 255);
    assert_eq!(cells[MAP_W + 1], 0);
    assert_eq!(cells[3 * MAP_W + 3], 255);
    assert_eq!(map.grid()[4][4], 0);
}

#[test]
fn grid_walls_and_outside() {
    let grid = map_data();
    assert!(is_wall_at(&grid, -1, 5));
    assert!(is_wall_at(&grid, 5, 16));
    assert!(is_wall_at(&grid, 0, 0));
    assert!(!is_wall_at(&grid, 2, 2));
    assert!(is_wall_at(&grid, 3, 3));
}

#[test]
fn key_buffer_tracks_presses_and_axes() {
    let mut keys = KeyBuffer::new();
    assert!(!keys.is_down(3));
    assert_eq!(keys.axis(1, 2), 0);
    keys.press(1);
    assert!(keys.is_down(1));
    assert_eq!(keys.axis(1, 2), 1);
    assert_eq!(keys.axis(2, 1), -1);
    keys.press(2);
    assert_eq!(keys.axis(1, 2), 0);
    keys.release(1);
    keys.release(1);
    assert!(!keys.is_down(1));
    assert_eq!(keys.axis(1, 2), -1);
}
