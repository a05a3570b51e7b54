use rim::image::Image;
use rim::layout::{GridLayout, Layout, LayoutDirection};
use rim::view::{FilterMethod, View};

fn tile(id: u32) -> View {
    let image =
        Image { path: format!("/pictures/{}.png", id), renderer_id: id as usize, width: 640, height: 480 };
    View::new(id, image, false)
}

fn tiles(count: u32) -> Vec<View> {
    (0..count).map(tile).collect()
}

fn rect(view: &View) -> (i32, i32, i32, i32) {
    (view.x, view.y, view.width, view.height)
}

#[test]
fn grid_size_of_small_counts() {
    let grid = GridLayout::new();
    let h = LayoutDirection::Horizontal;
    let v = LayoutDirection::Vertical;
    assert_eq!(grid.get_grid_size(1, h), (1, 1));
    assert_eq!(grid.get_grid_size(1, v), (1, 1));
    assert_eq!(grid.get_grid_size(2, h), (2, 1));
    assert_eq!(grid.get_grid_size(2, v), (1, 2));
    assert_eq!(grid.get_grid_size(3, h), (2, 2));
    assert_eq!(grid.get_grid_size(4, h), (2, 2));
    assert_eq!(grid.get_grid_size(5, h), (3, 2));
    assert_eq!(grid.get_grid_size(5, v), (2, 3));
    assert_eq!(grid.get_grid_size(6, v), (2, 3));
    assert_eq!(grid.get_grid_size(7, h), (3, 3));
    assert_eq!(grid.get_grid_size(9, v), (3, 3));
    assert_eq!(grid.get_grid_size(10, h), (4, 3));
    assert_eq!(grid.get_grid_size(12, v), (3, 4));
    assert_eq!(grid.get_grid_size(13, h), (4, 4));
    assert_eq!(grid.get_grid_size(17, h), (5, 4));
    assert_eq!(grid.get_grid_size(50, h), (8, 7));
    assert_eq!(grid.get_grid_size(50, v), (7, 8));
}

#[test]
fn grid_size_is_the_smallest_grid_that_holds_all() {
    let grid = GridLayout::new();
    for count in 1..=50i32 {
        for direction in [LayoutDirection::Horizontal, LayoutDirection::Vertical] {
            let (columns, rows) = grid.get_grid_size(count, direction);
            assert!(columns >= 1 && rows >= 1);
            assert!(columns * rows >= count);
            assert!((columns - 1) * rows < count);
            assert!(columns * (rows - 1) < count);
            match direction {
                LayoutDirection::Horizontal => assert!(columns >= rows),
                LayoutDirection::Vertical => assert!(rows >= columns),
            }
        }
    }
}

#[test]
fn grid_size_mirrors_with_the_direction() {
    let grid = GridLayout::new();
    for count in 1..=200i32 {
        let (columns, rows) = grid.get_grid_size(count, LayoutDirection::Horizontal);
        assert_eq!(grid.get_grid_size(count, LayoutDirection::Vertical), (rows, columns));
    }
}

#[test]
fn grid_size_of_perfect_squares_and_their_neighbours() {
    let grid = GridLayout::new();
    for side in 2..=300i32 {
        let square = side * side;
        assert_eq!(grid.get_grid_size(square, LayoutDirection::Horizontal), (side, side));
        assert_eq!(grid.get_grid_size(square + 1, LayoutDirection::Horizontal), (side + 1, side));
        assert_eq!(grid.get_grid_size(square - 1, LayoutDirection::Horizontal), (side, side));
    }
}

#[test]
fn grid_size_of_the_largest_count() {
    let grid = GridLayout::new();
    assert_eq!(grid.get_grid_size(i32::MAX, LayoutDirection::Horizontal), (46341, 46341));
    assert_eq!(grid.get_grid_size(46340 * 46340, LayoutDirection::Vertical), (46340, 46340));
    assert_eq!(grid.get_grid_size(46340 * 46340 + 1, LayoutDirection::Horizontal), (46341, 46340));
}

#[test]
fn next_index_in_a_full_grid() {
    let grid = GridLayout::new();
    let h = LayoutDirection::Horizontal;
    assert_eq!(grid.get_next_index(4, 0, 1, 0, h), 1);
    assert_eq!(grid.get_next_index(4, 0, 0, 1, h), 2);
    assert_eq!(grid.get_next_index(4, 3, 1, 0, h), 2);
    assert_eq!(grid.get_next_index(4, 3, 0, 1, h), 1);
    assert_eq!(grid.get_next_index(4, 0, -1, 0, h), 1);
    assert_eq!(grid.get_next_index(4, 0, 0, -1, h), 2);
    assert_eq!(grid.get_next_index(4, 0, 1, 1, h), 3);
    assert_eq!(grid.get_next_index(4, 0, -1, -1, h), 3);
}

#[test]
fn next_index_into_an_empty_cell_ends_on_the_last_tile() {
    let grid = GridLayout::new();
    let h = LayoutDirection::Horizontal;
    assert_eq!(grid.get_next_index(3, 1, 0, 1, h), 2);
    assert_eq!(grid.get_next_index(3, 1, 0, -1, h), 2);
    assert_eq!(grid.get_next_index(3, 2, 1, 0, h), 2);
    assert_eq!(grid.get_next_index(3, 2, -1, 0, h), 2);
    // Seven tiles in three columns: the last row holds tile 6 alone.
    assert_eq!(grid.get_next_index(7, 4, 0, 1, h), 6);
    assert_eq!(grid.get_next_index(7, 5, 0, 1, h), 6);
    assert_eq!(grid.get_next_index(7, 1, 0, -1, h), 6);
    assert_eq!(grid.get_next_index(7, 3, 0, 1, h), 6);
    assert_eq!(grid.get_next_index(7, 6, 0, 1, h), 0);
    assert_eq!(grid.get_next_index(7, 6, 1, 0, h), 6);
}

#[test]
fn next_index_in_a_vertical_grid() {
    let grid = GridLayout::new();
    let v = LayoutDirection::Vertical;
    // Five tiles: two columns, three rows, the last row holds tile 4.
    assert_eq!(grid.get_next_index(5, 0, 1, 0, v), 1);
    assert_eq!(grid.get_next_index(5, 1, 1, 0, v), 0);
    assert_eq!(grid.get_next_index(5, 0, 0, 1, v), 2);
    assert_eq!(grid.get_next_index(5, 2, 0, 1, v), 4);
    assert_eq!(grid.get_next_index(5, 3, 0, 1, v), 4);
    assert_eq!(grid.get_next_index(5, 4, 0, 1, v), 0);
    assert_eq!(grid.get_next_index(5, 4, 1, 0, v), 4);
    assert_eq!(grid.get_next_index(5, 0, 0, -1, v), 4);
    // Two tiles stand above each other.
    assert_eq!(grid.get_next_index(2, 0, 0, 1, v), 1);
    assert_eq!(grid.get_next_index(2, 0, 1, 0, v), 0);
    assert_eq!(grid.get_next_index(2, 1, 0, 1, v), 0);
}

#[test]
fn next_index_of_a_single_tile() {
    let grid = GridLayout::new();
    for direction in [LayoutDirection::Horizontal, LayoutDirection::Vertical] {
        for dx in -1..=1 {
            for dy in -1..=1 {
                assert_eq!(grid.get_next_index(1, 0, dx, dy, direction), 0);
            }
        }
    }
}

#[test]
fn next_index_with_the_empty_step_stays() {
    let grid = GridLayout::new();
    for count in 1..=50usize {
        for index in 0..count {
            assert_eq!(grid.get_next_index(count, index, 0, 0, LayoutDirection::Horizontal), index);
            assert_eq!(grid.get_next_index(count, index, 0, 0, LayoutDirection::Vertical), index);
        }
    }
}

#[test]
fn next_index_stays_among_the_tiles() {
    let grid = GridLayout::new();
    for count in 1..=40usize {
        for index in 0..count {
            for direction in [LayoutDirection::Horizontal, LayoutDirection::Vertical] {
                for dx in -1..=1 {
                    for dy in -1..=1 {
                        assert!(grid.get_next_index(count, index, dx, dy, direction) < count);
                    }
                }
            }
        }
    }
}

#[test]
fn next_index_is_undone_by_the_opposite_step_unless_clamped() {
    let grid = GridLayout::new();
    for count in 1..=40usize {
        for direction in [LayoutDirection::Horizontal, LayoutDirection::Vertical] {
            let (columns, rows) = grid.get_grid_size(count as i32, direction);
            let (columns, rows) = (columns as usize, rows as usize);
            for index in 0..count {
                for (dx, dy) in [(1, 0), (-1, 0), (0, 1), (0, -1)] {
                    let x = (index % columns + columns).wrapping_add_signed(dx as isize) % columns;
                    let y = (index / columns + rows).wrapping_add_signed(dy as isize) % rows;
                    let raw = x + y * columns;
                    let there = grid.get_next_index(count, index, dx, dy, direction);
                    if raw < count {
                        assert_eq!(there, raw);
                        assert_eq!(grid.get_next_index(count, there, -dx, -dy, direction), index);
                    } else {
                        assert_eq!(there, count - 1);
                    }
                }
            }
        }
    }
}

#[test]
fn layout_of_three_tiles() {
    let grid = GridLayout::new();
    let mut views = tiles(3);
    grid.layout(&mut views, 101, 50, LayoutDirection::Horizontal);
    assert_eq!(rect(&views[0]), (0, 0, 50, 25));
    assert_eq!(rect(&views[1]), (50, 0, 50, 25));
    assert_eq!(rect(&views[2]), (0, 25, 50, 25));
    grid.layout(&mut views, 101, 50, LayoutDirection::Vertical);
    assert_eq!(rect(&views[0]), (0, 0, 50, 25));
    assert_eq!(rect(&views[1]), (50, 0, 50, 25));
    assert_eq!(rect(&views[2]), (0, 25, 50, 25));
}

#[test]
fn layout_of_five_tiles_follows_the_direction() {
    let grid = GridLayout::new();
    let mut views = tiles(5);
    grid.layout(&mut views, 1000, 900, LayoutDirection::Horizontal);
    assert_eq!(rect(&views[0]), (0, 0, 333, 450));
    assert_eq!(rect(&views[1]), (333, 0, 333, 450));
    assert_eq!(rect(&views[2]), (666, 0, 333, 450));
    assert_eq!(rect(&views[3]), (0, 450, 333, 450));
    assert_eq!(rect(&views[4]), (333, 450, 333, 450));
    grid.layout(&mut views, 1000, 900, LayoutDirection::Vertical);
    assert_eq!(rect(&views[0]), (0, 0, 500, 300));
    assert_eq!(rect(&views[1]), (500, 0, 500, 300));
    assert_eq!(rect(&views[2]), (0, 300, 500, 300));
    assert_eq!(rect(&views[3]), (500, 300, 500, 300));
    assert_eq!(rect(&views[4]), (0, 600, 500, 300));
}

#[test]
fn layout_of_one_tile_fills_the_window() {
    let grid = GridLayout::new();
    let mut views = tiles(1);
    grid.layout(&mut views, 1000, 900, LayoutDirection::Vertical);
    assert_eq!(rect(&views[0]), (0, 0, 1000, 900));
}

#[test]
fn layout_changes_nothing_but_the_rectangle() {
    let grid = GridLayout::new();
    let mut views = tiles(4);
    views[1].selected = true;
    views[2].freeze();
    views[3].set_filter_menthod(FilterMethod::Linear);
    views[3].history_enabled = true;
    let before = views.clone();
    grid.layout(&mut views, 640, 480, LayoutDirection::Horizontal);
    for (old, new) in before.iter().zip(views.iter()) {
        let mut moved = old.clone();
        moved.x = new.x;
        moved.y = new.y;
        moved.width = new.width;
        moved.height = new.height;
        assert_eq!(&moved, new);
        assert_eq!((new.width, new.height), (320, 240));
    }
}

#[test]
fn layout_rounds_towards_zero() {
    let grid = GridLayout::new();
    let mut views = tiles(2);
    grid.layout(&mut views, -7, 9, LayoutDirection::Horizontal);
    assert_eq!(rect(&views[0]), (0, 0, -3, 9));
    assert_eq!(rect(&views[1]), (-3, 0, -3, 9));
    grid.layout(&mut views, 7, -9, LayoutDirection::Vertical);
    assert_eq!(rect(&views[0]), (0, 0, 7, -4));
    assert_eq!(rect(&views[1]), (0, -4, 7, -4));
    grid.layout(&mut views, 0, 0, LayoutDirection::Vertical);
    assert_eq!(rect(&views[0]), (0, 0, 0, 0));
    assert_eq!(rect(&views[1]), (0, 0, 0, 0));
    grid.layout(&mut views, i32::MIN, i32::MAX, LayoutDirection::Horizontal);
    assert_eq!(rect(&views[0]), (0, 0, -1073741824, i32::MAX));
    assert_eq!(rect(&views[1]), (-1073741824, 0, -1073741824, i32::MAX));
}

#[test]
fn layout_tiles_the_window_in_reading_order() {
    let grid = GridLayout::new();
    for count in 1..=30u32 {
        for direction in [LayoutDirection::Horizontal, LayoutDirection::Vertical] {
            let mut views = tiles(count);
            grid.layout(&mut views, 1920, 1080, direction);
            let (columns, rows) = grid.get_grid_size(count as i32, direction);
            let (width, height) = (1920 / columns, 1080 / rows);
            for (i, view) in views.iter().enumerate() {
                let (column, row) = (i as i32 % columns, i as i32 / columns);
                assert_eq!(rect(view), (column * width, row * height, width, height));
                assert_eq!(view.id, i as u32);
            }
            // No two tiles share a cell.
            for a in 0..views.len() {
                for b in a + 1..views.len() {
                    assert_ne!((views[a].x, views[a].y), (views[b].x, views[b].y));
                }
            }
            // The strip beside the last tile is as wide as the empty cells.
            let last = &views[views.len() - 1];
            let used = count as i32 % columns;
            if used != 0 {
                assert_eq!(columns * width - (last.x + width), (columns - used) * width);
            } else {
                assert_eq!(last.x + width, columns * width);
            }
        }
    }
}
