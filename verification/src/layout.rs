//! The layout interface and its grid implementation.

use crate::grid::{
    cell_rect, grid_columns, grid_rows, is_ceil_sqrt, lemma_ceil_sqrt_is, lemma_cell_number,
    lemma_cell_position, lemma_grid_shape, lemma_grid_size, lemma_grid_size_is,
    lemma_next_index_identity, lemma_product_ordered, lemma_raw_index_in_grid, lemma_row_in_grid,
    lemma_trunc_div_bounds, next_index, Rect,
};
use vstd::prelude::*;

verus! {

/// Which way the grid leans when the tiles do not fill a square.
#[derive(Debug, Copy, Clone, PartialEq, Eq, Structural)]
pub enum LayoutDirection {
    /// At least as many columns as rows.
    Horizontal,
    /// At least as many rows as columns.
    Vertical,
}

/// The largest number of tiles a layout is asked to arrange.
pub const MAX_VIEWS: usize = 0x7fff_ffff;

/// `after` is `before` moved and resized to `rect`, and otherwise unchanged.
pub open spec fn is_placed(before: crate::view::View, after: crate::view::View, rect: Rect) -> bool {
    &&& after == before.placed_at(after.x, after.y, after.width, after.height)
    &&& after.x == rect.x
    &&& after.y == rect.y
    &&& after.width == rect.width
    &&& after.height == rect.height
}

/// A way to arrange tiles in a window and to step from tile to tile.
pub trait Layout {
    /// The rectangle this layout gives tile `index` of `view_count` tiles in
    /// a window of `width` by `height` pixels.
    spec fn cell(
        &self,
        view_count: int,
        index: int,
        width: int,
        height: int,
        direction: LayoutDirection,
    ) -> Rect;

    /// The tile this layout reaches from tile `index` by the step
    /// `(x_off, y_off)`.
    spec fn neighbor(
        &self,
        view_count: int,
        index: int,
        x_off: int,
        y_off: int,
        direction: LayoutDirection,
    ) -> int;

    /// Gives every tile its rectangle. Nothing else about a tile changes.
    ///
    /// For the grid, `lemma_grid_size_is` and `lemma_cell_rect_at` turn the
    /// rectangles into numbers.
    fn layout(
        &self,
        views: &mut [crate::view::View],
        width: i32,
        height: i32,
        direction: LayoutDirection,
    )
        requires
            0 < old(views)@.len() <= MAX_VIEWS,
        ensures
            final(views)@.len() == old(views)@.len(),
            forall|i: int|
                0 <= i < old(views)@.len() ==> is_placed(
                    old(views)@[i],
                    #[trigger] final(views)@[i],
                    self.cell(old(views)@.len() as int, i, width as int, height as int, direction),
                ),
    ;

    /// The tile reached from tile `index` by one step: each of `x_off` and
    /// `y_off` is -1, 0 or 1. The empty step leads nowhere else.
    fn get_next_index(
        &self,
        view_count: usize,
        index: usize,
        x_off: i32,
        y_off: i32,
        direction: LayoutDirection,
    ) -> (next: usize)
        requires
            index < view_count <= MAX_VIEWS,
            -1 <= x_off <= 1,
            -1 <= y_off <= 1,
        ensures
            next < view_count,
            next == self.neighbor(
                view_count as int,
                index as int,
                x_off as int,
                y_off as int,
                direction,
            ),
            x_off == 0 && y_off == 0 ==> next == index,
    ;
}

/// The layout that fills the window with a grid of equal cells, in reading
/// order.
pub struct GridLayout {}

/// The smallest `root` whose square is at least `n`.
fn ceil_sqrt_of(n: i32) -> (root: i32)
    requires
        n >= 1,
    ensures
        is_ceil_sqrt(n as int, root as int),
        root <= 46341,
{
    let mut root: i32 = 1;
    while (root as i64) * (root as i64) < (n as i64)
        invariant
            n >= 1,
            1 <= root <= 46341,
            (root - 1) * (root - 1) < n,
            root * root <= 46341 * 46341,
        decreases 46341 - root,
    {
        proof {
            if root >= 46341 {
                lemma_product_ordered(46341, root as int, 46341, root as int);
            }
            lemma_product_ordered(root as int + 1, 46341, root as int + 1, 46341);
        }
        root = root + 1;
    }
    root
}

impl GridLayout {
    /// The grid layout. It has no settings.
    pub fn new() -> (layout: GridLayout) {
        GridLayout {  }
    }

    /// The columns and rows of the grid for `view_count` tiles: the smallest
    /// grid of its lean that holds them all.
    pub fn get_grid_size(&self, view_count: i32, direction: LayoutDirection) -> (size: (i32, i32))
        requires
            view_count >= 1,
        ensures
            size.0 == grid_columns(view_count as int, direction),
            size.1 == grid_rows(view_count as int, direction),
            1 <= size.0 <= 46341,
            1 <= size.1 <= 46341,
            size.0 * size.1 >= view_count,
            (size.0 - 1) * size.1 < view_count,
            size.0 * (size.1 - 1) < view_count,
    {
        let major = ceil_sqrt_of(view_count);
        proof {
            lemma_ceil_sqrt_is(view_count as int, major as int);
            lemma_grid_shape(view_count as int);
            lemma_grid_size(view_count as int, direction);
        }
        let minor = (((view_count as i64) + (major as i64) - 1) / (major as i64)) as i32;
        proof {
            lemma_grid_size_is(view_count as int, direction, major as int, minor as int);
        }
        match direction {
            LayoutDirection::Horizontal => (major, minor),
            LayoutDirection::Vertical => (minor, major),
        }
    }
}

impl Layout for GridLayout {
    open spec fn cell(
        &self,
        view_count: int,
        index: int,
        width: int,
        height: int,
        direction: LayoutDirection,
    ) -> Rect {
        cell_rect(view_count, index, width, height, direction)
    }

    open spec fn neighbor(
        &self,
        view_count: int,
        index: int,
        x_off: int,
        y_off: int,
        direction: LayoutDirection,
    ) -> int {
        next_index(view_count, index, x_off, y_off, direction)
    }

    /// Walks the cells row by row and gives each tile the cell of its number.
    /// The cells behind the last tile stay empty.
    fn layout(
        &self,
        views: &mut [crate::view::View],
        width: i32,
        height: i32,
        direction: LayoutDirection,
    ) {
        let count = views.len();
        let (grid_columns, grid_rows) = self.get_grid_size(count as i32, direction);
        let cell_width = width / grid_columns;
        let cell_height = height / grid_rows;
        let mut y: i32 = 0;
        while y < grid_rows
            invariant
                0 <= y <= grid_rows,
                views@.len() == count,
                count == old(views)@.len(),
                0 < count <= MAX_VIEWS,
                1 <= grid_columns <= 46341,
                1 <= grid_rows <= 46341,
                grid_columns == crate::grid::grid_columns(count as int, direction),
                grid_rows == crate::grid::grid_rows(count as int, direction),
                cell_width == crate::grid::cell_width(count as int, width as int, direction),
                cell_height == crate::grid::cell_height(count as int, height as int, direction),
                forall|i: int|
                    0 <= i < count && i < y * grid_columns ==> is_placed(
                        old(views)@[i],
                        #[trigger] views@[i],
                        cell_rect(count as int, i, width as int, height as int, direction),
                    ),
                forall|i: int|
                    0 <= i < count && i >= y * grid_columns ==> #[trigger] views@[i] == old(
                        views,
                    )@[i],
            decreases grid_rows - y,
        {
            let mut x: i32 = 0;
            while x < grid_columns
                invariant
                    0 <= y < grid_rows,
                    0 <= x <= grid_columns,
                    views@.len() == count,
                    count == old(views)@.len(),
                    0 < count <= MAX_VIEWS,
                    1 <= grid_columns <= 46341,
                    1 <= grid_rows <= 46341,
                    grid_columns == crate::grid::grid_columns(count as int, direction),
                    grid_rows == crate::grid::grid_rows(count as int, direction),
                    cell_width == crate::grid::cell_width(count as int, width as int, direction),
                    cell_height == crate::grid::cell_height(
                        count as int,
                        height as int,
                        direction,
                    ),
                    forall|i: int|
                        0 <= i < count && i < x + y * grid_columns ==> is_placed(
                            old(views)@[i],
                            #[trigger] views@[i],
                            cell_rect(count as int, i, width as int, height as int, direction),
                        ),
                    forall|i: int|
                        0 <= i < count && i >= x + y * grid_columns ==> #[trigger] views@[i]
                            == old(views)@[i],
                decreases grid_columns - x,
            {
                proof {
                    lemma_grid_size(count as int, direction);
                    lemma_cell_position(grid_columns as int, x as int, y as int);
                    lemma_product_ordered(y as int, grid_rows as int - 1, grid_columns as int, grid_columns as int);
                    lemma_product_ordered(0, y as int, 0, grid_columns as int);
                    assert((grid_rows - 1) * grid_columns == grid_columns * (grid_rows - 1))
                        by (nonlinear_arith);
                    lemma_trunc_div_bounds(width as int, grid_columns as int, x as int);
                    lemma_trunc_div_bounds(height as int, grid_rows as int, y as int);
                }
                let index = x as usize + y as usize * grid_columns as usize;
                if index < count {
                    views[index].x = x * cell_width;
                    views[index].y = y * cell_height;
                    views[index].width = cell_width;
                    views[index].height = cell_height;
                }
                x = x + 1;
            }
            proof {
                assert((y + 1) * grid_columns == grid_columns + y * grid_columns)
                    by (nonlinear_arith);
            }
            y = y + 1;
        }
        proof {
            lemma_grid_size(count as int, direction);
            assert(grid_rows * grid_columns == grid_columns * grid_rows) by (nonlinear_arith);
        }
    }

    fn get_next_index(
        &self,
        view_count: usize,
        index: usize,
        x_off: i32,
        y_off: i32,
        direction: LayoutDirection,
    ) -> (next: usize) {
        let (grid_columns, grid_rows) = self.get_grid_size(view_count as i32, direction);
        proof {
            lemma_row_in_grid(view_count as int, index as int, direction);
            lemma_cell_number(grid_columns as int, index as int);
            lemma_raw_index_in_grid(
                view_count as int,
                index as int,
                x_off as int,
                y_off as int,
                direction,
            );
            lemma_product_ordered(grid_columns as int, 46341, grid_rows as int, 46341);
            if x_off == 0 && y_off == 0 {
                lemma_next_index_identity(view_count as int, index as int, direction);
            }
        }
        let x = ((index as i32 % grid_columns + x_off) + grid_columns) % grid_columns;
        let y = ((index as i32 / grid_columns + y_off) + grid_rows) % grid_rows;
        let new_index = x as usize + y as usize * grid_columns as usize;
        if new_index >= view_count - 1 {
            return view_count - 1;
        }
        new_index
    }
}

} // verus!
