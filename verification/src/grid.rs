//! The arithmetic of the tile grid: its dimensions, the rectangle of each
//! cell, and the cell reached by one step in a direction.
//!
//! Everything here is ghost code. Tiles are numbered in reading order: tile
//! `i` sits in column `i % columns` of row `i / columns`.

use crate::layout::LayoutDirection;
use vstd::arithmetic::div_mod::{
    lemma_fundamental_div_mod, lemma_fundamental_div_mod_converse, lemma_mod_bound,
};
use vstd::prelude::*;

verus! {

/// `root` is the side of the smallest square with room for `n` cells.
pub open spec fn is_ceil_sqrt(n: int, root: int) -> bool {
    &&& root >= 1
    &&& (root - 1) * (root - 1) < n
    &&& n <= root * root
}

/// The side of the smallest square with room for `n` cells, for `n >= 1`.
pub open spec fn ceil_sqrt(n: int) -> int {
    choose|root: int| is_ceil_sqrt(n, root)
}

/// How many groups of `d` are needed to hold `n`, for `n >= 0` and `d >= 1`.
pub open spec fn ceil_div(n: int, d: int) -> int {
    (n + d - 1) / d
}

/// The number of columns of the grid for `n` tiles.
pub open spec fn grid_columns(n: int, direction: LayoutDirection) -> int {
    match direction {
        LayoutDirection::Horizontal => ceil_sqrt(n),
        LayoutDirection::Vertical => ceil_div(n, ceil_sqrt(n)),
    }
}

/// The number of rows of the grid for `n` tiles.
pub open spec fn grid_rows(n: int, direction: LayoutDirection) -> int {
    match direction {
        LayoutDirection::Horizontal => ceil_div(n, ceil_sqrt(n)),
        LayoutDirection::Vertical => ceil_sqrt(n),
    }
}

/// Products of non-negative numbers grow with their factors.
pub proof fn lemma_product_ordered(a: int, b: int, c: int, d: int)
    by (nonlinear_arith)
    requires
        0 <= a <= b,
        0 <= c <= d,
    ensures
        a * c <= b * d,
{
}

/// At most one number is the ceiling of the square root of `n`.
pub proof fn lemma_ceil_sqrt_unique(n: int, a: int, b: int)
    requires
        is_ceil_sqrt(n, a),
        is_ceil_sqrt(n, b),
    ensures
        a == b,
{
    if a < b {
        lemma_product_ordered(a, b - 1, a, b - 1);
    }
    if b < a {
        lemma_product_ordered(b, a - 1, b, a - 1);
    }
}

/// Every `n >= 1` has a ceiling of its square root, and `ceil_sqrt` names it.
pub proof fn lemma_ceil_sqrt_exists(n: int)
    requires
        n >= 1,
    ensures
        is_ceil_sqrt(n, ceil_sqrt(n)),
    decreases n,
{
    if n == 1 {
        assert(is_ceil_sqrt(1, 1));
    } else {
        lemma_ceil_sqrt_exists(n - 1);
        let r = ceil_sqrt(n - 1);
        if n <= r * r {
            assert(is_ceil_sqrt(n, r));
        } else {
            assert((r + 1) * (r + 1) == r * r + 2 * r + 1) by (nonlinear_arith);
            assert(is_ceil_sqrt(n, r + 1));
        }
    }
}

/// A number with the defining property is the ceiling of the square root.
pub proof fn lemma_ceil_sqrt_is(n: int, root: int)
    requires
        is_ceil_sqrt(n, root),
    ensures
        ceil_sqrt(n) == root,
{
    lemma_ceil_sqrt_unique(n, ceil_sqrt(n), root);
}

/// `ceil_div(n, d)` is the least number of groups of `d` that hold `n`.
pub proof fn lemma_ceil_div(n: int, d: int)
    requires
        n >= 1,
        d >= 1,
    ensures
        ceil_div(n, d) >= 1,
        d * (ceil_div(n, d) - 1) < n,
        n <= d * ceil_div(n, d),
{
    let q = ceil_div(n, d);
    lemma_fundamental_div_mod(n + d - 1, d);
    lemma_mod_bound(n + d - 1, d);
    assert(d * (q - 1) == d * q - d) by (nonlinear_arith);
    assert(q >= 1) by (nonlinear_arith)
        requires
            d >= 1,
            d * q >= 1,
    ;
}

/// The shape of the grid before the direction is applied: `s` along the
/// longer side and `t` along the shorter one.
pub proof fn lemma_grid_shape(n: int)
    requires
        n >= 1,
    ensures
        ({
            let s = ceil_sqrt(n);
            let t = ceil_div(n, s);
            &&& is_ceil_sqrt(n, s)
            &&& 1 <= t <= s <= n
            &&& n <= s * t
            &&& s * (t - 1) < n
            &&& (s - 1) * t < n
        }),
{
    let s = ceil_sqrt(n);
    let t = ceil_div(n, s);
    lemma_ceil_sqrt_exists(n);
    lemma_ceil_div(n, s);
    if t - 1 >= s {
        lemma_product_ordered(s, s, s, t - 1);
    }
    if s > n {
        lemma_product_ordered(1, s - 1, n, s - 1);
    }
    if t == s {
        assert((s - 1) * t == s * (t - 1)) by (nonlinear_arith)
            requires
                t == s,
        ;
    } else {
        lemma_product_ordered(s - 1, s - 1, t, s - 1);
    }
}

/// The grid for `n >= 1` tiles has room for all of them, and neither its last
/// column nor its last row could be left out.
pub proof fn lemma_grid_size(n: int, direction: LayoutDirection)
    requires
        n >= 1,
    ensures
        ({
            let c = grid_columns(n, direction);
            let r = grid_rows(n, direction);
            &&& 1 <= c <= n
            &&& 1 <= r <= n
            &&& c * r >= n
            &&& (c - 1) * r < n
            &&& c * (r - 1) < n
        }),
{
    let s = ceil_sqrt(n);
    let t = ceil_div(n, s);
    lemma_grid_shape(n);
    assert(t * s == s * t) by (nonlinear_arith);
    assert((t - 1) * s == s * (t - 1)) by (nonlinear_arith);
    assert(t * (s - 1) == (s - 1) * t) by (nonlinear_arith);
}

/// The grid is known by its defining properties: `major` is the ceiling of
/// the square root of `n`, and `minor` lines of `major` cells are just enough.
/// With numbers for `major` and `minor` this settles the size of a given grid.
pub proof fn lemma_grid_size_is(n: int, direction: LayoutDirection, major: int, minor: int)
    requires
        n >= 1,
        is_ceil_sqrt(n, major),
        major * (minor - 1) < n <= major * minor,
    ensures
        grid_columns(n, direction) == if direction == LayoutDirection::Horizontal {
            major
        } else {
            minor
        },
        grid_rows(n, direction) == if direction == LayoutDirection::Horizontal {
            minor
        } else {
            major
        },
{
    lemma_ceil_sqrt_is(n, major);
    lemma_ceil_div(n, major);
    let t = ceil_div(n, major);
    assert(minor >= 1) by (nonlinear_arith)
        requires
            major >= 1,
            major * minor >= 1,
    ;
    if t < minor {
        lemma_product_ordered(major, major, t, minor - 1);
    }
    if minor < t {
        lemma_product_ordered(major, major, minor, t - 1);
    }
}

/// A pixel rectangle: its top left corner and its size.
pub struct Rect {
    pub x: int,
    pub y: int,
    pub width: int,
    pub height: int,
}

/// Division that rounds towards zero, as the machine divides, for `d >= 1`.
#[verifier::inline]
pub open spec fn trunc_div(a: int, d: int) -> int {
    if a >= 0 {
        a / d
    } else {
        -((-a) / d)
    }
}

/// The width of every cell when `n` tiles share `total_width` pixels.
pub open spec fn cell_width(n: int, total_width: int, direction: LayoutDirection) -> int {
    trunc_div(total_width, grid_columns(n, direction))
}

/// The height of every cell when `n` tiles share `total_height` pixels.
pub open spec fn cell_height(n: int, total_height: int, direction: LayoutDirection) -> int {
    trunc_div(total_height, grid_rows(n, direction))
}

/// The rectangle of cell number `index` in a grid of `columns` by `rows`
/// equal cells that shares a window of the given size.
pub open spec fn cell_rect_in(
    columns: int,
    rows: int,
    index: int,
    total_width: int,
    total_height: int,
) -> Rect {
    let width = trunc_div(total_width, columns);
    let height = trunc_div(total_height, rows);
    Rect { x: (index % columns) * width, y: (index / columns) * height, width, height }
}

/// The rectangle of tile `index` among `n` tiles in a window of the given size.
pub open spec fn cell_rect(
    n: int,
    index: int,
    total_width: int,
    total_height: int,
    direction: LayoutDirection,
) -> Rect {
    cell_rect_in(
        grid_columns(n, direction),
        grid_rows(n, direction),
        index,
        total_width,
        total_height,
    )
}

/// One step along an axis of `modulus` cells, leaving at one end and coming
/// back in at the other.
pub open spec fn wrap(coord: int, delta: int, modulus: int) -> int {
    ((coord + delta) + modulus) % modulus
}

/// The number of the cell one step away from cell `index` in a grid of
/// `columns` by `rows` cells.
pub open spec fn raw_index_in(columns: int, rows: int, index: int, dx: int, dy: int) -> int {
    wrap(index % columns, dx, columns) + wrap(index / columns, dy, rows) * columns
}

/// The number of the cell one step away from tile `index`, whether or not
/// that cell holds a tile.
pub open spec fn raw_index(n: int, index: int, dx: int, dy: int, direction: LayoutDirection) -> int {
    raw_index_in(grid_columns(n, direction), grid_rows(n, direction), index, dx, dy)
}

/// The tile one step away from tile `index`. A step into an empty cell of the
/// last row ends on the last tile.
pub open spec fn next_index(n: int, index: int, dx: int, dy: int, direction: LayoutDirection) -> int {
    let raw = raw_index(n, index, dx, dy, direction);
    if raw >= n {
        n - 1
    } else {
        raw
    }
}

/// Column `x` of row `y` holds cell number `x + y * columns`, and no other
/// cell has that number.
pub proof fn lemma_cell_position(columns: int, x: int, y: int)
    requires
        columns >= 1,
        0 <= x < columns,
    ensures
        (x + y * columns) % columns == x,
        (x + y * columns) / columns == y,
{
    lemma_fundamental_div_mod_converse(x + y * columns, columns, y, x);
}

/// A number is put together again from its row and its column.
pub proof fn lemma_cell_number(columns: int, index: int)
    requires
        columns >= 1,
    ensures
        index == index % columns + (index / columns) * columns,
        0 <= index % columns < columns,
        index >= 0 ==> index / columns >= 0,
{
    lemma_fundamental_div_mod(index, columns);
    lemma_mod_bound(index, columns);
    assert((index / columns) * columns == columns * (index / columns)) by (nonlinear_arith);
    if index >= 0 && index / columns < 0 {
        lemma_product_ordered(1, columns, 1, -(index / columns));
        assert(columns * -(index / columns) == -(columns * (index / columns)))
            by (nonlinear_arith);
    }
}

/// A tile of the grid lies in one of its rows.
pub proof fn lemma_row_in_grid(n: int, index: int, direction: LayoutDirection)
    requires
        0 <= index < n,
    ensures
        0 <= index / grid_columns(n, direction) < grid_rows(n, direction),
        0 <= index % grid_columns(n, direction) < grid_columns(n, direction),
{
    let c = grid_columns(n, direction);
    let r = grid_rows(n, direction);
    lemma_grid_size(n, direction);
    lemma_cell_number(c, index);
    if index / c >= r {
        lemma_product_ordered(r, index / c, c, c);
        assert(r * c == c * r) by (nonlinear_arith);
    }
}

/// Rounding towards zero never leaves the span between zero and the dividend,
/// and neither does a multiple of the quotient by less than the divisor.
pub proof fn lemma_trunc_div_bounds(a: int, d: int, k: int)
    requires
        d >= 1,
        0 <= k < d,
    ensures
        a >= 0 ==> 0 <= trunc_div(a, d) <= a && 0 <= k * trunc_div(a, d) <= a,
        a < 0 ==> a <= trunc_div(a, d) <= 0 && a <= k * trunc_div(a, d) <= 0,
{
    let m = if a >= 0 { a } else { -a };
    let q = m / d;
    lemma_fundamental_div_mod(m, d);
    lemma_mod_bound(m, d);
    assert(q >= 0) by (nonlinear_arith)
        requires
            d >= 1,
            d * q > -d,
    ;
    lemma_product_ordered(k, d, q, q);
    lemma_product_ordered(1, d, q, q);
    lemma_product_ordered(0, k, 0, q);
    if a < 0 {
        assert(k * (-q) == -(k * q)) by (nonlinear_arith);
    }
}

/// The value of a step along an axis.
pub proof fn lemma_wrap_value(coord: int, delta: int, modulus: int)
    requires
        modulus >= 1,
        0 <= coord < modulus,
        -1 <= delta <= 1,
    ensures
        wrap(coord, delta, modulus) == if coord + delta < 0 {
            modulus - 1
        } else if coord + delta >= modulus {
            0
        } else {
            coord + delta
        },
{
    let v = coord + delta + modulus;
    if coord + delta < 0 {
        lemma_fundamental_div_mod_converse(v, modulus, 0, modulus - 1);
    } else if coord + delta >= modulus {
        lemma_fundamental_div_mod_converse(v, modulus, 2, 0);
    } else {
        lemma_fundamental_div_mod_converse(v, modulus, 1, coord + delta);
    }
}

/// A step stays on the axis, and the opposite step leads back.
pub proof fn lemma_wrap_inverse(coord: int, delta: int, modulus: int)
    requires
        modulus >= 1,
        0 <= coord < modulus,
        -1 <= delta <= 1,
    ensures
        0 <= wrap(coord, delta, modulus) < modulus,
        wrap(wrap(coord, delta, modulus), -delta, modulus) == coord,
        delta == 0 ==> wrap(coord, delta, modulus) == coord,
{
    lemma_wrap_value(coord, delta, modulus);
    lemma_wrap_value(wrap(coord, delta, modulus), -delta, modulus);
}

/// The cell one step away lies in the grid.
pub proof fn lemma_raw_index_in_grid(n: int, index: int, dx: int, dy: int, direction: LayoutDirection)
    requires
        0 <= index < n,
        -1 <= dx <= 1,
        -1 <= dy <= 1,
    ensures
        0 <= raw_index(n, index, dx, dy, direction) < grid_columns(n, direction) * grid_rows(
            n,
            direction,
        ),
        raw_index(n, index, dx, dy, direction) % grid_columns(n, direction) == wrap(
            index % grid_columns(n, direction),
            dx,
            grid_columns(n, direction),
        ),
        raw_index(n, index, dx, dy, direction) / grid_columns(n, direction) == wrap(
            index / grid_columns(n, direction),
            dy,
            grid_rows(n, direction),
        ),
{
    let c = grid_columns(n, direction);
    let r = grid_rows(n, direction);
    lemma_grid_size(n, direction);
    lemma_row_in_grid(n, index, direction);
    let x = wrap(index % c, dx, c);
    let y = wrap(index / c, dy, r);
    lemma_wrap_inverse(index % c, dx, c);
    lemma_wrap_inverse(index / c, dy, r);
    lemma_cell_position(c, x, y);
    lemma_product_ordered(0, y, c, c);
    lemma_product_ordered(y + 1, r, c, c);
    assert((y + 1) * c == y * c + c) by (nonlinear_arith);
    assert(r * c == c * r) by (nonlinear_arith);
}

/// The tile one step away is one of the `n` tiles.
pub proof fn lemma_next_index_in_range(n: int, index: int, dx: int, dy: int, direction: LayoutDirection)
    requires
        0 <= index < n,
        -1 <= dx <= 1,
        -1 <= dy <= 1,
    ensures
        0 <= next_index(n, index, dx, dy, direction) < n,
{
    lemma_raw_index_in_grid(n, index, dx, dy, direction);
}

/// The empty step leads from every tile to itself.
pub proof fn lemma_next_index_identity(n: int, index: int, direction: LayoutDirection)
    requires
        0 <= index < n,
    ensures
        next_index(n, index, 0, 0, direction) == index,
{
    let c = grid_columns(n, direction);
    let r = grid_rows(n, direction);
    lemma_grid_size(n, direction);
    lemma_row_in_grid(n, index, direction);
    lemma_wrap_inverse(index % c, 0, c);
    lemma_wrap_inverse(index / c, 0, r);
    lemma_cell_number(c, index);
}

/// A step that ends on the cell it aimed at is undone by the opposite step.
pub proof fn lemma_next_index_inverse(n: int, index: int, dx: int, dy: int, direction: LayoutDirection)
    requires
        0 <= index < n,
        -1 <= dx <= 1,
        -1 <= dy <= 1,
        raw_index(n, index, dx, dy, direction) < n,
    ensures
        next_index(n, next_index(n, index, dx, dy, direction), -dx, -dy, direction) == index,
{
    let c = grid_columns(n, direction);
    let r = grid_rows(n, direction);
    lemma_grid_size(n, direction);
    lemma_row_in_grid(n, index, direction);
    lemma_raw_index_in_grid(n, index, dx, dy, direction);
    lemma_wrap_inverse(index % c, dx, c);
    lemma_wrap_inverse(index / c, dy, r);
    lemma_cell_number(c, index);
}

/// The tile in column `column` of row `row` has its corner `column` cell
/// widths from the left edge and `row` cell heights from the top. With
/// numbers for the grid and the place this gives the rectangle in numbers.
pub proof fn lemma_cell_rect_at(
    n: int,
    index: int,
    total_width: int,
    total_height: int,
    direction: LayoutDirection,
    columns: int,
    rows: int,
    column: int,
    row: int,
)
    requires
        grid_columns(n, direction) == columns,
        grid_rows(n, direction) == rows,
        0 <= column < columns,
        index == column + row * columns,
    ensures
        cell_rect(n, index, total_width, total_height, direction) == (Rect {
            x: column * trunc_div(total_width, columns),
            y: row * trunc_div(total_height, rows),
            width: trunc_div(total_width, columns),
            height: trunc_div(total_height, rows),
        }),
{
    lemma_cell_position(columns, column, row);
}

/// Every tile is the tile of one cell of the grid and of no other: column `x`
/// of row `y` holds tile `index` exactly if they are the column and the row
/// that `index` names.
pub proof fn lemma_one_cell_per_tile(n: int, direction: LayoutDirection, index: int, x: int, y: int)
    requires
        0 <= index < n,
        0 <= x < grid_columns(n, direction),
        0 <= y < grid_rows(n, direction),
    ensures
        (x + y * grid_columns(n, direction) == index) <==> (x == index % grid_columns(n, direction)
            && y == index / grid_columns(n, direction)),
{
    let c = grid_columns(n, direction);
    lemma_grid_size(n, direction);
    lemma_cell_position(c, x, y);
    lemma_cell_number(c, index);
}

/// The cells lie side by side without gaps. All have the same size; a cell
/// begins where its left neighbour ends, and where the cell above it ends.
/// The first column begins at the left edge, the first row at the top.
pub proof fn lemma_cells_abut(
    n: int,
    index: int,
    total_width: int,
    total_height: int,
    direction: LayoutDirection,
)
    requires
        0 <= index < n,
    ensures
        ({
            let c = grid_columns(n, direction);
            let here = cell_rect(n, index, total_width, total_height, direction);
            let right = cell_rect(n, index + 1, total_width, total_height, direction);
            let below = cell_rect(n, index + c, total_width, total_height, direction);
            &&& here.width == cell_width(n, total_width, direction)
            &&& here.height == cell_height(n, total_height, direction)
            &&& index % c == 0 ==> here.x == 0
            &&& index < c ==> here.y == 0
            &&& (index + 1) % c != 0 ==> right.x == here.x + here.width && right.y == here.y
            &&& below.x == here.x && below.y == here.y + here.height
        }),
{
    let c = grid_columns(n, direction);
    let w = cell_width(n, total_width, direction);
    let h = cell_height(n, total_height, direction);
    let x = index % c;
    let y = index / c;
    lemma_grid_size(n, direction);
    lemma_cell_number(c, index);
    if index < c {
        lemma_cell_position(c, index, 0);
    }
    assert(x == 0 ==> x * w == 0) by (nonlinear_arith);
    assert(y == 0 ==> y * h == 0) by (nonlinear_arith);
    assert((y + 1) * c == y * c + c) by (nonlinear_arith);
    lemma_cell_position(c, x, y + 1);
    assert((y + 1) * h == y * h + h) by (nonlinear_arith);
    if x + 1 < c {
        lemma_cell_position(c, x + 1, y);
        assert((x + 1) * w == x * w + w) by (nonlinear_arith);
    } else {
        lemma_cell_position(c, 0, y + 1);
    }
}

/// The last row. Where the tiles do not fill it, the strip to the right of
/// the last tile is as wide as the cells that stay empty; where they do, the
/// last tile ends where the grid ends.
pub proof fn lemma_last_row_gap(n: int, total_width: int, total_height: int, direction: LayoutDirection)
    requires
        n >= 1,
    ensures
        ({
            let c = grid_columns(n, direction);
            let w = cell_width(n, total_width, direction);
            let last = cell_rect(n, n - 1, total_width, total_height, direction);
            &&& n % c != 0 ==> c * w - (last.x + w) == (c - n % c) * w
            &&& n % c == 0 ==> last.x + w == c * w
        }),
{
    let c = grid_columns(n, direction);
    let w = cell_width(n, total_width, direction);
    let x = (n - 1) % c;
    let y = (n - 1) / c;
    lemma_grid_size(n, direction);
    lemma_cell_number(c, n - 1);
    assert((x + 1) * w == x * w + w) by (nonlinear_arith);
    if x + 1 < c {
        lemma_cell_position(c, x + 1, y);
        assert(c * w - (x + 1) * w == (c - (x + 1)) * w) by (nonlinear_arith);
    } else {
        assert((y + 1) * c == y * c + c) by (nonlinear_arith);
        lemma_cell_position(c, 0, y + 1);
    }
}

/// The grid fills a window of non-negative size up to the pixels lost in
/// rounding, which are fewer than the cells along the axis.
pub proof fn lemma_grid_covers_window(
    n: int,
    total_width: int,
    total_height: int,
    direction: LayoutDirection,
)
    requires
        n >= 1,
        total_width >= 0,
        total_height >= 0,
    ensures
        ({
            let c = grid_columns(n, direction);
            let r = grid_rows(n, direction);
            let w = cell_width(n, total_width, direction);
            let h = cell_height(n, total_height, direction);
            &&& 0 <= total_width - c * w < c
            &&& 0 <= total_height - r * h < r
        }),
{
    let c = grid_columns(n, direction);
    let r = grid_rows(n, direction);
    lemma_grid_size(n, direction);
    lemma_fundamental_div_mod(total_width, c);
    lemma_mod_bound(total_width, c);
    lemma_fundamental_div_mod(total_height, r);
    lemma_mod_bound(total_height, r);
}

} // verus!
