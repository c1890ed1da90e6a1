use vstd::prelude::*;

verus! {

/// A position on the grid, or a grid size, in tile coordinates.
///
/// The origin is the bottom-left corner: `x` grows to the east and `y` grows
/// to the north.
#[derive(PartialEq, Eq, Structural, Copy, Clone, Debug)]
pub struct Point {
    pub x: u32,
    pub y: u32,
}

/// Shorthand constructor for a [`Point`].
pub fn xy(x: u32, y: u32) -> (r: Point)
    ensures
        r == (Point { x, y }),
{
    Point { x, y }
}

impl Point {
    /// The number of cells of a grid of this size.
    pub fn get_area(self) -> (r: usize)
        requires
            self.x * self.y <= u32::MAX,
        ensures
            r == self.x * self.y,
    {
        (self.x * self.y) as usize
    }
}

/// The row-major cell index of the position `(x, y)` on a grid of the given
/// size: `y * size.x + x`.
pub fn get_index(x: u32, y: u32, size: Point) -> (r: usize)
    requires
        x < size.x,
        y < size.y,
        size.x * size.y <= u32::MAX,
    ensures
        r == y * size.x + x,
        r < size.x * size.y,
{
    proof {
        lemma_index_in_area(x as int, y as int, size);
    }
    ((y * size.x) + x) as usize
}

/// The position of the row-major cell index `index` on a grid of the given
/// size.
pub fn get_point(index: usize, size: Point) -> (r: Point)
    requires
        size.x > 0,
        size.x * size.y <= u32::MAX,
        index < size.x * size.y,
    ensures
        r.x == index as int % size.x as int,
        r.y == index as int / size.x as int,
        r.x < size.x,
        r.y < size.y,
        index == r.y * size.x + r.x,
{
    proof {
        lemma_point_in_area(index as int, size);
    }
    Point { x: index as u32 % size.x, y: index as u32 / size.x }
}

/// `y * size.x + x` is a cell index of the grid whenever `(x, y)` lies on it.
pub proof fn lemma_index_in_area(x: int, y: int, size: Point)
    requires
        0 <= x < size.x,
        0 <= y < size.y,
    ensures
        0 <= y * size.x + x < size.x * size.y,
{
    assert(y * size.x + x < size.x * size.y) by (nonlinear_arith)
        requires
            0 <= x < size.x,
            0 <= y < size.y,
    ;
    assert(y * size.x + x >= 0) by (nonlinear_arith)
        requires
            0 <= x,
            0 <= y,
            0 < size.x,
    ;
}

/// The row-major encoding of a position is unique: an index whose column and
/// row are `(cx, cy)` is the index encoding `(cx, cy)`.
pub proof fn lemma_coords_unique(w: int, k: int, cell: int, cx: int, cy: int)
    requires
        w >= 1,
        k >= 0,
        cell == cy * w + cx,
        k % w == cx,
        k / w == cy,
    ensures
        k == cell,
{
    vstd::arithmetic::div_mod::lemma_fundamental_div_mod(k, w);
    assert(k == cell) by (nonlinear_arith)
        requires
            k == w * (k / w) + k % w,
            cell == cy * w + cx,
            k % w == cx,
            k / w == cy,
    ;
}

/// Splitting a cell index of the grid into row and column lands inside the
/// grid, and recombining them gives the index back.
pub proof fn lemma_point_in_area(index: int, size: Point)
    requires
        size.x > 0,
        0 <= index < size.x * size.y,
    ensures
        0 <= index % (size.x as int) < size.x,
        0 <= index / (size.x as int) < size.y,
        index == (index / (size.x as int)) * size.x + index % (size.x as int),
{
    let w = size.x as int;
    vstd::arithmetic::div_mod::lemma_fundamental_div_mod(index, w);
    vstd::arithmetic::div_mod::lemma_mod_bound(index, w);
    assert(index / w < size.y) by (nonlinear_arith)
        requires
            w > 0,
            0 <= index < w * size.y,
            index == w * (index / w) + index % w,
            0 <= index % w < w,
    ;
    vstd::arithmetic::div_mod::lemma_div_pos_is_pos(index, w);
}

} // verus!
