use vstd::prelude::*;
use super::TileMap;
use crate::point::{get_index, lemma_coords_unique, lemma_index_in_area, Point};
use crate::tile::TileType;

verus! {

/// A fluent builder for the terrain of a [`TileMap`]: a base fill overlaid
/// with borders, rectangle outlines and single tiles, finalized by
/// [`TileMapBuilder::build`] into a map with empty occupancy.
pub struct TileMapBuilder {
    size: Point,
    tiles: Vec<TileType>,
}

impl TileMapBuilder {
    /// The size of the grid under construction.
    pub closed spec fn spec_size(self) -> Point {
        self.size
    }

    /// The terrain built so far, in row-major order.
    pub closed spec fn terrain(self) -> Seq<TileType> {
        self.tiles@
    }

    pub open spec fn width(self) -> int {
        self.spec_size().x as int
    }

    pub open spec fn height(self) -> int {
        self.spec_size().y as int
    }

    pub open spec fn area(self) -> int {
        self.width() * self.height()
    }

    /// Well-formedness: the grid is non-degenerate, cell indices fit in
    /// `u32`, and the terrain covers the whole grid.
    pub open spec fn inv(self) -> bool {
        &&& 1 <= self.width()
        &&& 1 <= self.height()
        &&& self.area() <= u32::MAX
        &&& self.terrain().len() == self.area()
    }

    /// The x-coordinate of the cell index `k`.
    pub open spec fn col(self, k: int) -> int {
        k % self.width()
    }

    /// The y-coordinate of the cell index `k`.
    pub open spec fn row(self, k: int) -> int {
        k / self.width()
    }

    /// The cell `k` lies on the outline of the rectangle anchored at `pos`
    /// of the given size: inside it, and on one of its four edges.
    pub open spec fn on_outline(self, k: int, pos: Point, size: Point) -> bool {
        let px = pos.x as int;
        let py = pos.y as int;
        let sx = size.x as int;
        let sy = size.y as int;
        &&& px <= self.col(k) < px + sx
        &&& py <= self.row(k) < py + sy
        &&& (self.col(k) == px || self.col(k) == px + sx - 1 || self.row(k) == py || self.row(k)
            == py + sy - 1)
    }

    /// A fresh builder: every tile of the grid is the base fill `default`.
    pub fn new(size: Point, default: TileType) -> (r: Self)
        requires
            1 <= size.x,
            1 <= size.y,
            size.x * size.y <= u32::MAX,
        ensures
            r.inv(),
            r.spec_size() == size,
            r.terrain() == Seq::new((size.x * size.y) as nat, |i: int| default),
    {
        let area = size.get_area();
        let mut tiles: Vec<TileType> = Vec::new();

        while tiles.len() < area
            invariant
                area == size.x * size.y,
                tiles@.len() <= area,
                tiles@ == Seq::new(tiles@.len(), |i: int| default),
            decreases area - tiles@.len(),
        {
            tiles.push(default);
            proof {
                assert(tiles@ =~= Seq::new(tiles@.len(), |i: int| default));
            }
        }

        proof {
            assert(tiles@ =~= Seq::new((size.x * size.y) as nat, |i: int| default));
        }
        TileMapBuilder { size, tiles }
    }

    /// Overlay the outline of the whole grid with `tile_type`.
    pub fn add_border(self, tile_type: TileType) -> (r: Self)
        requires
            self.inv(),
        ensures
            r.inv(),
            r.spec_size() == self.spec_size(),
            r.terrain().len() == self.terrain().len(),
            forall|k: int|
                0 <= k < self.area() ==> r.terrain()[k] == (if self.on_outline(
                    k,
                    Point { x: 0, y: 0 },
                    self.spec_size(),
                ) {
                    tile_type
                } else {
                    self.terrain()[k]
                }),
    {
        let size = self.size;
        self.add_rectangle(Point { x: 0, y: 0 }, size, tile_type)
    }

    /// Overlay the outline of the rectangle anchored at `pos` of the given
    /// size with `tile_type`.
    pub fn add_rectangle(self, pos: Point, size: Point, tile_type: TileType) -> (r: Self)
        requires
            self.inv(),
            1 <= size.x,
            1 <= size.y,
            pos.x + size.x <= self.spec_size().x,
            pos.y + size.y <= self.spec_size().y,
        ensures
            r.inv(),
            r.spec_size() == self.spec_size(),
            r.terrain().len() == self.terrain().len(),
            forall|k: int|
                0 <= k < self.area() ==> r.terrain()[k] == (if self.on_outline(k, pos, size) {
                    tile_type
                } else {
                    self.terrain()[k]
                }),
    {
        let mut this = self;
        let ghost orig = self;
        let end_x = pos.x + size.x;
        let end_y = pos.y + size.y;
        let ghost px = pos.x as int;
        let ghost py = pos.y as int;
        let ghost sx = size.x as int;
        let ghost sy = size.y as int;

        let mut x = pos.x;

        while x < end_x
            invariant
                orig.inv(),
                this.inv(),
                this.spec_size() == orig.spec_size(),
                this.terrain().len() == orig.terrain().len(),
                px == pos.x as int,
                py == pos.y as int,
                sx == size.x as int,
                sy == size.y as int,
                end_x == px + sx,
                end_y == py + sy,
                px <= x as int <= px + sx,
                px + sx <= orig.width(),
                py + sy <= orig.height(),
                1 <= sx,
                1 <= sy,
                forall|k: int|
                    0 <= k < orig.area() && orig.on_h_edges(k, pos, size, x as int)
                        ==> this.terrain()[k] == tile_type,
                forall|k: int|
                    0 <= k < orig.area() && !orig.on_h_edges(k, pos, size, x as int)
                        ==> this.terrain()[k] == orig.terrain()[k],
            decreases end_x - x,
        {
            let low = get_index(x, pos.y, this.size);
            let high = get_index(x, end_y - 1, this.size);
            this.tiles[low] = tile_type;
            this.tiles[high] = tile_type;
            proof {
                lemma_index_in_area(x as int, py, orig.spec_size());
                lemma_index_in_area(x as int, py + sy - 1, orig.spec_size());
                assert(orig.col(low as int) == x as int && orig.row(low as int) == py) by {
                    vstd::arithmetic::div_mod::lemma_fundamental_div_mod_converse(
                        low as int,
                        orig.width(),
                        py,
                        x as int,
                    );
                }
                assert(orig.col(high as int) == x as int && orig.row(high as int) == py + sy
                    - 1) by {
                    vstd::arithmetic::div_mod::lemma_fundamental_div_mod_converse(
                        high as int,
                        orig.width(),
                        py + sy - 1,
                        x as int,
                    );
                }
                assert forall|k: int|
                    0 <= k < orig.area() && orig.on_h_edges(k, pos, size, x + 1 as int) implies this
                    .terrain()[k] == tile_type by {
                    if orig.col(k) == x as int {
                        vstd::arithmetic::div_mod::lemma_fundamental_div_mod(k, orig.width());
                        if orig.row(k) == py {
                            lemma_coords_unique(orig.width(), k, low as int, x as int, py);
                        } else {
                            lemma_coords_unique(
                                orig.width(),
                                k,
                                high as int,
                                x as int,
                                py + sy - 1,
                            );
                        }
                    }
                }
                assert forall|k: int|
                    0 <= k < orig.area() && !orig.on_h_edges(k, pos, size, x + 1 as int) implies
                    this.terrain()[k] == orig.terrain()[k] by {
                    assert(!orig.on_h_edges(k, pos, size, x as int));
                    if k == low as int || k == high as int {
                        assert(orig.on_h_edges(k, pos, size, x + 1 as int));
                    }
                }
            }
            x = x + 1;
        }

        let mut y = pos.y;

        while y < end_y
            invariant
                orig.inv(),
                this.inv(),
                this.spec_size() == orig.spec_size(),
                this.terrain().len() == orig.terrain().len(),
                px == pos.x as int,
                py == pos.y as int,
                sx == size.x as int,
                sy == size.y as int,
                end_x == px + sx,
                end_y == py + sy,
                py <= y as int <= py + sy,
                px + sx <= orig.width(),
                py + sy <= orig.height(),
                1 <= sx,
                1 <= sy,
                forall|k: int|
                    0 <= k < orig.area() && orig.on_h_edges(k, pos, size, px + sx)
                        ==> this.terrain()[k] == tile_type,
                forall|k: int|
                    0 <= k < orig.area() && orig.on_v_edges(k, pos, size, y as int)
                        ==> this.terrain()[k] == tile_type,
                forall|k: int|
                    0 <= k < orig.area() && !orig.on_h_edges(k, pos, size, px + sx) && !orig
                        .on_v_edges(k, pos, size, y as int) ==> this.terrain()[k]
                        == orig.terrain()[k],
            decreases end_y - y,
        {
            let left = get_index(pos.x, y, this.size);
            let right = get_index(end_x - 1, y, this.size);
            this.tiles[left] = tile_type;
            this.tiles[right] = tile_type;
            proof {
                lemma_index_in_area(px, y as int, orig.spec_size());
                lemma_index_in_area(px + sx - 1, y as int, orig.spec_size());
                assert(orig.col(left as int) == px && orig.row(left as int) == y as int) by {
                    vstd::arithmetic::div_mod::lemma_fundamental_div_mod_converse(
                        left as int,
                        orig.width(),
                        y as int,
                        px,
                    );
                }
                assert(orig.col(right as int) == px + sx - 1 && orig.row(right as int)
                    == y as int) by {
                    vstd::arithmetic::div_mod::lemma_fundamental_div_mod_converse(
                        right as int,
                        orig.width(),
                        y as int,
                        px + sx - 1,
                    );
                }
                assert forall|k: int|
                    0 <= k < orig.area() && orig.on_v_edges(k, pos, size, y + 1 as int) implies this
                    .terrain()[k] == tile_type by {
                    if orig.row(k) == y as int {
                        if orig.col(k) == px {
                            lemma_coords_unique(orig.width(), k, left as int, px, y as int);
                        } else {
                            lemma_coords_unique(
                                orig.width(),
                                k,
                                right as int,
                                px + sx - 1,
                                y as int,
                            );
                        }
                    }
                }
                assert forall|k: int|
                    0 <= k < orig.area() && !orig.on_h_edges(k, pos, size, px + sx) && !orig
                        .on_v_edges(k, pos, size, y + 1 as int) implies this.terrain()[k] == orig
                    .terrain()[k] by {
                    if k == left as int || k == right as int {
                        assert(orig.on_v_edges(k, pos, size, y + 1 as int));
                    }
                }
            }
            y = y + 1;
        }

        proof {
            assert forall|k: int| 0 <= k < orig.area() implies this.terrain()[k] == (if orig
                .on_outline(k, pos, size) {
                tile_type
            } else {
                orig.terrain()[k]
            }) by {
                assert(orig.on_outline(k, pos, size) <==> (orig.on_h_edges(k, pos, size, px + sx)
                    || orig.on_v_edges(k, pos, size, py + sy)));
            }
        }
        this
    }

    /// The cell `k` lies on the top or bottom edge of the rectangle, in a
    /// column already walked (strictly left of `upto`).
    pub open spec fn on_h_edges(self, k: int, pos: Point, size: Point, upto: int) -> bool {
        let px = pos.x as int;
        let py = pos.y as int;
        let sy = size.y as int;
        &&& px <= self.col(k) < upto
        &&& (self.row(k) == py || self.row(k) == py + sy - 1)
    }

    /// The cell `k` lies on the left or right edge of the rectangle, in a
    /// row already walked (strictly below `upto`).
    pub open spec fn on_v_edges(self, k: int, pos: Point, size: Point, upto: int) -> bool {
        let px = pos.x as int;
        let py = pos.y as int;
        let sx = size.x as int;
        &&& py <= self.row(k) < upto
        &&& (self.col(k) == px || self.col(k) == px + sx - 1)
    }

    /// Overlay the single tile at `pos` with `tile_type`.
    pub fn set_tile(self, pos: Point, tile_type: TileType) -> (r: Self)
        requires
            self.inv(),
            pos.x < self.spec_size().x,
            pos.y < self.spec_size().y,
        ensures
            r.inv(),
            r.spec_size() == self.spec_size(),
            r.terrain() == self.terrain().update(
                pos.y * self.spec_size().x + pos.x,
                tile_type,
            ),
    {
        let mut this = self;
        let index = get_index(pos.x, pos.y, this.size);
        this.tiles[index] = tile_type;
        this
    }

    /// Finalize: an immutable-terrain tile map with empty occupancy.
    pub fn build(self) -> (r: TileMap)
        requires
            self.inv(),
        ensures
            r.inv(),
            r.spec_size() == self.spec_size(),
            r.terrain() == self.terrain(),
            r.occupants() == Map::<usize, usize>::empty(),
    {
        TileMap::from_parts(self.size, self.tiles)
    }
}

} // verus!
