use vstd::prelude::*;
use std::collections::HashMap;
use crate::point::{get_index, get_point, Point};
use crate::tile::{Direction, TileType};

pub mod builder;

verus! {

/// The tile map: a fixed rectangular terrain grid plus the mutable occupancy
/// relation, a partial mapping from cell index to the single entity currently
/// occupying that cell.
///
/// Cells are addressed by their row-major index `y * width + x`.
pub struct TileMap {
    size: Point,
    tiles: Vec<TileType>,
    entities: HashMap<usize, usize>,
}

impl TileMap {
    /// The size of the grid.
    pub closed spec fn spec_size(self) -> Point {
        self.size
    }

    /// The terrain grid, in row-major order.
    pub closed spec fn terrain(self) -> Seq<TileType> {
        self.tiles@
    }

    /// The occupancy relation: which entity holds which cell.
    pub closed spec fn occupants(self) -> Map<usize, usize> {
        self.entities@
    }

    pub open spec fn width(self) -> int {
        self.spec_size().x as int
    }

    pub open spec fn height(self) -> int {
        self.spec_size().y as int
    }

    /// The number of cells of the grid.
    pub open spec fn area(self) -> int {
        self.width() * self.height()
    }

    /// Well-formedness: the grid is non-degenerate, cell indices fit in
    /// `u32`, the terrain covers the whole grid, and every occupied cell
    /// lies on the grid.
    pub open spec fn inv(self) -> bool {
        &&& 1 <= self.width()
        &&& 1 <= self.height()
        &&& self.area() <= u32::MAX
        &&& self.terrain().len() == self.area()
        &&& forall|k: usize| #[trigger] self.occupants().contains_key(k) ==> k < self.area()
    }

    /// The x-coordinate of the cell index `index`.
    pub open spec fn col(self, index: int) -> int {
        index % self.width()
    }

    /// The y-coordinate of the cell index `index`.
    pub open spec fn row(self, index: int) -> int {
        index / self.width()
    }

    /// The cell index of the position `(x, y)`.
    pub open spec fn cell(self, x: int, y: int) -> int {
        y * self.width() + x
    }

    /// The cell reached from `index` by the offset `(dx, dy)`, or `None` if
    /// it falls outside the grid.
    pub open spec fn spec_offset(self, index: int, dx: int, dy: int) -> Option<usize> {
        let x = self.col(index) + dx;
        let y = self.row(index) + dy;
        if 0 <= x < self.width() && 0 <= y < self.height() {
            Some(self.cell(x, y) as usize)
        } else {
            None
        }
    }

    /// `entity` is recorded as the occupant of the cell `index`.
    pub open spec fn occupies(self, index: usize, entity: usize) -> bool {
        &&& self.occupants().contains_key(index)
        &&& self.occupants()[index] == entity
    }

    /// The cell `index` is available to `entity`: it is walkable and is
    /// either unoccupied or already held by `entity` itself.
    pub open spec fn spec_is_free(self, index: usize, entity: usize) -> bool {
        &&& self.terrain()[index as int] is Floor
        &&& (self.occupants().contains_key(index) ==> self.occupants()[index] == entity)
    }

    /// The square of side `s` anchored at the position of `index` stays
    /// inside the grid.
    pub open spec fn square_fits(self, index: int, s: int) -> bool {
        &&& self.col(index) + s <= self.width()
        &&& self.row(index) + s <= self.height()
    }

    /// The cell `k` lies in the square of side `s` anchored at the position
    /// of `index`.
    pub open spec fn in_square(self, k: int, index: int, s: int) -> bool {
        &&& self.col(index) <= self.col(k) < self.col(index) + s
        &&& self.row(index) <= self.row(k) < self.row(index) + s
    }

    /// The cells of that square already walked after `cols` full columns
    /// and `rows` cells of the following column.
    pub open spec fn in_partial_square(self, k: int, index: int, s: int, cols: int, rows: int) -> bool {
        let px = self.col(index);
        let py = self.row(index);
        ||| (px <= self.col(k) < px + cols && py <= self.row(k) < py + s)
        ||| (self.col(k) == px + cols && py <= self.row(k) < py + rows)
    }

    /// The square of side `s` anchored at the position of `index` lies
    /// inside the grid and every cell of it is available to `entity`.
    pub open spec fn spec_square_free(self, index: int, s: int, entity: usize) -> bool {
        &&& self.square_fits(index, s)
        &&& forall|k: usize| self.in_square(k as int, index, s) ==> self.spec_is_free(k, entity)
    }

    /// The cell index of the position `(x, y)`, as it is addressed on the
    /// grid.
    pub open spec fn cell_index(self, x: int, y: int) -> usize {
        (y * self.width() + x) as usize
    }

    /// On a well-formed grid, the cell index of an on-grid position has that
    /// position's coordinates, and lies on the grid.
    pub proof fn lemma_cell_coords(self, x: int, y: int)
        requires
            self.inv(),
            0 <= x < self.width(),
            0 <= y < self.height(),
        ensures
            self.cell_index(x, y) == y * self.width() + x,
            self.col(self.cell_index(x, y) as int) == x,
            self.row(self.cell_index(x, y) as int) == y,
            self.cell_index(x, y) < self.area(),
    {
        crate::point::lemma_index_in_area(x, y, self.spec_size());
        vstd::arithmetic::div_mod::lemma_fundamental_div_mod_converse(
            y * self.width() + x,
            self.width(),
            y,
            x,
        );
    }

    /// On a well-formed grid, a cell index in a fitting square is the cell
    /// index of its own coordinates, and lies on the grid.
    pub proof fn lemma_square_cell_on_grid(self, k: usize, index: int, s: int)
        requires
            self.inv(),
            self.square_fits(index, s),
            self.in_square(k as int, index, s),
            0 <= index,
        ensures
            k == self.cell_index(self.col(k as int), self.row(k as int)),
            k < self.area(),
    {
        vstd::arithmetic::div_mod::lemma_fundamental_div_mod(k as int, self.width());
        vstd::arithmetic::div_mod::lemma_mod_bound(k as int, self.width());
        vstd::arithmetic::div_mod::lemma_div_pos_is_pos(k as int, self.width());
        self.lemma_cell_coords(self.col(k as int), self.row(k as int));
    }

    /// Assemble a map from a terrain grid, with empty occupancy.
    pub(crate) fn from_parts(size: Point, tiles: Vec<TileType>) -> (r: TileMap)
        requires
            1 <= size.x,
            1 <= size.y,
            size.x * size.y <= u32::MAX,
            tiles@.len() == size.x * size.y,
        ensures
            r.inv(),
            r.spec_size() == size,
            r.terrain() == tiles@,
            r.occupants() == Map::<usize, usize>::empty(),
    {
        broadcast use vstd::std_specs::hash::group_hash_axioms;

        TileMap { size, tiles, entities: HashMap::new() }
    }

    /// The size of the grid.
    pub fn get_size(&self) -> (r: Point)
        ensures
            r == self.spec_size(),
    {
        self.size
    }

    /// The terrain of the cell `index`.
    pub fn get_tile(&self, index: usize) -> (r: TileType)
        requires
            self.inv(),
            index < self.area(),
        ensures
            r == self.terrain()[index as int],
    {
        self.tiles[index]
    }

    /// The cell one step from `index` in the direction `dir`, or `None` if
    /// that step leaves the grid.
    pub fn get_neighbor(&self, index: usize, dir: Direction) -> (r: Option<usize>)
        requires
            self.inv(),
            index < self.area(),
        ensures
            r == self.spec_offset(index as int, dir.dx(), dir.dy()),
    {
        match dir {
            Direction::North => self.get_with_offset(index, 0, 1),
            Direction::East => self.get_with_offset(index, 1, 0),
            Direction::South => self.get_with_offset(index, 0, -1),
            Direction::West => self.get_with_offset(index, -1, 0),
        }
    }

    /// The cell reached from `index` by the offset `(delta_x, delta_y)`, or
    /// `None` if it falls outside the grid.
    pub fn get_with_offset(&self, index: usize, delta_x: i32, delta_y: i32) -> (r: Option<usize>)
        requires
            self.inv(),
            index < self.area(),
        ensures
            r == self.spec_offset(index as int, delta_x as int, delta_y as int),
    {
        let pos = get_point(index, self.size);
        let x = pos.x as i64 + delta_x as i64;
        let y = pos.y as i64 + delta_y as i64;

        if x < 0 || x >= self.size.x as i64 || y < 0 || y >= self.size.y as i64 {
            return None;
        }

        Some(get_index(x as u32, y as u32, self.size))
    }

    /// Whether the cell `index` is available to `entity`: walkable and not
    /// held by a different entity.
    pub fn is_free(&self, index: usize, entity: usize) -> (r: bool)
        requires
            self.inv(),
            index < self.area(),
        ensures
            r == self.spec_is_free(index, entity),
    {
        broadcast use vstd::std_specs::hash::group_hash_axioms;

        if !self.tiles[index].is_walkable() {
            return false;
        }

        match self.entities.get(&index) {
            None => true,
            Some(e) => *e == entity,
        }
    }

    /// Whether every cell of the `size` × `size` square anchored at `index`
    /// is available to `entity`; `false` if the square would extend past
    /// the grid.
    pub fn is_square_free(&self, index: usize, size: u32, entity: usize) -> (r: bool)
        requires
            self.inv(),
            index < self.area(),
        ensures
            r == self.spec_square_free(index as int, size as int, entity),
    {
        let pos = get_point(index, self.size);

        if size > self.size.x || pos.x > self.size.x - size || size > self.size.y || pos.y
            > self.size.y - size {
            return false;
        }

        let ghost px = pos.x as int;
        let ghost py = pos.y as int;
        let mut dx: u32 = 0;

        while dx < size
            invariant
                self.inv(),
                index < self.area(),
                0 <= dx <= size,
                px == self.col(index as int),
                py == self.row(index as int),
                pos.x as int == px,
                pos.y as int == py,
                self.square_fits(index as int, size as int),
                pos.x + size <= self.size.x,
                pos.y + size <= self.size.y,
                forall|x: int, y: int|
                    px <= x < px + dx && py <= y < py + size ==> self.spec_is_free(
                        #[trigger] self.cell_index(x, y),
                        entity,
                    ),
            decreases size - dx,
        {
            let mut dy: u32 = 0;

            while dy < size
                invariant
                    self.inv(),
                    index < self.area(),
                    0 <= dx < size,
                    0 <= dy <= size,
                    px == self.col(index as int),
                    py == self.row(index as int),
                    pos.x as int == px,
                    pos.y as int == py,
                    self.square_fits(index as int, size as int),
                    pos.x + size <= self.size.x,
                    pos.y + size <= self.size.y,
                    forall|x: int, y: int|
                        px <= x < px + dx && py <= y < py + size ==> self.spec_is_free(
                            #[trigger] self.cell_index(x, y),
                            entity,
                        ),
                    forall|y: int|
                        py <= y < py + dy ==> self.spec_is_free(
                            #[trigger] self.cell_index(px + dx, y),
                            entity,
                        ),
                decreases size - dy,
            {
                let x = pos.x + dx;
                let y = pos.y + dy;
                proof {
                    self.lemma_cell_coords(x as int, y as int);
                }
                if !self.is_free(get_index(x, y, self.size), entity) {
                    proof {
                        let k = self.cell_index(x as int, y as int);
                        assert(self.in_square(k as int, index as int, size as int));
                        assert(!self.spec_square_free(index as int, size as int, entity));
                    }
                    return false;
                }
                dy = dy + 1;
            }
            dx = dx + 1;
        }

        proof {
            assert forall|k: usize| self.in_square(k as int, index as int, size as int) implies self
                .spec_is_free(k, entity) by {
                self.lemma_square_cell_on_grid(k, index as int, size as int);
            }
        }
        true
    }

    /// The entity currently occupying the cell `index`, if any.
    pub fn get_entity(&mut self, index: usize) -> (r: Option<&usize>)
        requires
            old(self).inv(),
            index < old(self).area(),
        ensures
            *final(self) == *old(self),
            match r {
                Some(e) => old(self).occupies(index, *e),
                None => !old(self).occupants().contains_key(index),
            },
    {
        broadcast use vstd::std_specs::hash::group_hash_axioms;

        self.entities.get(&index)
    }

    /// Record `entity` as the occupant of the unoccupied cell `index`.
    pub fn add_entity(&mut self, index: usize, entity: usize) -> (r: bool)
        requires
            old(self).inv(),
            index < old(self).area(),
            !old(self).occupants().contains_key(index),
        ensures
            r == true,
            final(self).inv(),
            final(self).spec_size() == old(self).spec_size(),
            final(self).terrain() == old(self).terrain(),
            final(self).occupants() == old(self).occupants().insert(index, entity),
    {
        broadcast use vstd::std_specs::hash::group_hash_axioms;

        self.entities.insert(index, entity);
        true
    }

    /// Drop the record of `entity` occupying the cell `index`.
    pub fn remove_entity(&mut self, index: usize, entity: usize) -> (r: bool)
        requires
            old(self).inv(),
            old(self).occupies(index, entity),
        ensures
            r == true,
            final(self).inv(),
            final(self).spec_size() == old(self).spec_size(),
            final(self).terrain() == old(self).terrain(),
            final(self).occupants() == old(self).occupants().remove(index),
    {
        broadcast use vstd::std_specs::hash::group_hash_axioms;

        self.entities.remove(&index);
        true
    }
}

impl TileMap {
    /// Record `entity` as the occupant of every cell of the `size` × `size`
    /// square anchored at `index`. Returns `false`, changing nothing, if
    /// the square would extend past the grid.
    pub fn add_entity_to_square(&mut self, index: usize, size: u32, entity: usize) -> (r: bool)
        requires
            old(self).inv(),
            index < old(self).area(),
            old(self).square_fits(index as int, size as int) ==> forall|k: usize|
                old(self).in_square(k as int, index as int, size as int) ==> !old(self).occupants().contains_key(k),
        ensures
            final(self).inv(),
            final(self).spec_size() == old(self).spec_size(),
            final(self).terrain() == old(self).terrain(),
            r == old(self).square_fits(index as int, size as int),
            !r ==> final(self).occupants() == old(self).occupants(),
            r ==> forall|k: usize|
                #[trigger] old(self).in_square(k as int, index as int, size as int) ==> final(self).occupies(k, entity),
            forall|k: usize|
                !(#[trigger] old(self).in_square(k as int, index as int, size as int)) ==> (final(self).occupants().contains_key(k) == old(self).occupants().contains_key(k) && (old(self).occupants().contains_key(k) ==> final(self).occupants()[k] == old(self).occupants()[k])),
    {
        let pos = get_point(index, self.size);

        if size > self.size.x || pos.x > self.size.x - size || size > self.size.y || pos.y
            > self.size.y - size {
            return false;
        }

        let ghost px = pos.x as int;
        let ghost py = pos.y as int;
        let mut dx: u32 = 0;

        while dx < size
            invariant
                old(self).inv(),
                self.inv(),
                self.spec_size() == old(self).spec_size(),
                self.terrain() == old(self).terrain(),
                index < old(self).area(),
                0 <= dx <= size,
                px == old(self).col(index as int),
                py == old(self).row(index as int),
                pos.x as int == px,
                pos.y as int == py,
                old(self).square_fits(index as int, size as int),
                pos.x + size <= old(self).spec_size().x,
                pos.y + size <= old(self).spec_size().y,
                forall|k: usize|
                    old(self).in_square(k as int, index as int, size as int) ==> !old(self).occupants().contains_key(k),
                forall|k: usize|
                    old(self).in_partial_square(k as int, index as int, size as int, dx as int, 0)
                        ==> #[trigger] self.occupies(k, entity),
                forall|k: usize|
                    !old(self).in_partial_square(k as int, index as int, size as int, dx as int, 0)
                        ==> (#[trigger] self.occupants().contains_key(k) == old(self).occupants().contains_key(k) && (old(self).occupants().contains_key(k)
                        ==> self.occupants()[k] == old(self).occupants()[k])),
            decreases size - dx,
        {
            let mut dy: u32 = 0;

            while dy < size
                invariant
                    old(self).inv(),
                    self.inv(),
                    self.spec_size() == old(self).spec_size(),
                    self.terrain() == old(self).terrain(),
                    index < old(self).area(),
                    0 <= dx < size,
                    0 <= dy <= size,
                    px == old(self).col(index as int),
                    py == old(self).row(index as int),
                    pos.x as int == px,
                    pos.y as int == py,
                    old(self).square_fits(index as int, size as int),
                    pos.x + size <= old(self).spec_size().x,
                    pos.y + size <= old(self).spec_size().y,
                    forall|k: usize|
                        old(self).in_square(k as int, index as int, size as int) ==> !old(self).occupants().contains_key(k),
                    forall|k: usize|
                        old(self).in_partial_square(
                            k as int,
                            index as int,
                            size as int,
                            dx as int,
                            dy as int,
                        ) ==> #[trigger] self.occupies(k, entity),
                    forall|k: usize|
                        !old(self).in_partial_square(
                            k as int,
                            index as int,
                            size as int,
                            dx as int,
                            dy as int,
                        ) ==> (#[trigger] self.occupants().contains_key(k) == old(self).occupants().contains_key(k) && (old(self).occupants().contains_key(k)
                            ==> self.occupants()[k] == old(self).occupants()[k])),
                decreases size - dy,
            {
                let x = pos.x + dx;
                let y = pos.y + dy;
                proof {
                    old(self).lemma_cell_coords(x as int, y as int);
                }
                let cell = get_index(x, y, self.size);
                proof {
                    assert(old(self).in_square(cell as int, index as int, size as int));
                    assert(!old(self).in_partial_square(
                        cell as int,
                        index as int,
                        size as int,
                        dx as int,
                        dy as int,
                    ));
                    assert(!self.occupants().contains_key(cell));
                }
                let ghost prev = *self;
                self.add_entity(cell, entity);
                proof {
                    assert(self.occupants() == prev.occupants().insert(cell, entity));
                    assert forall|k: usize|
                        old(self).in_partial_square(
                            k as int,
                            index as int,
                            size as int,
                            dx as int,
                            dy + 1 as int,
                        ) implies #[trigger] self.occupies(k, entity) by {
                        if k != cell {
                            lemma_index_of_coords(*old(self), k, cell, px + dx, py + dy);
                            assert(old(self).in_partial_square(
                                k as int,
                                index as int,
                                size as int,
                                dx as int,
                                dy as int,
                            ));
                            assert(prev.occupies(k, entity));
                        }
                    }
                    assert forall|k: usize|
                        !old(self).in_partial_square(
                            k as int,
                            index as int,
                            size as int,
                            dx as int,
                            dy + 1 as int,
                        ) implies (#[trigger] self.occupants().contains_key(k) == old(self).occupants().contains_key(k) && (old(self).occupants().contains_key(k)
                        ==> self.occupants()[k] == old(self).occupants()[k])) by {
                        assert(!old(self).in_partial_square(
                            k as int,
                            index as int,
                            size as int,
                            dx as int,
                            dy as int,
                        ));
                        assert(k != cell);
                    }
                }
                dy = dy + 1;
            }
            proof {
                assert forall|k: usize|
                    old(self).in_partial_square(
                        k as int,
                        index as int,
                        size as int,
                        dx + 1 as int,
                        0,
                    ) implies old(self).in_partial_square(
                    k as int,
                    index as int,
                    size as int,
                    dx as int,
                    size as int,
                ) by {}
            }
            dx = dx + 1;
        }

        true
    }

    /// Drop the record of `entity` occupying every cell of the `size` ×
    /// `size` square anchored at `index`. Returns `false`, changing
    /// nothing, if the square would extend past the grid.
    pub fn remove_entity_from_square(&mut self, index: usize, size: u32, entity: usize) -> (r:
        bool)
        requires
            old(self).inv(),
            index < old(self).area(),
            old(self).square_fits(index as int, size as int) ==> forall|k: usize|
                old(self).in_square(k as int, index as int, size as int) ==> old(self).occupies(
                    k,
                    entity,
                ),
        ensures
            final(self).inv(),
            final(self).spec_size() == old(self).spec_size(),
            final(self).terrain() == old(self).terrain(),
            r == old(self).square_fits(index as int, size as int),
            !r ==> final(self).occupants() == old(self).occupants(),
            r ==> forall|k: usize|
                #[trigger] old(self).in_square(k as int, index as int, size as int) ==> !final(self).occupants().contains_key(k),
            forall|k: usize|
                !(#[trigger] old(self).in_square(k as int, index as int, size as int)) ==> (final(self).occupants().contains_key(k) == old(self).occupants().contains_key(k) && (old(self).occupants().contains_key(k) ==> final(self).occupants()[k] == old(self).occupants()[k])),
    {
        let pos = get_point(index, self.size);

        if size > self.size.x || pos.x > self.size.x - size || size > self.size.y || pos.y
            > self.size.y - size {
            return false;
        }

        let ghost px = pos.x as int;
        let ghost py = pos.y as int;
        let mut dx: u32 = 0;

        while dx < size
            invariant
                old(self).inv(),
                self.inv(),
                self.spec_size() == old(self).spec_size(),
                self.terrain() == old(self).terrain(),
                index < old(self).area(),
                0 <= dx <= size,
                px == old(self).col(index as int),
                py == old(self).row(index as int),
                pos.x as int == px,
                pos.y as int == py,
                old(self).square_fits(index as int, size as int),
                pos.x + size <= old(self).spec_size().x,
                pos.y + size <= old(self).spec_size().y,
                forall|k: usize|
                    old(self).in_square(k as int, index as int, size as int) ==> old(self).occupies(
                        k,
                        entity,
                    ),
                forall|k: usize|
                    old(self).in_partial_square(k as int, index as int, size as int, dx as int, 0)
                        ==> !(#[trigger] self.occupants().contains_key(k)),
                forall|k: usize|
                    !old(self).in_partial_square(k as int, index as int, size as int, dx as int, 0)
                        ==> (#[trigger] self.occupants().contains_key(k) == old(self).occupants().contains_key(k) && (old(self).occupants().contains_key(k)
                        ==> self.occupants()[k] == old(self).occupants()[k])),
            decreases size - dx,
        {
            let mut dy: u32 = 0;

            while dy < size
                invariant
                    old(self).inv(),
                    self.inv(),
                    self.spec_size() == old(self).spec_size(),
                    self.terrain() == old(self).terrain(),
                    index < old(self).area(),
                    0 <= dx < size,
                    0 <= dy <= size,
                    px == old(self).col(index as int),
                    py == old(self).row(index as int),
                    pos.x as int == px,
                    pos.y as int == py,
                    old(self).square_fits(index as int, size as int),
                    pos.x + size <= old(self).spec_size().x,
                    pos.y + size <= old(self).spec_size().y,
                    forall|k: usize|
                        old(self).in_square(k as int, index as int, size as int) ==> old(self).occupies(k, entity),
                    forall|k: usize|
                        old(self).in_partial_square(
                            k as int,
                            index as int,
                            size as int,
                            dx as int,
                            dy as int,
                        ) ==> !(#[trigger] self.occupants().contains_key(k)),
                    forall|k: usize|
                        !old(self).in_partial_square(
                            k as int,
                            index as int,
                            size as int,
                            dx as int,
                            dy as int,
                        ) ==> (#[trigger] self.occupants().contains_key(k) == old(self).occupants().contains_key(k) && (old(self).occupants().contains_key(k)
                            ==> self.occupants()[k] == old(self).occupants()[k])),
                decreases size - dy,
            {
                let x = pos.x + dx;
                let y = pos.y + dy;
                proof {
                    old(self).lemma_cell_coords(x as int, y as int);
                }
                let cell = get_index(x, y, self.size);
                proof {
                    assert(old(self).in_square(cell as int, index as int, size as int));
                    assert(!old(self).in_partial_square(
                        cell as int,
                        index as int,
                        size as int,
                        dx as int,
                        dy as int,
                    ));
                    assert(old(self).occupies(cell, entity));
                    assert(self.occupies(cell, entity));
                }
                let ghost prev = *self;
                self.remove_entity(cell, entity);
                proof {
                    assert(self.occupants() == prev.occupants().remove(cell));
                    assert forall|k: usize|
                        old(self).in_partial_square(
                            k as int,
                            index as int,
                            size as int,
                            dx as int,
                            dy + 1 as int,
                        ) implies !(#[trigger] self.occupants().contains_key(k)) by {
                        if k != cell {
                            lemma_index_of_coords(*old(self), k, cell, px + dx, py + dy);
                            assert(old(self).in_partial_square(
                                k as int,
                                index as int,
                                size as int,
                                dx as int,
                                dy as int,
                            ));
                            assert(!prev.occupants().contains_key(k));
                        }
                    }
                    assert forall|k: usize|
                        !old(self).in_partial_square(
                            k as int,
                            index as int,
                            size as int,
                            dx as int,
                            dy + 1 as int,
                        ) implies (#[trigger] self.occupants().contains_key(k) == old(self).occupants().contains_key(k) && (old(self).occupants().contains_key(k)
                        ==> self.occupants()[k] == old(self).occupants()[k])) by {
                        assert(!old(self).in_partial_square(
                            k as int,
                            index as int,
                            size as int,
                            dx as int,
                            dy as int,
                        ));
                        assert(k != cell);
                        assert(prev.occupants().contains_key(k) == old(self).occupants(
                        ).contains_key(k));
                    }
                }
                dy = dy + 1;
            }
            proof {
                assert forall|k: usize|
                    old(self).in_partial_square(
                        k as int,
                        index as int,
                        size as int,
                        dx + 1 as int,
                        0,
                    ) implies old(self).in_partial_square(
                    k as int,
                    index as int,
                    size as int,
                    dx as int,
                    size as int,
                ) by {}
            }
            dx = dx + 1;
        }

        true
    }
}

/// Two cell indices with the same coordinates are the same index: the
/// row-major encoding of a position is unique.
pub proof fn lemma_index_of_coords(m: TileMap, k: usize, cell: usize, cx: int, cy: int)
    requires
        m.inv(),
        cell == cy * m.width() + cx,
    ensures
        m.col(k as int) == cx && m.row(k as int) == cy ==> k == cell,
{
    if m.col(k as int) == cx && m.row(k as int) == cy {
        vstd::arithmetic::div_mod::lemma_fundamental_div_mod(k as int, m.width());
        let w = m.width();
        assert(k as int == cell as int) by (nonlinear_arith)
            requires
                k as int == w * (k as int / w) + k as int % w,
                k as int / w == cy,
                k as int % w == cx,
                cell == cy * w + cx,
        ;
    }
}

/// A square that would extend past the grid is never free, whatever the
/// occupancy relation holds.
pub proof fn lemma_square_bounds(m: TileMap, index: int, s: int, entity: usize)
    requires
        !m.square_fits(index, s),
    ensures
        !m.spec_square_free(index, s, entity),
{
}

/// A cell of the occupancy relation names at most one entity: a cell held
/// for one entity is held for no other.
pub proof fn lemma_occupancy_exclusive(m: TileMap, index: usize, e1: usize, e2: usize)
    requires
        m.occupies(index, e1),
        m.occupies(index, e2),
    ensures
        e1 == e2,
{
}

} // verus!
