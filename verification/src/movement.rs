use vstd::prelude::*;
use crate::body::{
    same_shape, spec_moved_positions, spec_position, spec_positions, update_position, Body,
};
use crate::map::TileMap;
use crate::tile::Direction;

verus! {

/// A body is well-formed on a map: it names at least one cell, every cell
/// lies on the grid, and a square footprint fits the grid.
pub open spec fn body_wf(m: TileMap, body: Body) -> bool {
    &&& spec_positions(body).len() >= 1
    &&& forall|j: int|
        0 <= j < spec_positions(body).len() ==> #[trigger] spec_positions(body)[j] < m.area()
    &&& (body matches Body::Big(index, s) ==> 1 <= s && m.square_fits(index as int, s as int))
}

/// The body stands on the cell `k`.
pub open spec fn covers(m: TileMap, body: Body, k: usize) -> bool {
    match body {
        Body::Simple(index) => k == index,
        Body::Big(index, s) => m.in_square(k as int, index as int, s as int),
        Body::Snake(indices) => indices@.contains(k),
    }
}

/// The cells the body's shape would stand on once re-anchored at `anchor`:
/// the shifted cell or square, or the new head plus all but the old tail of
/// the chain.
pub open spec fn covers_moved(m: TileMap, body: Body, anchor: usize, k: usize) -> bool {
    match body {
        Body::Simple(_) => k == anchor,
        Body::Big(_, s) => m.in_square(k as int, anchor as int, s as int),
        Body::Snake(indices) => k == anchor || indices@.drop_last().contains(k),
    }
}

/// The occupancy relation records `entity` on exactly the cells its body
/// stands on.
pub open spec fn placed(m: TileMap, body: Body, entity: usize) -> bool {
    &&& forall|k: usize| #[trigger] covers(m, body, k) ==> m.occupies(k, entity)
    &&& forall|k: usize| #[trigger] m.occupies(k, entity) ==> covers(m, body, k)
}

/// The cell one step from the body's anchor in the direction `dir`.
pub open spec fn candidate_cell(m: TileMap, body: Body, dir: Direction) -> Option<usize> {
    m.spec_offset(spec_position(body) as int, dir.dx(), dir.dy())
}

/// The requested step stays on the grid and its destination is available to
/// `entity`: the free cell for a single tile or a snake's head, the free
/// square for a square footprint.
pub open spec fn move_allowed(m: TileMap, body: Body, entity: usize, dir: Direction) -> bool {
    match candidate_cell(m, body, dir) {
        None => false,
        Some(c) => match body {
            Body::Big(_, s) => m.spec_square_free(c as int, s as int, entity),
            _ => m.spec_is_free(c, entity),
        },
    }
}

/// For a snake, a step onto a cell the snake itself still occupies is in
/// order only when that cell is the tail and the tail is not duplicated
/// elsewhere in the chain: only then is it freed before the head arrives.
pub open spec fn snake_step_ok(m: TileMap, body: Body, entity: usize, dir: Direction) -> bool {
    (body matches Body::Snake(indices) && move_allowed(m, body, entity, dir)) ==> {
        let c = candidate_cell(m, body, dir)->Some_0;
        let v = spec_positions(body);
        ||| !v.contains(c)
        ||| (c == v.last() && (forall|j: int| 0 <= j < v.len() - 1 ==> v[j] != v.last()))
    }
}

/// A cell reached by an in-grid offset lies on the grid.
proof fn lemma_offset_on_grid(m: TileMap, index: int, dx: int, dy: int)
    requires
        m.inv(),
        m.spec_offset(index, dx, dy) is Some,
    ensures
        m.spec_offset(index, dx, dy)->Some_0 < m.area(),
        m.spec_offset(index, dx, dy)->Some_0 == m.cell(m.col(index) + dx, m.row(index) + dy),
        m.col(m.spec_offset(index, dx, dy)->Some_0 as int) == m.col(index) + dx,
        m.row(m.spec_offset(index, dx, dy)->Some_0 as int) == m.row(index) + dy,
{
    let x = m.col(index) + dx;
    let y = m.row(index) + dy;
    crate::point::lemma_index_in_area(x, y, m.spec_size());
    vstd::arithmetic::div_mod::lemma_fundamental_div_mod_converse(m.cell(x, y), m.width(), y, x);
}

/// Put a body that is not yet on the map onto the map: record `entity` on
/// every cell the body stands on.
#[verifier::loop_isolation(false)]
pub fn add_entity_to_map(map: &mut TileMap, body: &Body, entity: usize)
    requires
        old(map).inv(),
        body_wf(*old(map), *body),
        forall|k: usize| #[trigger]
            covers(*old(map), *body, k) ==> !old(map).occupants().contains_key(k),
        forall|k: usize| !(#[trigger] old(map).occupies(k, entity)),
        body matches Body::Snake(indices) ==> indices@.no_duplicates(),
    ensures
        final(map).inv(),
        final(map).spec_size() == old(map).spec_size(),
        final(map).terrain() == old(map).terrain(),
        placed(*final(map), *body, entity),
        forall|k: usize|
            !covers(*old(map), *body, k) ==> #[trigger] final(map).occupants().contains_key(k)
                == old(map).occupants().contains_key(k),
        forall|k: usize|
            !covers(*old(map), *body, k) && old(map).occupants().contains_key(k) ==> #[trigger] final(map).occupants()[k] == old(map).occupants()[k],
{
    match body {
        Body::Simple(index) => {
            proof {
                assert(spec_positions(*body)[0] < old(map).area());
                assert(covers(*old(map), *body, *index));
            }
            map.add_entity(*index, entity);
            proof {
                assert forall|k: usize| #[trigger] covers(*map, *body, k) implies map.occupies(
                    k,
                    entity,
                ) by {}
                assert forall|k: usize| #[trigger] map.occupies(k, entity) implies covers(
                    *map,
                    *body,
                    k,
                ) by {
                    if k != *index {
                        assert(old(map).occupies(k, entity));
                    }
                }
                assert forall|k: usize| !covers(*old(map), *body, k) implies
                    #[trigger] map.occupants().contains_key(k) == old(map).occupants(
                ).contains_key(k) by {
                    assert(k != *index);
                }
                assert forall|k: usize|
                    !covers(*old(map), *body, k) && old(map).occupants().contains_key(
                        k,
                    ) implies #[trigger] map.occupants()[k] == old(map).occupants()[k] by {
                    assert(k != *index);
                }
            }
        },
        Body::Big(index, size) => {
            proof {
                assert(spec_positions(*body)[0] < old(map).area());
                assert forall|k: usize|
                    old(map).in_square(k as int, *index as int, *size as int) implies !old(map).occupants().contains_key(k) by {
                    assert(covers(*old(map), *body, k));
                }
            }
            map.add_entity_to_square(*index, *size, entity);
            proof {
                assert forall|k: usize| #[trigger] covers(*map, *body, k) implies map.occupies(
                    k,
                    entity,
                ) by {
                    assert(old(map).in_square(k as int, *index as int, *size as int));
                }
                assert forall|k: usize| #[trigger] map.occupies(k, entity) implies covers(
                    *map,
                    *body,
                    k,
                ) by {
                    if !old(map).in_square(k as int, *index as int, *size as int) {
                        assert(map.occupants().contains_key(k) == old(map).occupants(
                        ).contains_key(k));
                        assert(old(map).occupies(k, entity));
                    }
                }
                assert forall|k: usize| !covers(*old(map), *body, k) implies
                    #[trigger] map.occupants().contains_key(k) == old(map).occupants(
                ).contains_key(k) by {
                    assert(!old(map).in_square(k as int, *index as int, *size as int));
                }
                assert forall|k: usize|
                    !covers(*old(map), *body, k) && old(map).occupants().contains_key(
                        k,
                    ) implies #[trigger] map.occupants()[k] == old(map).occupants()[k] by {
                    assert(!old(map).in_square(k as int, *index as int, *size as int));
                }
            }
        },
        Body::Snake(indices) => {
            let ghost v = indices@;
            let mut j: usize = 0;

            while j < indices.len()
                invariant
                    map.inv(),
                    map.spec_size() == old(map).spec_size(),
                    map.terrain() == old(map).terrain(),
                    0 <= j <= v.len(),
                    forall|k: usize|
                        v.take(j as int).contains(k) ==> #[trigger] map.occupies(k, entity),
                    forall|k: usize|
                        !v.take(j as int).contains(k) ==> (#[trigger] map.occupants().contains_key(
                            k,
                        ) == old(map).occupants().contains_key(k) && (old(map).occupants().contains_key(k) ==> map.occupants()[k] == old(map).occupants()[k])),
                decreases v.len() - j,
            {
                let cell = indices[j];
                proof {
                    assert(spec_positions(*body)[j as int] < old(map).area());
                    assert(covers(*old(map), *body, cell));
                    assert(!v.take(j as int).contains(cell)) by {
                        if v.take(j as int).contains(cell) {
                            let t = choose|t: int|
                                0 <= t < j && #[trigger] v.take(j as int)[t] == cell;
                            assert(v[t] == v[j as int]);
                        }
                    }
                    assert(!map.occupants().contains_key(cell));
                }
                let ghost prev = *map;
                map.add_entity(cell, entity);
                proof {
                    assert forall|k: usize|
                        v.take(j + 1 as int).contains(k) implies #[trigger] map.occupies(
                        k,
                        entity,
                    ) by {
                        let t = choose|t: int| 0 <= t < j + 1 && #[trigger] v.take(
                            j + 1 as int,
                        )[t] == k;
                        if t < j {
                            assert(v.take(j as int)[t] == k);
                            assert(v.take(j as int).contains(k));
                            assert(prev.occupies(k, entity));
                        } else {
                            assert(k == cell);
                        }
                    }
                    assert forall|k: usize|
                        !v.take(j + 1 as int).contains(k) implies (
                    #[trigger] map.occupants().contains_key(k) == old(map).occupants().contains_key(k) && (old(map).occupants().contains_key(k)
                        ==> map.occupants()[k] == old(map).occupants()[k])) by {
                        assert(v.take(j + 1 as int)[j as int] == cell);
                        assert(k != cell);
                        assert forall|t: int| 0 <= t < j implies #[trigger] v.take(j as int)[t]
                            != k by {
                            assert(v.take(j + 1 as int)[t] == v.take(j as int)[t]);
                        }
                        assert(!v.take(j as int).contains(k));
                        assert(prev.occupants().contains_key(k) == old(map).occupants().contains_key(k));
                    }
                }
                j = j + 1;
            }

            proof {
                assert(v.take(v.len() as int) =~= v);
                assert forall|k: usize| #[trigger] covers(*map, *body, k) implies map.occupies(
                    k,
                    entity,
                ) by {}
                assert forall|k: usize| #[trigger] map.occupies(k, entity) implies covers(
                    *map,
                    *body,
                    k,
                ) by {
                    if !v.contains(k) {
                        assert(!v.take(v.len() as int).contains(k));
                        assert(old(map).occupies(k, entity));
                    }
                }
                assert forall|k: usize| !covers(*old(map), *body, k) implies
                    #[trigger] map.occupants().contains_key(k) == old(map).occupants(
                ).contains_key(k) by {
                    assert(!v.contains(k));
                    assert(!v.take(v.len() as int).contains(k));
                }
                assert forall|k: usize|
                    !covers(*old(map), *body, k) && old(map).occupants().contains_key(
                        k,
                    ) implies #[trigger] map.occupants()[k] == old(map).occupants()[k] by {
                    assert(!v.contains(k));
                    assert(!v.take(v.len() as int).contains(k));
                    assert(map.occupants().contains_key(k) == old(map).occupants().contains_key(
                        k,
                    ));
                }
            }
        },
    }
}

/// Prepending a head to a chain: the result holds exactly the head and the
/// chain's cells.
pub proof fn lemma_cons_contains(head: usize, rest: Seq<usize>, k: usize)
    ensures
        seq![head].add(rest).contains(k) <==> (k == head || rest.contains(k)),
{
    let s = seq![head].add(rest);
    if k == head {
        assert(s[0] == k);
    }
    if rest.contains(k) {
        let t = choose|t: int| 0 <= t < rest.len() && rest[t] == k;
        assert(s[t + 1] == k);
    }
    if s.contains(k) {
        let t = choose|t: int| 0 <= t < s.len() && s[t] == k;
        if t > 0 {
            assert(rest[t - 1] == k);
        }
    }
}

/// The validated destination of the requested step: the neighbor of the
/// body's anchor, if it lies on the grid and is available to `entity`.
fn get_new_position(map: &TileMap, entity: usize, body: &Body, dir: Direction) -> (r: Option<
    usize,
>)
    requires
        map.inv(),
        body_wf(*map, *body),
    ensures
        r == if move_allowed(*map, *body, entity, dir) {
            candidate_cell(*map, *body, dir)
        } else {
            None::<usize>
        },
{
    proof {
        assert(spec_positions(*body)[0] < map.area());
    }
    match body {
        Body::Simple(index) => {
            match map.get_neighbor(*index, dir) {
                Some(i) => {
                    proof {
                        lemma_offset_on_grid(*map, *index as int, dir.dx(), dir.dy());
                    }
                    if map.is_free(i, entity) {
                        Some(i)
                    } else {
                        None
                    }
                },
                None => None,
            }
        },
        Body::Big(index, size) => {
            match map.get_neighbor(*index, dir) {
                Some(i) => {
                    proof {
                        lemma_offset_on_grid(*map, *index as int, dir.dx(), dir.dy());
                    }
                    if map.is_square_free(i, *size, entity) {
                        Some(i)
                    } else {
                        None
                    }
                },
                None => None,
            }
        },
        Body::Snake(indices) => {
            match map.get_neighbor(indices[0], dir) {
                Some(i) => {
                    proof {
                        lemma_offset_on_grid(*map, indices@[0] as int, dir.dx(), dir.dy());
                    }
                    if map.is_free(i, entity) {
                        Some(i)
                    } else {
                        None
                    }
                },
                None => None,
            }
        },
    }
}

/// Perform the occupancy transition of a validated move: free the cells the
/// body leaves and record `entity` on the cells it enters.
#[verifier::loop_isolation(false)]
fn update_entity_on_map(map: &mut TileMap, body: &Body, index: usize, entity: usize)
    requires
        old(map).inv(),
        body_wf(*old(map), *body),
        placed(*old(map), *body, entity),
        index < old(map).area(),
        body matches Body::Big(_, s) ==> old(map).square_fits(index as int, s as int) && forall|
            k: usize,
        | #[trigger]
            old(map).in_square(k as int, index as int, s as int) ==> (old(
                map,
            ).occupants().contains_key(k) ==> old(map).occupants()[k] == entity),
        !(body matches Body::Big(_, _)) ==> (old(map).occupants().contains_key(index) ==> old(
            map,
        ).occupants()[index] == entity),
        body matches Body::Snake(_) && spec_positions(*body).contains(index) ==> index
            == spec_positions(*body).last() && (forall|j: int|
            0 <= j < spec_positions(*body).len() - 1 ==> spec_positions(*body)[j]
                != spec_positions(*body).last()),
    ensures
        final(map).inv(),
        final(map).spec_size() == old(map).spec_size(),
        final(map).terrain() == old(map).terrain(),
        forall|k: usize| #[trigger]
            covers_moved(*old(map), *body, index, k) ==> final(map).occupies(k, entity),
        forall|k: usize|
            covers(*old(map), *body, k) && !covers_moved(*old(map), *body, index, k) ==> !(
            #[trigger] final(map).occupants().contains_key(k)),
        forall|k: usize|
            !covers(*old(map), *body, k) && !covers_moved(*old(map), *body, index, k)
                ==> #[trigger] final(map).occupants().contains_key(k) == old(
                map,
            ).occupants().contains_key(k),
        forall|k: usize|
            !covers(*old(map), *body, k) && !covers_moved(*old(map), *body, index, k) && old(
                map,
            ).occupants().contains_key(k) ==> #[trigger] final(map).occupants()[k] == old(
                map,
            ).occupants()[k],
{
    match body {
        Body::Simple(old_index) => {
            proof {
                assert(covers(*old(map), *body, *old_index));
            }
            map.remove_entity(*old_index, entity);
            proof {
                if index != *old_index && map.occupants().contains_key(index) {
                    assert(old(map).occupies(index, entity));
                    assert(covers(*old(map), *body, index));
                }
            }
            map.add_entity(index, entity);
            proof {
                assert forall|k: usize|
                    covers(*old(map), *body, k) && !covers_moved(*old(map), *body, index, k)
                        implies !(#[trigger] map.occupants().contains_key(k)) by {
                    assert(k == *old_index && k != index);
                }
            }
        },
        Body::Big(old_index, size) => {
            proof {
                assert(spec_positions(*body)[0] < old(map).area());
                assert forall|k: usize| #[trigger]
                    old(map).in_square(k as int, *old_index as int, *size as int) implies old(
                    map,
                ).occupies(k, entity) by {
                    assert(covers(*old(map), *body, k));
                }
            }
            map.remove_entity_from_square(*old_index, *size, entity);
            let ghost mid = *map;
            proof {
                assert forall|k: usize| #[trigger]
                    mid.in_square(k as int, index as int, *size as int) implies !mid
                    .occupants().contains_key(k) by {
                    assert(old(map).in_square(k as int, index as int, *size as int));
                    if !old(map).in_square(k as int, *old_index as int, *size as int) {
                        assert(mid.occupants().contains_key(k) == old(
                            map,
                        ).occupants().contains_key(k));
                        if old(map).occupants().contains_key(k) {
                            assert(old(map).occupants()[k] == entity);
                            assert(old(map).occupies(k, entity));
                            assert(covers(*old(map), *body, k));
                        }
                    }
                }
                assert(mid.square_fits(index as int, *size as int));
            }
            map.add_entity_to_square(index, *size, entity);
            proof {
                assert forall|k: usize| #[trigger]
                    covers_moved(*old(map), *body, index, k) implies map.occupies(k, entity) by {
                    assert(old(map).in_square(k as int, index as int, *size as int));
                    assert(mid.in_square(k as int, index as int, *size as int));
                }
                assert forall|k: usize|
                    covers(*old(map), *body, k) && !covers_moved(*old(map), *body, index, k)
                        implies !(#[trigger] map.occupants().contains_key(k)) by {
                    assert(old(map).in_square(k as int, *old_index as int, *size as int));
                    assert(!old(map).in_square(k as int, index as int, *size as int));
                    assert(!mid.in_square(k as int, index as int, *size as int));
                    assert(!mid.occupants().contains_key(k));
                    assert(map.occupants().contains_key(k) == mid.occupants().contains_key(k));
                }
                assert forall|k: usize|
                    !covers(*old(map), *body, k) && !covers_moved(*old(map), *body, index, k)
                        implies #[trigger] map.occupants().contains_key(k) == old(
                    map,
                ).occupants().contains_key(k) by {
                    assert(!old(map).in_square(k as int, *old_index as int, *size as int));
                    assert(!old(map).in_square(k as int, index as int, *size as int));
                    assert(!mid.in_square(k as int, index as int, *size as int));
                    assert(mid.occupants().contains_key(k) == old(map).occupants().contains_key(
                        k,
                    ));
                    assert(map.occupants().contains_key(k) == mid.occupants().contains_key(k));
                }
                assert forall|k: usize|
                    !covers(*old(map), *body, k) && !covers_moved(*old(map), *body, index, k)
                        && old(map).occupants().contains_key(k) implies #[trigger] map.occupants(
                )[k] == old(map).occupants()[k] by {
                    assert(!old(map).in_square(k as int, *old_index as int, *size as int));
                    assert(!old(map).in_square(k as int, index as int, *size as int));
                    assert(!mid.in_square(k as int, index as int, *size as int));
                    assert(mid.occupants().contains_key(k) == old(map).occupants().contains_key(
                        k,
                    ));
                    assert(map.occupants().contains_key(k) == mid.occupants().contains_key(k));
                    assert(mid.occupants()[k] == old(map).occupants()[k]);
                    assert(map.occupants()[k] == mid.occupants()[k]);
                }
            }
        },
        Body::Snake(indices) => {
            let ghost v = indices@;
            let length = indices.len();
            let last = indices[length - 1];
            let mut duplicated = false;
            let mut j: usize = 0;

            while j < length - 1
                invariant
                    0 <= j <= length - 1,
                    duplicated == exists|t: int|
                        0 <= t < j && (#[trigger] v[t]) == v[length - 1],
                decreases length - 1 - j,
            {
                if indices[j] == last {
                    duplicated = true;
                    proof {
                        assert(v[j as int] == v[length - 1]);
                    }
                }
                j = j + 1;
            }

            proof {
                assert(covers(*old(map), *body, last));
                assert(old(map).occupies(last, entity));
            }
            if !duplicated {
                map.remove_entity(last, entity);
            }
            proof {
                if map.occupants().contains_key(index) {
                    assert(old(map).occupants().contains_key(index));
                    assert(old(map).occupants()[index] == entity);
                    assert(old(map).occupies(index, entity));
                    assert(covers(*old(map), *body, index));
                    assert(index == v.last());
                    if duplicated {
                        let t = choose|t: int| 0 <= t < length - 1 && (#[trigger] v[t]) == v[length
                            - 1];
                        assert(false);
                    } else {
                        assert(false);
                    }
                }
            }
            map.add_entity(index, entity);
            proof {
                assert forall|k: usize| #[trigger]
                    covers_moved(*old(map), *body, index, k) implies map.occupies(k, entity) by {
                    if k != index {
                        assert(v.drop_last().contains(k));
                        let t = choose|t: int|
                            0 <= t < v.drop_last().len() && v.drop_last()[t] == k;
                        assert(v[t] == k);
                        assert(covers(*old(map), *body, k));
                        assert(old(map).occupies(k, entity));
                        if !duplicated && k == last {
                            assert(v.drop_last()[t] == v[length - 1]);
                            assert(false);
                        }
                    }
                }
                assert forall|k: usize|
                    covers(*old(map), *body, k) && !covers_moved(*old(map), *body, index, k)
                        implies !(#[trigger] map.occupants().contains_key(k)) by {
                    let t = choose|t: int| 0 <= t < v.len() && v[t] == k;
                    if t < v.len() - 1 {
                        assert(v.drop_last()[t] == k);
                        assert(covers_moved(*old(map), *body, index, k));
                    }
                    assert(k == v.last());
                    if duplicated {
                        let u = choose|u: int| 0 <= u < length - 1 && (#[trigger] v[u]) == v[length
                            - 1];
                        assert(v.drop_last()[u] == k);
                        assert(covers_moved(*old(map), *body, index, k));
                    }
                }
                assert forall|k: usize|
                    !covers(*old(map), *body, k) && !covers_moved(*old(map), *body, index, k)
                        implies #[trigger] map.occupants().contains_key(k) == old(
                    map,
                ).occupants().contains_key(k) by {
                    assert(k != index);
                    assert(k != last);
                }
                assert forall|k: usize|
                    !covers(*old(map), *body, k) && !covers_moved(*old(map), *body, index, k)
                        && old(map).occupants().contains_key(k) implies #[trigger] map.occupants(
                )[k] == old(map).occupants()[k] by {
                    assert(k != index);
                    assert(k != last);
                    assert(map.occupants().contains_key(k) == old(map).occupants().contains_key(
                        k,
                    ));
                }
            }
        },
    }
}

/// Attempt to move a body one step in the direction `dir`: validate the
/// destination, and only if it is valid perform the occupancy transition
/// and update the body. Returns whether the move happened; on failure the
/// map and the body are unchanged.
pub fn move_body(map: &mut TileMap, entity: usize, body: &mut Body, dir: Direction) -> (r: bool)
    requires
        old(map).inv(),
        body_wf(*old(map), *old(body)),
        placed(*old(map), *old(body), entity),
        snake_step_ok(*old(map), *old(body), entity, dir),
    ensures
        final(map).inv(),
        final(map).spec_size() == old(map).spec_size(),
        final(map).terrain() == old(map).terrain(),
        r == move_allowed(*old(map), *old(body), entity, dir),
        !r ==> *final(body) == *old(body) && final(map).occupants() == old(map).occupants(),
        r ==> same_shape(*old(body), *final(body)),
        r ==> spec_positions(*final(body)) == spec_moved_positions(
            *old(body),
            candidate_cell(*old(map), *old(body), dir)->Some_0,
        ),
        r ==> body_wf(*final(map), *final(body)),
        r ==> placed(*final(map), *final(body), entity),
        r ==> forall|k: usize|
            covers(*old(map), *old(body), k) && !covers_moved(
                *old(map),
                *old(body),
                candidate_cell(*old(map), *old(body), dir)->Some_0,
                k,
            ) ==> !(#[trigger] final(map).occupants().contains_key(k)),
        r ==> forall|k: usize|
            !covers(*old(map), *old(body), k) && !covers_moved(
                *old(map),
                *old(body),
                candidate_cell(*old(map), *old(body), dir)->Some_0,
                k,
            ) ==> #[trigger] final(map).occupants().contains_key(k) == old(
                map,
            ).occupants().contains_key(k),
        r ==> forall|k: usize|
            !covers(*old(map), *old(body), k) && !covers_moved(
                *old(map),
                *old(body),
                candidate_cell(*old(map), *old(body), dir)->Some_0,
                k,
            ) && old(map).occupants().contains_key(k) ==> #[trigger] final(map).occupants()[k]
                == old(map).occupants()[k],
{
    match get_new_position(map, entity, body, dir) {
        None => false,
        Some(index) => {
            proof {
                lemma_offset_on_grid(
                    *old(map),
                    spec_position(*old(body)) as int,
                    dir.dx(),
                    dir.dy(),
                );
                match *old(body) {
                    Body::Big(_, s) => {
                        assert(old(map).spec_square_free(index as int, s as int, entity));
                        assert forall|k: usize| #[trigger]
                            old(map).in_square(k as int, index as int, s as int) implies (old(
                            map,
                        ).occupants().contains_key(k) ==> old(map).occupants()[k] == entity) by {
                            assert(old(map).spec_is_free(k, entity));
                        }
                    },
                    _ => {},
                }
            }
            update_entity_on_map(map, body, index, entity);
            let ghost mid_body = *body;
            update_position(body, index);
            proof {
                lemma_moved_covers(*old(map), *map, *old(body), *body, index);
                assert(spec_positions(*body).len() >= 1);
                assert forall|j: int|
                    0 <= j < spec_positions(*body).len() implies #[trigger] spec_positions(
                    *body,
                )[j] < map.area() by {
                    match *old(body) {
                        Body::Snake(v) => {
                            if j > 0 {
                                assert(spec_positions(*body)[j] == v@.drop_last()[j - 1]);
                                assert(v@.drop_last()[j - 1] == v@[j - 1]);
                                assert(spec_positions(*old(body))[j - 1] < old(map).area());
                            }
                        },
                        _ => {},
                    }
                }
                match *body {
                    Body::Big(i2, s2) => {
                        assert(spec_positions(*body)[0] == i2);
                        assert(i2 == index);
                        match *old(body) {
                            Body::Big(_, s0) => {
                                assert(s2 == s0);
                                assert(old(map).spec_square_free(index as int, s0 as int, entity));
                                assert(old(map).square_fits(index as int, s0 as int));
                                assert(map.square_fits(i2 as int, s2 as int));
                            },
                            _ => {
                                assert(false);
                            },
                        }
                    },
                    _ => {},
                }
                assert forall|k: usize| #[trigger] covers(*map, *body, k) implies map.occupies(
                    k,
                    entity,
                ) by {
                    assert(covers_moved(*old(map), *old(body), index, k));
                }
                assert forall|k: usize| #[trigger] map.occupies(k, entity) implies covers(
                    *map,
                    *body,
                    k,
                ) by {
                    if !covers_moved(*old(map), *old(body), index, k) {
                        if covers(*old(map), *old(body), k) {
                            assert(!map.occupants().contains_key(k));
                        } else {
                            assert(map.occupants().contains_key(k) == old(
                                map,
                            ).occupants().contains_key(k));
                            assert(map.occupants()[k] == old(map).occupants()[k]);
                            assert(old(map).occupies(k, entity));
                            assert(covers(*old(map), *old(body), k));
                        }
                    }
                }
            }
            true
        },
    }
}

/// Once the body's cells are re-anchored at `anchor`, the cells the new
/// body stands on are exactly the shape's cells at `anchor`.
proof fn lemma_moved_covers(m0: TileMap, m1: TileMap, body: Body, moved: Body, anchor: usize)
    requires
        m0.inv(),
        m1.inv(),
        m1.spec_size() == m0.spec_size(),
        spec_positions(body).len() >= 1,
        same_shape(body, moved),
        spec_positions(moved) == spec_moved_positions(body, anchor),
    ensures
        forall|k: usize| #[trigger]
            covers(m1, moved, k) == covers_moved(m0, body, anchor, k),
{
    assert forall|k: usize| #[trigger]
        covers(m1, moved, k) == covers_moved(m0, body, anchor, k) by {
        match body {
            Body::Simple(_) => {
                assert(spec_positions(moved) =~= seq![anchor]);
                match moved {
                    Body::Simple(i) => {
                        assert(spec_positions(moved)[0] == i);
                    },
                    _ => {
                        assert(false);
                    },
                }
            },
            Body::Big(_, s) => {
                match moved {
                    Body::Big(i, s2) => {
                        assert(spec_positions(moved)[0] == i);
                        assert(i == anchor && s2 == s);
                    },
                    _ => {
                        assert(false);
                    },
                }
            },
            Body::Snake(indices) => {
                match moved {
                    Body::Snake(w) => {
                        assert(w@ == seq![anchor].add(indices@.drop_last()));
                        lemma_cons_contains(anchor, indices@.drop_last(), k);
                    },
                    _ => {
                        assert(false);
                    },
                }
            },
        }
    }
}

/// Snake self-overlap: when the old tail's cell is duplicated by another
/// segment of the same snake, the snake still stands on that cell after the
/// move, so a successful move leaves the cell occupied by the snake.
pub proof fn lemma_snake_self_overlap(
    m0: TileMap,
    m1: TileMap,
    body: Body,
    anchor: usize,
    entity: usize,
    j: int,
)
    requires
        body is Snake,
        spec_positions(body).len() >= 1,
        0 <= j < spec_positions(body).len() - 1,
        spec_positions(body)[j] == spec_positions(body).last(),
        forall|k: usize| #[trigger] covers_moved(m0, body, anchor, k) ==> m1.occupies(k, entity),
    ensures
        covers_moved(m0, body, anchor, spec_positions(body).last()),
        m1.occupies(spec_positions(body).last(), entity),
{
    match body {
        Body::Snake(indices) => {
            assert(indices@.drop_last()[j] == indices@[j]);
            assert(indices@.drop_last().contains(indices@.last()));
        },
        _ => {
            assert(false);
        },
    }
}

} // verus!
