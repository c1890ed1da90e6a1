use rusted_arena::map::builder::TileMapBuilder;
use rusted_arena::map::TileMap;
use rusted_arena::point::{xy, Point};
use rusted_arena::tile::TileType;

fn size() -> Point {
    xy(4, 3)
}

fn free_results() -> [bool; 12] {
    [true, true, true, false, true, true, true, false, false, false, false, false]
}

fn blocked_results() -> [bool; 12] {
    [false, false, true, false, false, false, true, false, false, false, false, false]
}

fn assert_is_square_free(map: &TileMap, entity: usize, results: [bool; 12]) {
    for (i, result) in results.iter().enumerate() {
        assert_eq!(map.is_square_free(i, 2, entity), *result);
    }
}

#[test]
fn test_is_walkable() {
    assert_eq!(TileType::Floor.is_walkable(), true);
    assert_eq!(TileType::Wall.is_walkable(), false);
}

#[test]
fn test_is_free() {
    let map = TileMapBuilder::new(size(), TileType::Floor)
        .set_tile(xy(0, 0), TileType::Wall)
        .build();

    for i in 0..12 {
        assert_eq!(map.is_free(i, 0), i != 0);
    }
}

#[test]
fn test_is_free_with_occupied_map() {
    let mut map = TileMapBuilder::new(xy(1, 1), TileType::Floor).build();
    map.add_entity(0, 0);

    assert_eq!(map.is_free(0, 0), true);
    assert_eq!(map.is_free(0, 1), false);
    assert_eq!(map.is_free(0, 2), false);
}

#[test]
fn test_is_square_free() {
    let map = TileMapBuilder::new(size(), TileType::Floor).build();

    assert_is_square_free(&map, 0, free_results());
}

#[test]
fn test_is_square_free_with_wall() {
    let map = TileMapBuilder::new(size(), TileType::Floor)
        .set_tile(xy(1, 1), TileType::Wall)
        .build();

    assert_is_square_free(&map, 0, blocked_results());
}

#[test]
fn test_is_square_free_with_occupied_map() {
    let mut map = TileMapBuilder::new(size(), TileType::Floor).build();
    map.add_entity(5, 0);

    assert_is_square_free(&map, 0, free_results());
    assert_is_square_free(&map, 1, blocked_results());
}

#[test]
fn test_is_square_free_too_large() {
    let map = TileMapBuilder::new(size(), TileType::Floor).build();

    assert_eq!(map.is_square_free(0, 4, 0), false);
    assert_eq!(map.is_square_free(0, 5, 0), false);
}

#[test]
fn test_add_entity() {
    let mut map = TileMapBuilder::new(size(), TileType::Floor).build();

    map.add_entity(5, 42);

    assert_eq!(map.get_entity(0), None);
    assert_eq!(map.get_entity(5), Some(&42));
}

#[test]
fn test_remove_entity() {
    let mut map = TileMapBuilder::new(size(), TileType::Floor).build();

    map.add_entity(5, 10);
    map.remove_entity(5, 10);
    map.add_entity(5, 20);

    assert_eq!(map.get_entity(5), Some(&20));
}

#[test]
fn test_add_entity_to_square() {
    let mut map = TileMapBuilder::new(size(), TileType::Floor).build();

    map.add_entity_to_square(5, 2, 9);

    assert_eq!(map.get_entity(0), None);
    assert_eq!(map.get_entity(1), None);
    assert_eq!(map.get_entity(2), None);
    assert_eq!(map.get_entity(3), None);
    assert_eq!(map.get_entity(4), None);
    assert_eq!(map.get_entity(5), Some(&9));
    assert_eq!(map.get_entity(6), Some(&9));
    assert_eq!(map.get_entity(7), None);
    assert_eq!(map.get_entity(8), None);
    assert_eq!(map.get_entity(9), Some(&9));
    assert_eq!(map.get_entity(10), Some(&9));
    assert_eq!(map.get_entity(11), None);
}

#[test]
fn test_remove_entity_from_square() {
    let mut map = TileMapBuilder::new(size(), TileType::Floor).build();

    map.add_entity_to_square(5, 2, 9);
    map.remove_entity_from_square(5, 2, 9);

    for i in 0..12 {
        assert_eq!(map.get_entity(i), None);
    }
}

#[test]
fn test_get_neighbor() {
    let map = TileMapBuilder::new(size(), TileType::Floor).build();

    assert_eq!(map.get_neighbor(5, rusted_arena::tile::Direction::North), Some(9));
    assert_eq!(map.get_neighbor(5, rusted_arena::tile::Direction::East), Some(6));
    assert_eq!(map.get_neighbor(5, rusted_arena::tile::Direction::South), Some(1));
    assert_eq!(map.get_neighbor(5, rusted_arena::tile::Direction::West), Some(4));
    assert_eq!(map.get_neighbor(0, rusted_arena::tile::Direction::West), None);
    assert_eq!(map.get_neighbor(0, rusted_arena::tile::Direction::South), None);
    assert_eq!(map.get_neighbor(11, rusted_arena::tile::Direction::East), None);
    assert_eq!(map.get_neighbor(11, rusted_arena::tile::Direction::North), None);
}

#[test]
fn test_get_with_offset() {
    let map = TileMapBuilder::new(size(), TileType::Floor).build();

    assert_eq!(map.get_with_offset(0, 2, 1), Some(6));
    assert_eq!(map.get_with_offset(6, -2, -1), Some(0));
    assert_eq!(map.get_with_offset(6, 2, 0), None);
    assert_eq!(map.get_with_offset(6, 0, 2), None);
}

#[test]
fn test_get_size() {
    let map = TileMapBuilder::new(size(), TileType::Floor).build();

    assert_eq!(map.get_size(), xy(4, 3));
}

#[test]
fn test_add_border() {
    let map = TileMapBuilder::new(size(), TileType::Floor)
        .add_border(TileType::Wall)
        .build();

    for i in 0..12 {
        assert_eq!(map.is_free(i, 0), i == 5 || i == 6);
    }
}

#[test]
fn test_add_rectangle() {
    let map = TileMapBuilder::new(xy(5, 5), TileType::Floor)
        .add_rectangle(xy(1, 1), xy(3, 3), TileType::Wall)
        .build();

    for x in 0..5usize {
        for y in 0..5usize {
            let i = y * 5 + x;
            let on_ring = (1..=3).contains(&x) && (1..=3).contains(&y) && !(x == 2 && y == 2);
            assert_eq!(map.is_free(i, 0), !on_ring);
        }
    }
}
