use rusted_arena::body::Body;
use rusted_arena::map::builder::TileMapBuilder;
use rusted_arena::map::TileMap;
use rusted_arena::movement::{add_entity_to_map, move_body};
use rusted_arena::point::{xy, Point};
use rusted_arena::tile::{Direction, TileType};

fn size() -> Point {
    xy(3, 3)
}

fn entity() -> usize {
    42
}

fn assert_simple(map: &mut TileMap) {
    assert_eq!(map.get_entity(0), Some(&entity()));
    for i in 1..9 {
        assert_eq!(map.get_entity(i), None);
    }
}

fn assert_big(map: &mut TileMap) {
    assert_eq!(map.get_entity(0), None);
    assert_eq!(map.get_entity(1), None);
    assert_eq!(map.get_entity(2), None);
    assert_eq!(map.get_entity(3), None);
    assert_eq!(map.get_entity(4), Some(&entity()));
    assert_eq!(map.get_entity(5), Some(&entity()));
    assert_eq!(map.get_entity(6), None);
    assert_eq!(map.get_entity(7), Some(&entity()));
    assert_eq!(map.get_entity(8), Some(&entity()));
}

fn assert_snake(map: &mut TileMap) {
    assert_eq!(map.get_entity(0), None);
    assert_eq!(map.get_entity(1), Some(&entity()));
    assert_eq!(map.get_entity(2), None);
    assert_eq!(map.get_entity(3), None);
    assert_eq!(map.get_entity(4), Some(&entity()));
    assert_eq!(map.get_entity(5), None);
    assert_eq!(map.get_entity(6), None);
    assert_eq!(map.get_entity(7), Some(&entity()));
    assert_eq!(map.get_entity(8), None);
}

#[test]
fn test_add_entity_to_map_simple() {
    let mut map = TileMapBuilder::new(size(), TileType::Floor).build();
    add_entity_to_map(&mut map, &Body::Simple(0), entity());

    assert_simple(&mut map)
}

#[test]
fn test_add_entity_to_map_big() {
    let mut map = TileMapBuilder::new(size(), TileType::Floor).build();
    add_entity_to_map(&mut map, &Body::Big(4, 2), entity());

    assert_big(&mut map);
}

#[test]
fn test_add_entity_to_map_sanke() {
    let mut map = TileMapBuilder::new(size(), TileType::Floor).build();
    add_entity_to_map(&mut map, &Body::Snake(vec![1, 4, 7]), entity());

    assert_snake(&mut map);
}

#[test]
fn test_move_body_simple() {
    let mut map = TileMapBuilder::new(size(), TileType::Floor).build();
    let mut body = Body::Simple(1);

    add_entity_to_map(&mut map, &body, entity());

    assert_eq!(move_body(&mut map, entity(), &mut body, Direction::West), true);
    assert_eq!(body, Body::Simple(0));
    assert_simple(&mut map);
}

#[test]
fn test_move_body_simple_blocked() {
    let mut map = TileMapBuilder::new(size(), TileType::Floor).build();
    let mut body = Body::Simple(0);

    add_entity_to_map(&mut map, &body, entity());

    assert_eq!(move_body(&mut map, entity(), &mut body, Direction::West), false);
    assert_eq!(body, Body::Simple(0));
    assert_simple(&mut map);
}

#[test]
fn test_move_body_big() {
    let mut map = TileMapBuilder::new(size(), TileType::Floor).build();
    let mut body = Body::Big(1, 2);

    add_entity_to_map(&mut map, &body, entity());

    assert_eq!(move_body(&mut map, entity(), &mut body, Direction::North), true);
    assert_eq!(body, Body::Big(4, 2));
    assert_big(&mut map);
}

#[test]
fn test_move_body_big_blocked() {
    let mut map = TileMapBuilder::new(size(), TileType::Floor).build();
    let mut body = Body::Big(4, 2);

    add_entity_to_map(&mut map, &body, entity());

    assert_eq!(move_body(&mut map, entity(), &mut body, Direction::North), false);
    assert_eq!(body, Body::Big(4, 2));
    assert_big(&mut map);
}

#[test]
fn test_move_body_snake() {
    let mut map = TileMapBuilder::new(size(), TileType::Floor).build();
    let mut body = Body::Snake(vec![4, 7, 8]);

    add_entity_to_map(&mut map, &body, entity());

    assert_eq!(move_body(&mut map, entity(), &mut body, Direction::South), true);
    assert_eq!(body, Body::Snake(vec![1, 4, 7]));
    assert_snake(&mut map);
}

#[test]
fn test_move_body_snake_blocked() {
    let mut map = TileMapBuilder::new(size(), TileType::Floor).build();
    let mut body = Body::Snake(vec![1, 4, 7]);

    add_entity_to_map(&mut map, &body, entity());

    assert_eq!(move_body(&mut map, entity(), &mut body, Direction::South), false);
    assert_eq!(body, Body::Snake(vec![1, 4, 7]));
    assert_snake(&mut map);
}

#[test]
fn test_move_body_simple_blocked_by_other() {
    let mut map = TileMapBuilder::new(size(), TileType::Floor).build();
    let mut body = Body::Simple(1);

    add_entity_to_map(&mut map, &body, entity());
    map.add_entity(0, 7);

    assert_eq!(move_body(&mut map, entity(), &mut body, Direction::West), false);
    assert_eq!(body, Body::Simple(1));
    assert_eq!(map.get_entity(0), Some(&7));
    assert_eq!(map.get_entity(1), Some(&entity()));
}

#[test]
fn test_move_body_simple_blocked_by_wall() {
    let mut map = TileMapBuilder::new(size(), TileType::Floor)
        .set_tile(xy(0, 0), TileType::Wall)
        .build();
    let mut body = Body::Simple(1);

    add_entity_to_map(&mut map, &body, entity());

    assert_eq!(move_body(&mut map, entity(), &mut body, Direction::West), false);
    assert_eq!(body, Body::Simple(1));
    assert_eq!(map.get_entity(0), None);
    assert_eq!(map.get_entity(1), Some(&entity()));
}

#[test]
fn test_move_body_snake_overlapping_tail() {
    let mut map = TileMapBuilder::new(size(), TileType::Floor).build();
    add_entity_to_map(&mut map, &Body::Snake(vec![4, 7]), entity());
    let mut body = Body::Snake(vec![4, 7, 7]);

    assert_eq!(move_body(&mut map, entity(), &mut body, Direction::South), true);
    assert_eq!(body, Body::Snake(vec![1, 4, 7]));
    assert_eq!(map.get_entity(1), Some(&entity()));
    assert_eq!(map.get_entity(4), Some(&entity()));
    assert_eq!(map.get_entity(7), Some(&entity()));
}
