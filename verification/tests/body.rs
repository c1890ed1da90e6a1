use rusted_arena::body::{get_position, update_position, Body};
use rusted_arena::ecs::component::Component;

#[test]
fn body_test_get_component_type() {
    assert_eq!(Body::get_component_type(), "Body");
}

#[test]
fn test_get_position_simple() {
    assert_eq!(get_position(&Body::Simple(3)), 3);
}

#[test]
fn test_get_position_big() {
    assert_eq!(get_position(&Body::Big(4, 6)), 4);
}

#[test]
fn test_get_position_snake() {
    assert_eq!(get_position(&Body::Snake(vec![1, 2, 3, 4])), 1);
}

#[test]
fn test_update_position_simple() {
    let mut body = Body::Simple(3);
    update_position(&mut body, 4);

    assert_eq!(body, Body::Simple(4));
}

#[test]
fn test_update_position_big() {
    let mut body = Body::Big(3, 4);
    update_position(&mut body, 5);

    assert_eq!(body, Body::Big(5, 4));
}

#[test]
fn test_update_position_snake() {
    let mut body = Body::Snake(vec![3, 4, 5]);
    update_position(&mut body, 2);

    assert_eq!(body, Body::Snake(vec![2, 3, 4]));
}
