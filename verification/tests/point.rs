use rusted_arena::point::{get_index, get_point, xy, Point};

fn size() -> Point {
    Point { x: 2, y: 3 }
}

#[test]
fn test_get_index() {
    assert_eq!(get_index(0, 0, size()), 0);
    assert_eq!(get_index(1, 0, size()), 1);
    assert_eq!(get_index(0, 1, size()), 2);
    assert_eq!(get_index(1, 1, size()), 3);
    assert_eq!(get_index(0, 2, size()), 4);
    assert_eq!(get_index(1, 2, size()), 5);
}

#[test]
fn test_get_point() {
    assert_eq!(get_point(0, size()), xy(0, 0));
    assert_eq!(get_point(1, size()), xy(1, 0));
    assert_eq!(get_point(2, size()), xy(0, 1));
    assert_eq!(get_point(3, size()), xy(1, 1));
    assert_eq!(get_point(4, size()), xy(0, 2));
    assert_eq!(get_point(5, size()), xy(1, 2));
}

#[test]
fn test_get_area() {
    assert_eq!(xy(4, 3).get_area(), 12);
    assert_eq!(xy(1, 1).get_area(), 1);
}
