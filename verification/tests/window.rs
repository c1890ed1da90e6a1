use rusted_arena::point::{xy, Point};
use rusted_arena::window::GliumWindow;

#[test]
fn test_new_computes_pixel_size() {
    let window = GliumWindow::new("Map Example", xy(40, 30), xy(20, 20));

    assert_eq!(window.title, "Map Example");
    assert_eq!(window.tiles, xy(40, 30));
    assert_eq!(window.tile_size, xy(20, 20));
    assert_eq!(window.size, Point { x: 800, y: 600 });
}

#[test]
fn test_default_size() {
    let window = GliumWindow::default_size("Example");

    assert_eq!(window.title, "Example");
    assert_eq!(window.tiles, xy(80, 60));
    assert_eq!(window.tile_size, xy(10, 10));
    assert_eq!(window.size, Point { x: 800, y: 600 });
}
