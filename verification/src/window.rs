use vstd::prelude::*;
use crate::point::Point;

verus! {

/// The description of the game window: its title, its grid of tiles, and
/// the pixel size of a tile; the pixel size of the window follows. The
/// windowing backend that opens and runs it lives outside this library.
pub struct GliumWindow {
    pub title: &'static str,
    pub tiles: Point,
    pub tile_size: Point,
    pub size: Point,
}

impl GliumWindow {
    /// A window of `tiles` tiles, each `tile_size` pixels: its pixel size
    /// is the product of the two.
    pub fn new(title: &'static str, tiles: Point, tile_size: Point) -> (r: GliumWindow)
        requires
            tiles.x * tile_size.x <= u32::MAX,
            tiles.y * tile_size.y <= u32::MAX,
        ensures
            r.title == title,
            r.tiles == tiles,
            r.tile_size == tile_size,
            r.size.x == tiles.x * tile_size.x,
            r.size.y == tiles.y * tile_size.y,
    {
        let size = Point { x: tiles.x * tile_size.x, y: tiles.y * tile_size.y };
        GliumWindow { title, tiles, tile_size, size }
    }

    /// The default window: 80 × 60 tiles of 10 × 10 pixels.
    pub fn default_size(title: &'static str) -> (r: GliumWindow)
        ensures
            r.title == title,
            r.tiles == (Point { x: 80, y: 60 }),
            r.tile_size == (Point { x: 10, y: 10 }),
            r.size == (Point { x: 800, y: 600 }),
    {
        GliumWindow::new(title, Point { x: 80, y: 60 }, Point { x: 10, y: 10 })
    }
}

} // verus!
