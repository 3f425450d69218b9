//! The walls around the play field: four rectangles hugging the map bounds.

use vstd::prelude::*;

use crate::conf;
use crate::geometry::Vec2;

verus! {

/// How thick a wall is drawn (10 pixels).
pub const WALL_THICKNESS: i64 = 10_000;

/// One wall: where its center sits and how large it is.
#[derive(Clone, Copy, PartialEq, Eq, Structural, Debug)]
pub struct Wall {
    pub center: Vec2,
    pub size: Vec2,
}

/// A wall running along the x axis, spanning the whole map.
pub open spec fn horizontal_size() -> Vec2 {
    Vec2 { x: (conf::MAP_SIZE + WALL_THICKNESS) as i64, y: WALL_THICKNESS }
}

/// A wall running along the y axis, spanning the whole map.
pub open spec fn vertical_size() -> Vec2 {
    Vec2 { x: WALL_THICKNESS, y: (conf::MAP_SIZE + WALL_THICKNESS) as i64 }
}

/// The walls around the play field: left, right, top and bottom, in this
/// order, all around the map bounds.
pub fn new() -> (r: Vec<Wall>)
    ensures
        r@.len() == 4,
        r@[0] == (Wall {
            center: Vec2 { x: 0, y: (conf::MAP_SIZE / 2) as i64 },
            size: vertical_size(),
        }),
        r@[1] == (Wall {
            center: Vec2 { x: conf::MAP_SIZE, y: (conf::MAP_SIZE / 2) as i64 },
            size: vertical_size(),
        }),
        r@[2] == (Wall {
            center: Vec2 { x: (conf::MAP_SIZE / 2) as i64, y: 0 },
            size: horizontal_size(),
        }),
        r@[3] == (Wall {
            center: Vec2 { x: (conf::MAP_SIZE / 2) as i64, y: conf::MAP_SIZE },
            size: horizontal_size(),
        }),
{
    let half = conf::MAP_SIZE / 2;
    let vertical = Vec2 { x: WALL_THICKNESS, y: conf::MAP_SIZE + WALL_THICKNESS };
    let horizontal = Vec2 { x: conf::MAP_SIZE + WALL_THICKNESS, y: WALL_THICKNESS };
    let mut walls: Vec<Wall> = Vec::new();
    walls.push(Wall { center: Vec2 { x: 0, y: half }, size: vertical });
    walls.push(Wall { center: Vec2 { x: conf::MAP_SIZE, y: half }, size: vertical });
    walls.push(Wall { center: Vec2 { x: half, y: 0 }, size: horizontal });
    walls.push(Wall { center: Vec2 { x: half, y: conf::MAP_SIZE }, size: horizontal });
    walls
}

} // verus!
