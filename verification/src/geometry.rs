//! Coordinate spaces: discrete tiles, sub-tile world units and screen pixels.
//!
//! Game rules reason about tiles; mobs move through world units, a fixed
//! multiple of a tile; drawing uses screen pixels.

use vstd::prelude::*;

verus! {

/// World units per screen pixel.
pub const SCALE: i32 = 32;

/// World units per tile, horizontally.
pub const TILE_WIDTH: i32 = 224;

/// World units per tile, vertically.
pub const TILE_HEIGHT: i32 = 224;

/// Largest magnitude of a tile coordinate whose world coordinate fits in `i32`.
pub const MAX_TILE_COORD: i32 = 9_586_980;

/// A point with mathematical integer coordinates: the model of a tile point
/// and of a world point.
pub struct Point {
    pub x: int,
    pub y: int,
}

/// The world position of a tile's origin.
pub open spec fn world_of(tile: Point) -> Point {
    Point { x: tile.x * TILE_WIDTH as int, y: tile.y * TILE_HEIGHT as int }
}

/// The tile that contains a world position; the quotient is floored, so that
/// positions left of or above the origin fall into tiles with negative
/// coordinates.
pub open spec fn tile_of(world: Point) -> Point {
    Point { x: world.x / TILE_WIDTH as int, y: world.y / TILE_HEIGHT as int }
}

/// Division that rounds toward zero.
pub open spec fn trunc_div(a: int, b: int) -> int {
    if a >= 0 {
        a / b
    } else {
        -((-a) / b)
    }
}

/// The pixel under a world position.
pub open spec fn screen_of(world: Point) -> Point {
    Point { x: trunc_div(world.x, SCALE as int), y: trunc_div(world.y, SCALE as int) }
}

/// The neighbour of a tile, one step away in a direction.
pub open spec fn neighbor(tile: Point, dir: Direction) -> Point {
    Point { x: tile.x + dir.delta_spec().0, y: tile.y + dir.delta_spec().1 }
}

/// The distance between two points when only orthogonal steps count.
pub open spec fn manhattan(a: Point, b: Point) -> int {
    (if a.x >= b.x { a.x - b.x } else { b.x - a.x })
        + (if a.y >= b.y { a.y - b.y } else { b.y - a.y })
}

/// Whether both coordinates of a tile have a world coordinate within `i32`.
pub open spec fn tile_in_range(tile: Point) -> bool {
    &&& -(MAX_TILE_COORD as int) <= tile.x <= MAX_TILE_COORD as int
    &&& -(MAX_TILE_COORD as int) <= tile.y <= MAX_TILE_COORD as int
}

/// One of the four orthogonal headings.
#[derive(Clone, Copy, Debug, PartialEq, Eq, Structural)]
pub enum Direction {
    Up,
    Down,
    Left,
    Right,
}

impl Direction {
    /// The tile offset of one step in this direction; rows grow downwards.
    pub open spec fn delta_spec(self) -> (int, int) {
        match self {
            Direction::Up => (0, -1),
            Direction::Down => (0, 1),
            Direction::Left => (-1, 0),
            Direction::Right => (1, 0),
        }
    }

    /// The tile offset of one step in this direction.
    pub fn delta(self) -> (d: (i32, i32))
        ensures
            d.0 == self.delta_spec().0,
            d.1 == self.delta_spec().1,
    {
        match self {
            Direction::Up => (0, -1),
            Direction::Down => (0, 1),
            Direction::Left => (-1, 0),
            Direction::Right => (1, 0),
        }
    }
}

/// One sample of the player's controls.
#[derive(Clone, Copy, Debug, PartialEq, Eq, Structural)]
pub struct Input {
    pub left: bool,
    pub right: bool,
    pub up: bool,
    pub down: bool,
    pub button1: bool,
    pub button2: bool,
}

impl Input {
    /// The sample with nothing pressed.
    pub open spec fn idle() -> Input {
        Input { left: false, right: false, up: false, down: false, button1: false, button2: false }
    }

    /// The direction that the sample asks for, if any: left before right
    /// before up before down.
    pub open spec fn direction(self) -> Option<Direction> {
        if self.left {
            Some(Direction::Left)
        } else if self.right {
            Some(Direction::Right)
        } else if self.up {
            Some(Direction::Up)
        } else if self.down {
            Some(Direction::Down)
        } else {
            None
        }
    }

    /// The direction that the sample asks for, if any.
    pub fn pressed(&self) -> (d: Option<Direction>)
        ensures
            d == self.direction(),
    {
        if self.left {
            Some(Direction::Left)
        } else if self.right {
            Some(Direction::Right)
        } else if self.up {
            Some(Direction::Up)
        } else if self.down {
            Some(Direction::Down)
        } else {
            None
        }
    }
}

impl Default for Input {
    fn default() -> (input: Input)
        ensures
            input == Input::idle(),
    {
        Input { left: false, right: false, up: false, down: false, button1: false, button2: false }
    }
}

/// Floor division by a positive divisor.
pub fn floor_div(a: i32, b: i32) -> (q: i32)
    requires
        b > 0,
    ensures
        q == a as int / b as int,
{
    if a >= 0 {
        a / b
    } else {
        let m: i32 = -(a + 1);
        let k: i32 = m / b;
        proof {
            let r: int = b - 1 - (m as int % b as int);
            vstd::arithmetic::div_mod::lemma_fundamental_div_mod(m as int, b as int);
            assert(a as int == (-(k as int) - 1) * b + r) by (nonlinear_arith)
                requires
                    m as int == b * (k as int) + (m as int % b as int),
                    m as int == -(a as int + 1),
                    r == b - 1 - (m as int % b as int),
            ;
            vstd::arithmetic::div_mod::lemma_fundamental_div_mod_converse(
                a as int,
                b as int,
                -(k as int) - 1,
                r,
            );
        }
        -k - 1
    }
}

/// A position in screen pixels.
#[derive(Clone, Copy, Debug, PartialEq, Eq, Structural)]
pub struct ScreenPoint {
    pub sx: i32,
    pub sy: i32,
}

impl View for ScreenPoint {
    type V = Point;

    open spec fn view(&self) -> Point {
        Point { x: self.sx as int, y: self.sy as int }
    }
}

impl ScreenPoint {
    pub fn new(sx: i32, sy: i32) -> (p: ScreenPoint)
        ensures
            p.sx == sx,
            p.sy == sy,
    {
        ScreenPoint { sx, sy }
    }

    /// The pixel coordinates as a pair.
    pub fn pixels(&self) -> (p: (i32, i32))
        ensures
            p.0 == self.sx,
            p.1 == self.sy,
    {
        (self.sx, self.sy)
    }
}

/// A position in world units, finer than a tile: mobs move a fraction of a
/// tile per tick.
#[derive(Clone, Copy, Debug, PartialEq, Eq, Structural)]
pub struct WorldPoint {
    pub x: i32,
    pub y: i32,
}

impl View for WorldPoint {
    type V = Point;

    open spec fn view(&self) -> Point {
        Point { x: self.x as int, y: self.y as int }
    }
}

impl WorldPoint {
    pub fn new(x: i32, y: i32) -> (p: WorldPoint)
        ensures
            p.x == x,
            p.y == y,
    {
        WorldPoint { x, y }
    }

    /// The pixel under this position.
    pub fn to_screen(&self) -> (p: ScreenPoint)
        ensures
            p@ == screen_of(self@),
    {
        ScreenPoint::new(self.x / SCALE, self.y / SCALE)
    }

    /// The tile that contains this position.
    pub fn to_tile(&self) -> (t: TilePoint)
        ensures
            t@ == tile_of(self@),
    {
        TilePoint::new(floor_div(self.x, TILE_WIDTH), floor_div(self.y, TILE_HEIGHT))
    }

    /// This position moved by an offset.
    pub fn translate(&self, dx: i32, dy: i32) -> (p: WorldPoint)
        requires
            i32::MIN <= self.x + dx <= i32::MAX,
            i32::MIN <= self.y + dy <= i32::MAX,
        ensures
            p@ == (Point { x: self.x + dx, y: self.y + dy }),
    {
        WorldPoint::new(self.x + dx, self.y + dy)
    }
}

/// A discrete grid coordinate: column `tx`, row `ty`.
#[derive(Clone, Copy, Debug, PartialEq, Eq, Structural)]
pub struct TilePoint {
    pub tx: i32,
    pub ty: i32,
}

impl View for TilePoint {
    type V = Point;

    open spec fn view(&self) -> Point {
        Point { x: self.tx as int, y: self.ty as int }
    }
}

impl TilePoint {
    pub fn new(tx: i32, ty: i32) -> (t: TilePoint)
        ensures
            t.tx == tx,
            t.ty == ty,
    {
        TilePoint { tx, ty }
    }

    /// The Manhattan distance to another tile.
    pub fn manhattan_dist(&self, other: &TilePoint) -> (d: i32)
        requires
            manhattan(self@, other@) <= i32::MAX,
        ensures
            d == manhattan(self@, other@),
    {
        let dx: i64 = self.tx as i64 - other.tx as i64;
        let dy: i64 = self.ty as i64 - other.ty as i64;
        let ax: i64 = if dx >= 0 { dx } else { -dx };
        let ay: i64 = if dy >= 0 { dy } else { -dy };
        (ax + ay) as i32
    }

    /// The world position of this tile's origin.
    pub fn to_world(&self) -> (p: WorldPoint)
        requires
            tile_in_range(self@),
        ensures
            p@ == world_of(self@),
    {
        WorldPoint::new(self.tx * TILE_WIDTH, self.ty * TILE_HEIGHT)
    }

    /// This tile moved by an offset.
    pub fn translate(&self, dx: i32, dy: i32) -> (t: TilePoint)
        requires
            i32::MIN <= self.tx + dx <= i32::MAX,
            i32::MIN <= self.ty + dy <= i32::MAX,
        ensures
            t@ == (Point { x: self.tx + dx, y: self.ty + dy }),
    {
        TilePoint::new(self.tx + dx, self.ty + dy)
    }

    /// The neighbouring tile in a direction.
    pub fn step(&self, dir: Direction) -> (t: TilePoint)
        requires
            i32::MIN < self.tx < i32::MAX,
            i32::MIN < self.ty < i32::MAX,
        ensures
            t@ == neighbor(self@, dir),
    {
        let (dx, dy) = dir.delta();
        self.translate(dx, dy)
    }
}

/// Converting a tile to world units and back gives the same tile, also for
/// negative coordinates.
pub proof fn tile_world_round_trip(tile: Point)
    ensures
        tile_of(world_of(tile)) == tile,
{
}

/// A world position lies inside the tile that contains it: at or after the
/// tile's origin, and less than one tile away from it on each axis.
pub proof fn world_position_within_its_tile(world: Point)
    ensures
        world_of(tile_of(world)).x <= world.x < world_of(tile_of(world)).x + TILE_WIDTH,
        world_of(tile_of(world)).y <= world.y < world_of(tile_of(world)).y + TILE_HEIGHT,
{
}

} // verus!
