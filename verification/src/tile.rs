//! The classification of a grid cell.

use vstd::prelude::*;

verus! {

/// What a grid cell holds.
#[derive(Clone, Copy, Debug, PartialEq, Eq, Structural)]
pub enum Tile {
    /// A maze wall; nothing walks through it.
    Wall,
    /// A walkable cell with a pellet on it.
    Pellet,
    /// A walkable cell with a power pellet on it.
    PowerPellet,
    /// A walkable cell with nothing on it: always empty, or already collected.
    Empty,
    /// A walkable cell that sends a mob to the other side of the board.
    Teleport,
    /// A cell of the enemies' house; it looks empty and is not walkable.
    House,
}

/// The tile that a character of a board's text stands for.
pub open spec fn tile_of_code(c: char) -> Option<Tile> {
    if c == 'e' {
        Some(Tile::Empty)
    } else if c == '=' {
        Some(Tile::Pellet)
    } else if c == 'p' {
        Some(Tile::PowerPellet)
    } else if c == '#' {
        Some(Tile::Wall)
    } else if c == 'h' {
        Some(Tile::House)
    } else if c == 't' {
        Some(Tile::Teleport)
    } else {
        None
    }
}

impl Tile {
    /// Reads one character of a board's text; an unknown character comes back
    /// as the error.
    pub fn new_from_char(c: char) -> (r: Result<Tile, char>)
        ensures
            match r {
                Ok(t) => tile_of_code(c) == Some(t),
                Err(e) => tile_of_code(c) is None && e == c,
            },
    {
        match c {
            'e' => Ok(Tile::Empty),
            '=' => Ok(Tile::Pellet),
            'p' => Ok(Tile::PowerPellet),
            '#' => Ok(Tile::Wall),
            'h' => Ok(Tile::House),
            't' => Ok(Tile::Teleport),
            _ => Err(c),
        }
    }

    /// Whether a mob can stand on this tile.
    pub open spec fn is_walkable(self) -> bool {
        !(self is Wall || self is House)
    }

    /// Whether this tile still holds something to collect.
    pub open spec fn is_collectable(self) -> bool {
        self is Pellet || self is PowerPellet
    }

    /// This tile once whatever lay on it has been collected.
    pub open spec fn cleared(self) -> Tile {
        if self.is_collectable() {
            Tile::Empty
        } else {
            self
        }
    }

    /// Whether a mob can stand on this tile.
    #[verifier::when_used_as_spec(is_walkable)]
    pub fn walkable(self) -> (b: bool)
        ensures
            b == self.is_walkable(),
    {
        match self {
            Tile::House | Tile::Wall => false,
            Tile::Pellet | Tile::PowerPellet | Tile::Empty | Tile::Teleport => true,
        }
    }

    /// Whether this tile still holds a pellet or a power pellet.
    #[verifier::when_used_as_spec(is_collectable)]
    pub fn is_still_collectable(self) -> (b: bool)
        ensures
            b == self.is_collectable(),
    {
        match self {
            Tile::Pellet | Tile::PowerPellet => true,
            Tile::Empty | Tile::Wall | Tile::House | Tile::Teleport => false,
        }
    }
}

/// What can be collected is walkable, and collecting it leaves the tile as
/// walkable as it was.
pub proof fn collecting_keeps_walkability(tile: Tile)
    ensures
        tile.is_collectable() ==> tile.is_walkable(),
        tile.cleared().is_walkable() == tile.is_walkable(),
        !tile.cleared().is_collectable(),
{
}

} // verus!
