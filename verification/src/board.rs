//! The board: a rectangular grid of tiles, its junctions, and the pellets
//! that are collected from it.

use crate::geometry::{
    neighbor, tile_of, Direction, Point, TilePoint, WorldPoint, MAX_TILE_COORD,
};
use crate::tile::{tile_of_code, Tile};
use std::collections::{HashSet, VecDeque};
use vstd::prelude::*;
use vstd::string::StrSliceExecFns;

verus! {

/// The model of a board: its rows of tiles, top row first.
pub type Grid = Seq<Seq<Tile>>;

/// The number of rows of a grid.
pub open spec fn grid_height(g: Grid) -> int {
    g.len() as int
}

/// The length of a grid's first row; `0` for a grid without rows.
pub open spec fn grid_width(g: Grid) -> int {
    if g.len() > 0 {
        g[0].len() as int
    } else {
        0
    }
}

/// Whether all rows of a grid have the same length.
pub open spec fn rectangular(g: Grid) -> bool {
    forall|r: int| 0 <= r < g.len() ==> (#[trigger] g[r]).len() == grid_width(g)
}

/// Whether a point names a cell of the grid.
pub open spec fn in_bounds(g: Grid, p: Point) -> bool {
    0 <= p.y < g.len() && 0 <= p.x < g[p.y].len()
}

/// The tile at a point. A point off the grid reads as `Empty`, and so as
/// walkable.
pub open spec fn tile_at(g: Grid, p: Point) -> Tile {
    if in_bounds(g, p) {
        g[p.y][p.x]
    } else {
        Tile::Empty
    }
}

/// Whether a mob can stand at a point.
pub open spec fn walkable_at(g: Grid, p: Point) -> bool {
    tile_at(g, p).is_walkable()
}

/// How many of the four orthogonal neighbours of a point are walkable.
pub open spec fn walkable_neighbors(g: Grid, p: Point) -> int {
    (if walkable_at(g, neighbor(p, Direction::Right)) { 1int } else { 0 })
        + (if walkable_at(g, neighbor(p, Direction::Down)) { 1int } else { 0 })
        + (if walkable_at(g, neighbor(p, Direction::Left)) { 1int } else { 0 })
        + (if walkable_at(g, neighbor(p, Direction::Up)) { 1int } else { 0 })
}

/// Whether a point is one of the four corners of the grid.
pub open spec fn corner_at(g: Grid, p: Point) -> bool {
    (p.x == 0 || p.x == grid_width(g) - 1) && (p.y == 0 || p.y == grid_height(g) - 1)
}

/// Whether a point is a junction: a walkable cell of the grid with more than
/// two walkable neighbours, or a walkable cell in a corner of the grid.
pub open spec fn junction_at(g: Grid, p: Point) -> bool {
    &&& in_bounds(g, p)
    &&& walkable_at(g, p)
    &&& (walkable_neighbors(g, p) > 2 || corner_at(g, p))
}

/// The identifier of a cell: its index when the rows are laid end to end.
pub open spec fn id_of(g: Grid, p: Point) -> int {
    p.y * grid_width(g) + p.x
}

/// The cell that an identifier names.
pub open spec fn point_of(g: Grid, id: int) -> Point {
    Point { x: id % grid_width(g), y: id / grid_width(g) }
}

/// The identifiers of all junctions of a grid.
pub open spec fn junction_ids(g: Grid) -> Set<u32> {
    Set::new(|id: u32| grid_width(g) > 0 && junction_at(g, point_of(g, id as int)))
}

/// The grid with one cell replaced; unchanged where the point is off the
/// grid.
pub open spec fn with_tile(g: Grid, p: Point, t: Tile) -> Grid {
    if in_bounds(g, p) {
        g.update(p.y, g[p.y].update(p.x, t))
    } else {
        g
    }
}

/// Whether nothing is left to collect on a grid.
pub open spec fn grid_complete(g: Grid) -> bool {
    forall|r: int, c: int|
        0 <= r < g.len() && 0 <= c < g[r].len() ==> !(#[trigger] g[r][c]).is_collectable()
}

/// The identifier of a cell of a rectangular grid names that cell again.
pub proof fn id_names_its_cell(g: Grid, p: Point)
    requires
        rectangular(g),
        in_bounds(g, p),
    ensures
        point_of(g, id_of(g, p)) == p,
        0 <= id_of(g, p) < grid_height(g) * grid_width(g),
{
    let w = grid_width(g);
    assert(g[p.y].len() == w);
    vstd::arithmetic::div_mod::lemma_fundamental_div_mod_converse(id_of(g, p), w, p.y, p.x);
    assert(p.y * w + p.x < g.len() * w) by (nonlinear_arith)
        requires
            0 <= p.x < w,
            0 <= p.y < g.len(),
    ;
    assert(0 <= p.y * w + p.x) by (nonlinear_arith)
        requires
            0 <= p.x < w,
            0 <= p.y,
    ;
}

/// An identifier below the number of cells of a rectangular grid names a
/// cell of the grid, whose identifier it is.
pub proof fn cell_of_id_is_on_grid(g: Grid, id: int)
    requires
        rectangular(g),
        0 <= id < grid_height(g) * grid_width(g),
    ensures
        in_bounds(g, point_of(g, id)),
        id_of(g, point_of(g, id)) == id,
{
    let w = grid_width(g);
    let h = grid_height(g);
    assert(w > 0) by (nonlinear_arith)
        requires
            0 <= id < h * w,
            h >= 0,
            w >= 0,
    ;
    vstd::arithmetic::div_mod::lemma_fundamental_div_mod(id, w);
    vstd::arithmetic::div_mod::lemma_mod_bound(id, w);
    vstd::arithmetic::div_mod::lemma_div_pos_is_pos(id, w);
    let q = id / w;
    assert(q < h) by (nonlinear_arith)
        requires
            id == w * q + id % w,
            0 <= id % w,
            id < h * w,
            w > 0,
    ;
    assert(w * q == q * w) by (nonlinear_arith);
}

/// Replacing a tile by one that is as walkable as it was changes no junction.
pub proof fn junctions_depend_on_walkability_only(g: Grid, p: Point, t: Tile)
    requires
        t.is_walkable() == tile_at(g, p).is_walkable(),
    ensures
        junction_ids(with_tile(g, p, t)) == junction_ids(g),
        grid_width(with_tile(g, p, t)) == grid_width(g),
        grid_height(with_tile(g, p, t)) == grid_height(g),
        rectangular(g) ==> rectangular(with_tile(g, p, t)),
{
    let g2 = with_tile(g, p, t);
    assert forall|q: Point| walkable_at(g2, q) == walkable_at(g, q) && in_bounds(g2, q)
        == in_bounds(g, q) by {}
    assert forall|q: Point| junction_at(g2, q) == junction_at(g, q) by {
        assert(walkable_at(g2, neighbor(q, Direction::Right)) == walkable_at(
            g,
            neighbor(q, Direction::Right),
        ));
        assert(walkable_at(g2, neighbor(q, Direction::Left)) == walkable_at(
            g,
            neighbor(q, Direction::Left),
        ));
        assert(walkable_at(g2, neighbor(q, Direction::Up)) == walkable_at(
            g,
            neighbor(q, Direction::Up),
        ));
        assert(walkable_at(g2, neighbor(q, Direction::Down)) == walkable_at(
            g,
            neighbor(q, Direction::Down),
        ));
    }
    assert(junction_ids(g2) =~= junction_ids(g));
    if rectangular(g) {
        assert forall|r: int| 0 <= r < g2.len() implies (#[trigger] g2[r]).len() == grid_width(
            g2,
        ) by {
            assert(g[r].len() == grid_width(g));
        }
    }
}

/// The rows of a board's text, each as its characters.
pub open spec fn text_of(lines: Seq<String>) -> Seq<Seq<char>> {
    Seq::new(lines.len(), |r: int| lines[r]@)
}

/// Whether the character at a row and column of a text stands for no tile.
pub open spec fn invalid_at(text: Seq<Seq<char>>, r: int, c: int) -> bool {
    0 <= r < text.len() && 0 <= c < text[r].len() && tile_of_code(text[r][c]) is None
}

/// Whether every character of a text stands for a tile.
pub open spec fn all_codes_valid(text: Seq<Seq<char>>) -> bool {
    forall|r: int, c: int| !invalid_at(text, r, c)
}

/// Whether the character at a row and column is the first in reading order
/// that stands for no tile.
pub open spec fn first_invalid_at(text: Seq<Seq<char>>, r: int, c: int) -> bool {
    &&& invalid_at(text, r, c)
    &&& forall|r2: int, c2: int|
        invalid_at(text, r2, c2) ==> r < r2 || (r == r2 && c <= c2)
}

/// Whether there is at least one row and all rows are equally long.
pub open spec fn text_rectangular<T>(rows: Seq<Seq<T>>) -> bool {
    &&& rows.len() > 0
    &&& forall|r: int| 0 <= r < rows.len() ==> (#[trigger] rows[r]).len() == rows[0].len()
}

/// Whether a row is the first whose length differs from that of the first
/// row.
pub open spec fn first_ragged_row<T>(rows: Seq<Seq<T>>, r: int) -> bool {
    &&& 0 < r < rows.len()
    &&& rows[r].len() != rows[0].len()
    &&& forall|r2: int| 0 <= r2 < r ==> (#[trigger] rows[r2]).len() == rows[0].len()
}

/// Whether a rectangle of rows is small enough for a board: every cell has a
/// world position, with a tile to spare, and the number of cells fits in an
/// `i32`.
pub open spec fn text_fits<T>(rows: Seq<Seq<T>>) -> bool {
    &&& rows.len() < MAX_TILE_COORD
    &&& rows[0].len() < MAX_TILE_COORD
    &&& rows.len() * rows[0].len() <= i32::MAX
}

/// Whether some rows are within what a board's coordinates and identifiers
/// can count, as far as that can be said of rows of any shape: the number of
/// rows and the length of the first row are below `MAX_TILE_COORD`, and their
/// product fits in an `i32`.
pub open spec fn text_small<T>(rows: Seq<Seq<T>>) -> bool {
    &&& rows.len() < MAX_TILE_COORD
    &&& rows.len() > 0 ==> rows[0].len() < MAX_TILE_COORD && rows.len() * rows[0].len()
        <= i32::MAX
}

/// Whether `e` says what is wrong with the shape of some rows: that there is
/// none, or which row is the first of another length.
pub open spec fn shape_refusal<T>(rows: Seq<Seq<T>>, e: BoardError) -> bool {
    match e {
        BoardError::InvalidTileCode { .. } => false,
        BoardError::MalformedGrid { row } => if rows.len() == 0 {
            row == 0
        } else {
            first_ragged_row(rows, row as int)
        },
    }
}

/// Whether `e` says what is wrong with a text: the first character that
/// stands for no tile; for a text of valid codes, what is wrong with its
/// shape.
pub open spec fn refusal(text: Seq<Seq<char>>, e: BoardError) -> bool {
    match e {
        BoardError::InvalidTileCode { code, row, col } => {
            &&& first_invalid_at(text, row as int, col as int)
            &&& code == text[row as int][col as int]
        },
        _ => all_codes_valid(text) && shape_refusal(text, e),
    }
}

/// The tile that a character stands for; `Empty` for a character that stands
/// for none.
pub open spec fn tile_or_empty(c: char) -> Tile {
    match tile_of_code(c) {
        Some(t) => t,
        None => Tile::Empty,
    }
}

/// The grid that a text describes.
pub open spec fn grid_of(text: Seq<Seq<char>>) -> Grid {
    Seq::new(text.len(), |r: int| Seq::new(text[r].len(), |c: int| tile_or_empty(text[r][c])))
}

/// What the player finds on a tile: one pellet, one power pellet, or nothing.
pub open spec fn pickup_of(t: Tile) -> BoardUpdate {
    BoardUpdate {
        pellets_collected: if t is Pellet { 1 } else { 0 },
        power_pellets_collected: if t is PowerPellet { 1 } else { 0 },
        junctions: None,
    }
}

/// The grid once whatever lay at a point has been collected.
pub open spec fn collected_grid(g: Grid, p: Point) -> Grid {
    if tile_at(g, p).is_collectable() {
        with_tile(g, p, Tile::Empty)
    } else {
        g
    }
}

/// The first `n` entries of a history; all of it where it has fewer.
pub open spec fn capped(history: Seq<u32>, n: int) -> Seq<u32> {
    if 0 <= n <= history.len() {
        history.subrange(0, n)
    } else {
        history
    }
}

/// What changed on the board during one update of the player.
#[derive(Clone, Copy, Debug, PartialEq, Eq)]
pub struct BoardUpdate {
    /// The number of pellets collected.
    pub pellets_collected: i32,
    /// The number of power pellets collected; one makes the enemies
    /// vulnerable.
    pub power_pellets_collected: i32,
    /// The junctions between which something was collected, where that is
    /// recorded.
    pub junctions: Option<(u32, u32)>,
}

impl BoardUpdate {
    /// The update in which nothing changed.
    pub fn new() -> (u: BoardUpdate)
        ensures
            u == (BoardUpdate { pellets_collected: 0, power_pellets_collected: 0, junctions: None }),
            !u.happened(),
    {
        BoardUpdate { pellets_collected: 0, power_pellets_collected: 0, junctions: None }
    }

    /// Whether the update records any change.
    pub open spec fn is_change(&self) -> bool {
        self.junctions is Some || self.pellets_collected != 0 || self.power_pellets_collected != 0
    }

    /// Whether the update records any change.
    #[verifier::when_used_as_spec(is_change)]
    pub fn happened(&self) -> (b: bool)
        ensures
            b == self.is_change(),
    {
        self.junctions.is_some() || self.pellets_collected != 0 || self.power_pellets_collected
            != 0
    }

    /// The update itself if it records a change, and nothing otherwise.
    pub fn into_option(self) -> (r: Option<BoardUpdate>)
        ensures
            r == (if self.happened() {
                Some(self)
            } else {
                None
            }),
    {
        if self.happened() {
            Some(self)
        } else {
            None
        }
    }
}

/// Why a board's text was refused.
#[derive(Clone, Copy, Debug, PartialEq, Eq, Structural)]
pub enum BoardError {
    /// A character that stands for no tile, with the row and column at which
    /// it was found.
    InvalidTileCode { code: char, row: usize, col: usize },
    /// The rows do not form a rectangle: `row` is the first row whose length
    /// differs from that of the first row, or `0` where there is no row at
    /// all.
    MalformedGrid { row: usize },
}

/// Whether a number of rows and a number of columns are both below
/// `MAX_TILE_COORD` and their product fits in an `i32`.
fn sizes_are_small(rows: usize, cols: usize) -> (b: bool)
    ensures
        b == (rows < MAX_TILE_COORD && cols < MAX_TILE_COORD && rows * cols <= i32::MAX),
{
    if rows >= MAX_TILE_COORD as usize || cols >= MAX_TILE_COORD as usize {
        return false;
    }
    assert(rows * cols <= 0x7fff_ffff * 0x7fff_ffff) by (nonlinear_arith)
        requires
            rows <= 0x7fff_ffff,
            cols <= 0x7fff_ffff,
    ;
    (rows as u64) * (cols as u64) <= 0x7fff_ffff
}

/// A level: its tiles and the junctions among them.
#[derive(Debug)]
pub struct Board {
    /// The tiles: rows first, then columns.
    pub tiles: Vec<Vec<Tile>>,
    /// The number of columns.
    pub width: u32,
    /// The number of rows.
    pub height: u32,
    /// The identifiers (`row * width + column`) of the junctions.
    pub junctions: HashSet<u32>,
}

impl View for Board {
    type V = Grid;

    open spec fn view(&self) -> Grid {
        Seq::new(self.tiles.len() as nat, |r: int| self.tiles[r]@)
    }
}

impl Board {
    /// Whether the grid is a rectangle of at least one row that the recorded
    /// size describes, every cell of which has a world position and an
    /// identifier.
    pub open spec fn shaped(&self) -> bool {
        &&& self@.len() >= 1
        &&& rectangular(self@)
        &&& self.height == grid_height(self@)
        &&& self.width == grid_width(self@)
        &&& grid_height(self@) < MAX_TILE_COORD
        &&& grid_width(self@) < MAX_TILE_COORD
        &&& grid_height(self@) * grid_width(self@) <= i32::MAX
    }

    /// The invariant of a board: it is well shaped, and the recorded
    /// junctions are those of its grid.
    pub open spec fn wf(&self) -> bool {
        &&& self.shaped()
        &&& self.junctions@ == junction_ids(self@)
    }

    /// The tile at a point; `Empty` off the board.
    pub fn get_tile(&self, tile: &TilePoint) -> (t: Tile)
        ensures
            t == tile_at(self@, tile@),
    {
        if tile.ty < 0 || tile.tx < 0 {
            return Tile::Empty;
        }
        let y: usize = tile.ty as usize;
        let x: usize = tile.tx as usize;
        if y < self.tiles.len() {
            let row = &self.tiles[y];
            assert(self@[y as int] == row@);
            if x < row.len() {
                return row[x];
            }
        }
        Tile::Empty
    }

    /// Whether a point is one of the four corners of the board.
    pub fn is_corner(&self, tx: i32, ty: i32) -> (b: bool)
        requires
            self.shaped(),
        ensures
            b == corner_at(self@, Point { x: tx as int, y: ty as int }),
    {
        let last_y: i32 = (self.height as i32) - 1;
        let last_x: i32 = (self.width as i32) - 1;
        (tx == 0 || tx == last_x) && (ty == 0 || ty == last_y)
    }

    /// The neighbour of a tile in a direction, where a mob can stand on it.
    pub fn can_move(&self, position: &TilePoint, dir: Direction) -> (r: Option<TilePoint>)
        requires
            i32::MIN < position.tx < i32::MAX,
            i32::MIN < position.ty < i32::MAX,
        ensures
            match r {
                Some(t) => t@ == neighbor(position@, dir) && walkable_at(self@, t@),
                None => !walkable_at(self@, neighbor(position@, dir)),
            },
    {
        let tp = position.step(dir);
        let tile = self.get_tile(&tp);
        if tile.walkable() {
            Some(tp)
        } else {
            None
        }
    }

    /// Whether a tile is a teleport tile.
    pub fn is_tp(&self, xy: &TilePoint) -> (b: bool)
        ensures
            b == (tile_at(self@, xy@) is Teleport),
    {
        self.get_tile(xy) == Tile::Teleport
    }

    /// The identifier of a tile of the board; `None` off the board.
    pub fn tile_id(&self, tile: &TilePoint) -> (r: Option<u32>)
        requires
            self.shaped(),
        ensures
            match r {
                Some(id) => in_bounds(self@, tile@) && id == id_of(self@, tile@),
                None => !in_bounds(self@, tile@),
            },
    {
        if tile.ty < 0 || tile.tx < 0 || tile.ty >= self.height as i32 || tile.tx
            >= self.width as i32 {
            proof {
                if 0 <= tile.ty < self@.len() {
                    assert(self@[tile.ty as int].len() == grid_width(self@));
                }
            }
            return None;
        }
        let y: u32 = tile.ty as u32;
        let x: u32 = tile.tx as u32;
        proof {
            assert(self@[tile.ty as int].len() == grid_width(self@));
            id_names_its_cell(self@, tile@);
        }
        Some(y * self.width + x)
    }

    /// Whether a tile is a junction of the board.
    pub fn is_junction(&self, tile: &TilePoint) -> (b: bool)
        requires
            self.wf(),
        ensures
            b == junction_at(self@, tile@),
    {
        broadcast use vstd::std_specs::hash::group_hash_axioms;

        if let Some(num) = self.tile_id(tile) {
            proof {
                id_names_its_cell(self@, tile@);
            }
            self.junctions.contains(&num)
        } else {
            false
        }
    }

    /// The identifier of a tile if it is a junction of the board.
    pub fn get_junction_id(&self, tile: &TilePoint) -> (r: Option<u32>)
        requires
            self.wf(),
        ensures
            match r {
                Some(id) => junction_at(self@, tile@) && id == id_of(self@, tile@),
                None => !junction_at(self@, tile@),
            },
    {
        broadcast use vstd::std_specs::hash::group_hash_axioms;

        if let Some(num) = self.tile_id(tile) {
            proof {
                id_names_its_cell(self@, tile@);
            }
            if self.junctions.contains(&num) {
                Some(num)
            } else {
                None
            }
        } else {
            None
        }
    }

    /// How many of the four neighbours of a tile a mob can stand on.
    pub fn count_walkable_neighbors(&self, tile: &TilePoint) -> (n: u8)
        requires
            i32::MIN < tile.tx < i32::MAX,
            i32::MIN < tile.ty < i32::MAX,
        ensures
            n == walkable_neighbors(self@, tile@),
    {
        let mut n: u8 = 0;
        if self.can_move(tile, Direction::Right).is_some() {
            n = n + 1;
        }
        if self.can_move(tile, Direction::Down).is_some() {
            n = n + 1;
        }
        if self.can_move(tile, Direction::Left).is_some() {
            n = n + 1;
        }
        if self.can_move(tile, Direction::Up).is_some() {
            n = n + 1;
        }
        n
    }

    /// Records the junctions of the grid. Meant to run once, on a board whose
    /// set of junctions is still empty.
    pub fn init_junctions(&mut self)
        requires
            old(self).shaped(),
            old(self).junctions@ == Set::<u32>::empty(),
        ensures
            final(self).wf(),
            final(self).tiles == old(self).tiles,
            final(self).width == old(self).width,
            final(self).height == old(self).height,
    {
        broadcast use vstd::std_specs::hash::group_hash_axioms;

        let ghost g = self@;
        let h: u32 = self.height;
        let w: u32 = self.width;
        let mut y: u32 = 0;
        while y < h
            invariant
                self@ == g,
                self.tiles == old(self).tiles,
                self.shaped(),
                self.height == h,
                self.width == w,
                y <= h,
                forall|id: u32|
                    self.junctions@.contains(id) <==> (id < y * w && junction_at(
                        g,
                        point_of(g, id as int),
                    )),
            decreases h - y,
        {
            let mut x: u32 = 0;
            while x < w
                invariant
                    self@ == g,
                    self.tiles == old(self).tiles,
                    self.shaped(),
                    self.height == h,
                    self.width == w,
                    y < h,
                    x <= w,
                    forall|id: u32|
                        self.junctions@.contains(id) <==> (id < y * w + x && junction_at(
                            g,
                            point_of(g, id as int),
                        )),
                decreases w - x,
            {
                let p = TilePoint::new(x as i32, y as i32);
                proof {
                    assert(g[y as int].len() == grid_width(g));
                    id_names_its_cell(g, p@);
                }
                let id: u32 = y * w + x;
                let mut junction = false;
                if self.get_tile(&p).walkable() {
                    let n = self.count_walkable_neighbors(&p);
                    if n > 2 || self.is_corner(x as i32, y as i32) {
                        junction = true;
                    }
                }
                assert(junction == junction_at(g, p@));
                if junction {
                    let ghost before = self.junctions@;
                    let _ = self.junctions.insert(id);
                    assert(self.junctions@ == before.insert(id));
                }
                assert(self@ =~= g);
                x = x + 1;
            }
            assert(y * w + w == (y + 1) * w) by (nonlinear_arith);
            y = y + 1;
        }
        proof {
            assert forall|id: u32| junction_ids(g).contains(id) implies id < h * w by {
                let q = point_of(g, id as int);
                assert(in_bounds(g, q));
                assert(g[q.y].len() == grid_width(g));
                vstd::arithmetic::div_mod::lemma_fundamental_div_mod(id as int, w as int);
                assert((id as int) < h * w) by (nonlinear_arith)
                    requires
                        id as int == w * q.y + q.x,
                        0 <= q.x < w,
                        0 <= q.y < h,
                ;
            }
            assert(w == 0 ==> h * w == 0) by (nonlinear_arith);
            assert(self.junctions@ =~= junction_ids(g));
        }
    }

    /// Takes the pellet on a tile: a `Pellet` tile becomes `Empty`. Returns
    /// whether there was one to take; any other tile, and any point off the
    /// board, is left as it is.
    pub fn collect_pellet(&mut self, tile: &TilePoint) -> (collected: bool)
        ensures
            collected == (tile_at(old(self)@, tile@) is Pellet),
            final(self)@ == (if collected {
                with_tile(old(self)@, tile@, Tile::Empty)
            } else {
                old(self)@
            }),
            final(self).width == old(self).width,
            final(self).height == old(self).height,
            final(self).junctions == old(self).junctions,
            old(self).wf() ==> final(self).wf(),
    {
        self.replace_tile(tile, Tile::Pellet, Tile::Empty)
    }

    /// Takes the power pellet on a tile: a `PowerPellet` tile becomes `Empty`.
    /// Returns whether there was one to take; any other tile, and any point
    /// off the board, is left as it is.
    pub fn collect_power_pellet(&mut self, tile: &TilePoint) -> (collected: bool)
        ensures
            collected == (tile_at(old(self)@, tile@) is PowerPellet),
            final(self)@ == (if collected {
                with_tile(old(self)@, tile@, Tile::Empty)
            } else {
                old(self)@
            }),
            final(self).width == old(self).width,
            final(self).height == old(self).height,
            final(self).junctions == old(self).junctions,
            old(self).wf() ==> final(self).wf(),
    {
        self.replace_tile(tile, Tile::PowerPellet, Tile::Empty)
    }

    /// Puts `to` where the tile at a point is `from`, and says whether it
    /// was. Both must be equally walkable, so that no junction changes.
    fn replace_tile(&mut self, tile: &TilePoint, from: Tile, to: Tile) -> (replaced: bool)
        requires
            from.is_walkable() == to.is_walkable(),
            from != Tile::Empty,
        ensures
            replaced == (tile_at(old(self)@, tile@) == from),
            final(self)@ == (if replaced {
                with_tile(old(self)@, tile@, to)
            } else {
                old(self)@
            }),
            final(self).width == old(self).width,
            final(self).height == old(self).height,
            final(self).junctions == old(self).junctions,
            old(self).wf() ==> final(self).wf(),
    {
        if self.get_tile(tile) != from {
            return false;
        }
        let ghost g = self@;
        let y: usize = tile.ty as usize;
        let x: usize = tile.tx as usize;
        let row = &mut self.tiles[y];
        row[x] = to;
        proof {
            assert(self@ =~= with_tile(g, tile@, to));
            junctions_depend_on_walkability_only(g, tile@, to);
        }
        true
    }

    /// The tile that an identifier names.
    pub fn lookup_position(&self, position: u32) -> (t: TilePoint)
        requires
            self.shaped(),
            self.width > 0,
            position <= i32::MAX,
        ensures
            t@ == point_of(self@, position as int),
    {
        let x: u32 = position % self.width;
        let y: u32 = position / self.width;
        proof {
            vstd::arithmetic::div_mod::lemma_div_is_ordered_by_denominator(
                position as int,
                1,
                self.width as int,
            );
            vstd::arithmetic::div_mod::lemma_div_basics(position as int);
        }
        TilePoint::new(x as i32, y as i32)
    }

    /// Whether nothing is left to collect.
    pub fn board_complete(&self) -> (done: bool)
        ensures
            done == grid_complete(self@),
    {
        let mut r: usize = 0;
        while r < self.tiles.len()
            invariant
                r <= self.tiles.len(),
                forall|i: int, c: int|
                    0 <= i < r && 0 <= c < self@[i].len() ==> !(#[trigger] self@[i][c]).is_collectable(),
            decreases self.tiles.len() - r,
        {
            let row = &self.tiles[r];
            assert(self@[r as int] == row@);
            let mut c: usize = 0;
            while c < row.len()
                invariant
                    r < self.tiles.len(),
                    self@[r as int] == row@,
                    c <= row.len(),
                    forall|j: int| 0 <= j < c ==> !(#[trigger] row@[j]).is_collectable(),
                decreases row.len() - c,
            {
                if row[c].is_still_collectable() {
                    assert(self@[r as int][c as int].is_collectable());
                    return false;
                }
                c = c + 1;
            }
            r = r + 1;
        }
        true
    }

    /// Whether a text is within what a board's coordinates can count.
    pub fn text_is_small(lines: &[String]) -> (b: bool)
        ensures
            b == text_small(text_of(lines@)),
    {
        if lines.len() == 0 {
            return true;
        }
        let cols: usize = lines[0].as_str().unicode_len();
        assert(cols == text_of(lines@)[0].len());
        sizes_are_small(lines.len(), cols)
    }

    /// Whether rows of tiles are within what a board's coordinates can
    /// count.
    pub fn tiles_are_small(tiles: &Vec<Vec<Tile>>) -> (b: bool)
        ensures
            b == text_small(Seq::new(tiles.len() as nat, |i: int| tiles[i]@)),
    {
        if tiles.len() == 0 {
            return true;
        }
        sizes_are_small(tiles.len(), tiles[0].len())
    }

    /// Reads a board from its text, one row of tile codes per line, and
    /// records its junctions.
    ///
    /// Every rectangular text of tile codes gives a board of its size. The
    /// first character in reading order that stands for no tile is reported
    /// with its place, and a text of valid codes is refused where it has no
    /// row or rows of different lengths. The text must be within what
    /// coordinates can count (see `text_small`).
    pub fn try_new(lines: &[String]) -> (r: Result<Board, BoardError>)
        requires
            text_small(text_of(lines@)),
        ensures
            match r {
                Ok(b) => {
                    &&& all_codes_valid(text_of(lines@))
                    &&& text_rectangular(text_of(lines@))
                    &&& text_fits(text_of(lines@))
                    &&& b.wf()
                    &&& b@ == grid_of(text_of(lines@))
                    &&& b.height == lines@.len()
                    &&& b.width == lines@[0]@.len()
                },
                Err(e) => refusal(text_of(lines@), e),
            },
    {
        let ghost text = text_of(lines@);
        let mut tiles: Vec<Vec<Tile>> = Vec::new();
        let mut r: usize = 0;
        while r < lines.len()
            invariant
                text == text_of(lines@),
                r <= lines.len(),
                tiles.len() == r,
                forall|i: int| 0 <= i < r ==> (#[trigger] tiles[i])@ == grid_of(text)[i],
                forall|i: int, c: int| 0 <= i < r ==> !invalid_at(text, i, c),
            decreases lines.len() - r,
        {
            let line = lines[r].as_str();
            assert(line@ == text[r as int]);
            let n = line.unicode_len();
            let mut row: Vec<Tile> = Vec::new();
            let mut c: usize = 0;
            while c < n
                invariant
                    text == text_of(lines@),
                    r < lines.len(),
                    line@ == text[r as int],
                    n == line@.len(),
                    c <= n,
                    row.len() == c,
                    forall|j: int| 0 <= j < c ==> tile_of_code(line@[j]) == Some(#[trigger] row[j]),
                    forall|i: int, j: int| 0 <= i < r ==> !invalid_at(text, i, j),
                decreases n - c,
            {
                let ch = line.get_char(c);
                match Tile::new_from_char(ch) {
                    Ok(tile) => {
                        row.push(tile);
                    },
                    Err(code) => {
                        assert(invalid_at(text, r as int, c as int));
                        assert forall|r2: int, c2: int| invalid_at(text, r2, c2) implies r < r2 || (r
                            == r2 && c <= c2) by {
                            if r2 == r && c2 < c {
                                assert(tile_of_code(line@[c2]) == Some(row[c2]));
                            }
                        }
                        return Err(BoardError::InvalidTileCode { code, row: r, col: c });
                    },
                }
                c = c + 1;
            }
            assert(row@ =~= grid_of(text)[r as int]);
            assert forall|j: int| !invalid_at(text, r as int, j) by {
                if 0 <= j < n {
                    assert(tile_of_code(line@[j]) == Some(row[j]));
                }
            }
            tiles.push(row);
            r = r + 1;
        }
        assert(all_codes_valid(text));
        let ghost rows: Seq<Seq<Tile>> = Seq::new(tiles.len() as nat, |i: int| tiles[i]@);
        assert(rows =~= grid_of(text));
        assert(rows.len() > 0 ==> rows[0].len() == text[0].len());
        match Board::from_tiles(tiles) {
            Ok(board) => {
                assert(board@ =~= rows);
                assert(text_rectangular(text)) by {
                    assert forall|i: int| 0 <= i < text.len() implies (#[trigger] text[i]).len()
                        == text[0].len() by {
                        assert(rows[i].len() == rows[0].len());
                    }
                }
                Ok(board)
            },
            Err(e) => {
                proof {
                    match e {
                        BoardError::MalformedGrid { row } => {
                            if rows.len() > 0 {
                                assert(rows[row as int].len() != rows[0].len());
                                assert forall|r2: int| 0 <= r2 < row implies (#[trigger] text[r2]).len()
                                    == text[0].len() by {
                                    assert(rows[r2].len() == rows[0].len());
                                }
                            }
                        },
                        _ => {},
                    }
                }
                Err(e)
            },
        }
    }

    /// Makes a board of rows of tiles and records its junctions. The rows
    /// are refused where there is none and where they differ in length. They
    /// must be within what coordinates can count (see `text_small`).
    pub fn from_tiles(tiles: Vec<Vec<Tile>>) -> (r: Result<Board, BoardError>)
        requires
            text_small(Seq::new(tiles.len() as nat, |i: int| tiles[i]@)),
        ensures
            match r {
                Ok(b) => {
                    &&& text_rectangular(Seq::new(tiles.len() as nat, |i: int| tiles[i]@))
                    &&& text_fits(Seq::new(tiles.len() as nat, |i: int| tiles[i]@))
                    &&& b.wf()
                    &&& b.tiles == tiles
                    &&& b.height == tiles.len()
                    &&& b.width == tiles[0].len()
                },
                Err(e) => shape_refusal(Seq::new(tiles.len() as nat, |i: int| tiles[i]@), e),
            },
    {
        let ghost rows: Seq<Seq<Tile>> = Seq::new(tiles.len() as nat, |i: int| tiles[i]@);
        if tiles.len() == 0 {
            return Err(BoardError::MalformedGrid { row: 0 });
        }
        let cols: usize = tiles[0].len();
        let mut k: usize = 1;
        while k < tiles.len()
            invariant
                rows == Seq::new(tiles.len() as nat, |i: int| tiles[i]@),
                1 <= k <= tiles.len(),
                cols == rows[0].len(),
                forall|i: int| 0 <= i < k ==> (#[trigger] rows[i]).len() == rows[0].len(),
            decreases tiles.len() - k,
        {
            if tiles[k].len() != cols {
                assert(rows[k as int].len() != rows[0].len());
                return Err(BoardError::MalformedGrid { row: k });
            }
            assert(rows[k as int].len() == rows[0].len());
            k = k + 1;
        }
        assert(text_rectangular(rows));
        let height: usize = tiles.len();
        let mut board = Board {
            tiles,
            width: cols as u32,
            height: height as u32,
            junctions: HashSet::new(),
        };
        proof {
            assert(board@ =~= rows);
            assert forall|i: int| 0 <= i < board@.len() implies (#[trigger] board@[i]).len()
                == grid_width(board@) by {
                assert(rows[i].len() == rows[0].len());
            }
        }
        board.init_junctions();
        Ok(board)
    }

    /// Collects what lies under the player. Where something was collected,
    /// the player's history is cut down to its most recent junction, so that
    /// nothing is credited twice.
    pub fn check_pellets_every_tile(
        &mut self,
        player_position: &WorldPoint,
        player_history: &mut VecDeque<u32>,
    ) -> (update: BoardUpdate)
        ensures
            update == pickup_of(tile_at(old(self)@, tile_of(player_position@))),
            final(self)@ == collected_grid(old(self)@, tile_of(player_position@)),
            final(player_history)@ == (if update.happened() {
                capped(old(player_history)@, 1)
            } else {
                old(player_history)@
            }),
            final(self).width == old(self).width,
            final(self).height == old(self).height,
            final(self).junctions == old(self).junctions,
            old(self).wf() ==> final(self).wf(),
    {
        let mut score_change = BoardUpdate::new();
        let current_tile = player_position.to_tile();
        let newly_pellet_emptied = self.collect_pellet(&current_tile);
        let newly_power_pellet_emptied = self.collect_power_pellet(&current_tile);
        if newly_pellet_emptied {
            score_change.pellets_collected = 1;
        } else if newly_power_pellet_emptied {
            score_change.power_pellets_collected = 1;
        }
        if score_change.happened() {
            player_history.truncate(1);
        }
        score_change
    }
}

} // verus!
