//! Read-only questions about a running game.

use crate::board::{grid_width, rectangular, Grid};
use crate::config::in_range;
use crate::geometry::{tile_in_range, Point};
use crate::mob::{magnitude, Mob};
use crate::state::{enemy_has_room, multiplier_ceiling, score_swing, State};
use crate::tile::Tile;
use vstd::arithmetic::power2::pow2;
use vstd::prelude::*;

verus! {

/// Why a question about a game could not be answered.
#[derive(Clone, Copy, Debug, PartialEq, Eq, Structural)]
pub enum QueryError {
    /// The argument names nothing in the game: an index past the last enemy.
    BadInputArg,
    /// There is no question of that name.
    NoSuchQuery,
}

/// The number of tiles of a row that hold something to collect.
pub open spec fn collectable_in_row(row: Seq<Tile>) -> nat
    decreases row.len(),
{
    if row.len() == 0 {
        0
    } else {
        collectable_in_row(row.drop_last()) + if row.last().is_collectable() {
            1nat
        } else {
            0nat
        }
    }
}

/// The number of tiles of a grid that hold something to collect.
pub open spec fn collectable_in(g: Grid) -> nat
    decreases g.len(),
{
    if g.len() == 0 {
        0
    } else {
        collectable_in(g.drop_last()) + collectable_in_row(g.last())
    }
}

/// A row holds no more to collect than it has tiles.
pub proof fn row_count_is_bounded(row: Seq<Tile>)
    ensures
        collectable_in_row(row) <= row.len(),
    decreases row.len(),
{
    if row.len() > 0 {
        row_count_is_bounded(row.drop_last());
    }
}

/// A rectangular grid holds no more to collect than it has tiles.
pub proof fn grid_count_is_bounded(g: Grid, w: int)
    requires
        forall|r: int| 0 <= r < g.len() ==> (#[trigger] g[r]).len() == w,
    ensures
        collectable_in(g) <= g.len() * w,
    decreases g.len(),
{
    if g.len() > 0 {
        grid_count_is_bounded(g.drop_last(), w);
        row_count_is_bounded(g.last());
        assert((g.len() - 1) * w + w == g.len() * w) by (nonlinear_arith);
    } else {
        assert(0 * w == 0);
    }
}

/// The magnitude of an `i32`.
fn abs64(x: i32) -> (a: i64)
    ensures
        a == magnitude(x as int),
{
    if x >= 0 {
        x as i64
    } else {
        -(x as i64)
    }
}

/// Whether a mob that moves by at most `reach` has room for one tick.
fn mob_fits(m: &Mob, reach: i64) -> (b: bool)
    requires
        0 <= reach <= 0x1_0000_0000,
    ensures
        b == {
            &&& m@.step matches Some(t) ==> tile_in_range(t)
            &&& magnitude(m@.position.x) + reach <= i32::MAX
            &&& magnitude(m@.position.y) + reach <= i32::MAX
        },
{
    if let Some(t) = m.step {
        if !in_range(&t) {
            return false;
        }
    }
    abs64(m.position.x) + reach <= i32::MAX as i64 && abs64(m.position.y) + reach
        <= i32::MAX as i64
}

impl State {
    /// Whether the game has room for one more tick: what `update_mut` asks
    /// for besides the game's invariant.
    pub fn can_update(&self) -> (b: bool)
        ensures
            b == self.has_room(),
    {
        let ghost cfg = self.config@;
        let ghost s = self@;
        if !mob_fits(&self.state.player, abs64(self.state.player.speed)) {
            return false;
        }
        let fast: i64 = abs64(self.config.enemy_starting_speed);
        let slow: i64 = {
            let v: i64 = self.config.enemy_starting_speed as i64 - 4;
            if v >= 0 {
                v
            } else {
                -v
            }
        };
        let reach: i64 = if fast >= slow {
            fast
        } else {
            slow
        };
        assert(reach == cfg.enemy_reach());
        let n: usize = self.state.enemies.len();
        let mut i: usize = 0;
        while i < n
            invariant
                i <= n,
                n == self.state.enemies.len(),
                s == self@,
                cfg == self.config@,
                0 <= reach <= 0x1_0000_0000,
                reach == cfg.enemy_reach(),
                forall|j: int| 0 <= j < i ==> enemy_has_room(cfg, #[trigger] s.enemies[j]),
            decreases n - i,
        {
            if !mob_fits(&self.state.enemies[i], reach) {
                assert(!enemy_has_room(cfg, s.enemies[i as int]));
                return false;
            }
            i = i + 1;
        }
        if self.state.lives == i32::MIN || self.state.lives == i32::MAX || self.state.lives_gained
            == i32::MAX || self.state.level == i32::MAX {
            return false;
        }
        let m: i64 = {
            let a = abs64(self.state.enemies_caught_multiplier);
            if a >= 1 {
                a
            } else {
                1
            }
        };
        proof {
            vstd::arithmetic::power2::lemma2_to64();
        }
        if n > 31 {
            proof {
                vstd::arithmetic::power2::lemma_pow2_strictly_increases(31, n as nat);
                assert(m * pow2(n as nat) > i32::MAX) by (nonlinear_arith)
                    requires
                        m >= 1,
                        pow2(n as nat) > 0x8000_0000,
                ;
            }
            return false;
        }
        let mut p: i64 = 1;
        let mut k: usize = 0;
        while k < n
            invariant
                k <= n <= 31,
                p == pow2(k as nat),
                p <= 0x8000_0000,
            decreases n - k,
        {
            proof {
                vstd::arithmetic::power2::lemma_pow2_unfold((k + 1) as nat);
                if k + 1 < 31 {
                    vstd::arithmetic::power2::lemma_pow2_strictly_increases((k + 1) as nat, 31);
                }
                vstd::arithmetic::power2::lemma2_to64();
            }
            p = p * 2;
            k = k + 1;
        }
        assert(m * p <= 0x8000_0000 * 0x8000_0000) by (nonlinear_arith)
            requires
                0 <= m <= 0x8000_0000,
                0 <= p <= 0x8000_0000,
        ;
        let ceiling: i64 = m * p;
        assert(ceiling == multiplier_ceiling(s));
        if ceiling > i32::MAX as i64 {
            return false;
        }
        let base: i64 = abs64(self.config.score_increase_base_per_ghost_catch);
        assert(0 <= base * ceiling <= 0x8000_0000 * 0x8000_0000) by (nonlinear_arith)
            requires
                0 <= base <= 0x8000_0000,
                0 <= ceiling <= 0x8000_0000,
        ;
        let pellet: i64 = abs64(self.config.score_increase_per_pellet);
        let power: i64 = abs64(self.config.score_increase_per_power_pellet);
        let swing: i64 = (if pellet >= power {
            pellet
        } else {
            power
        }) + base * ceiling;
        assert(swing == score_swing(cfg, s));
        abs64(self.state.score) + swing <= i32::MAX as i64
    }

    /// The tile on which the player stands, as column and row.
    pub fn player_tile(&self) -> (t: (i32, i32))
        ensures
            (Point { x: t.0 as int, y: t.1 as int }) == self@.player.tile(),
    {
        let tile = self.state.player.position.to_tile();
        (tile.tx, tile.ty)
    }

    /// The number of enemies.
    pub fn num_enemies(&self) -> (n: usize)
        ensures
            n == self@.enemies.len(),
    {
        self.state.enemies.len()
    }

    /// The tile on which each enemy stands, as column and row, in the order
    /// of the enemies.
    pub fn enemy_tiles(&self) -> (tiles: Vec<(i32, i32)>)
        ensures
            tiles@.len() == self@.enemies.len(),
            forall|i: int|
                0 <= i < tiles@.len() ==> (Point {
                    x: (#[trigger] tiles@[i]).0 as int,
                    y: tiles@[i].1 as int,
                }) == self@.enemies[i].tile(),
    {
        let mut tiles: Vec<(i32, i32)> = Vec::new();
        let mut i: usize = 0;
        while i < self.state.enemies.len()
            invariant
                i <= self.state.enemies.len(),
                tiles@.len() == i,
                forall|j: int|
                    0 <= j < i ==> (Point {
                        x: (#[trigger] tiles@[j]).0 as int,
                        y: tiles@[j].1 as int,
                    }) == self@.enemies[j].tile(),
            decreases self.state.enemies.len() - i,
        {
            let tile = self.state.enemies[i].position.to_tile();
            tiles.push((tile.tx, tile.ty));
            i = i + 1;
        }
        tiles
    }

    /// The tile on which the enemy of an index stands, as column and row;
    /// `BadInputArg` for an index past the last enemy.
    pub fn enemy_tile(&self, index: usize) -> (r: Result<(i32, i32), QueryError>)
        ensures
            match r {
                Ok(t) => index < self@.enemies.len() && (Point { x: t.0 as int, y: t.1 as int })
                    == self@.enemies[index as int].tile(),
                Err(e) => index >= self@.enemies.len() && e == QueryError::BadInputArg,
            },
    {
        if index < self.state.enemies.len() {
            let tile = self.state.enemies[index].position.to_tile();
            Ok((tile.tx, tile.ty))
        } else {
            Err(QueryError::BadInputArg)
        }
    }

    /// Whether the enemy of an index is vulnerable; `BadInputArg` for an
    /// index past the last enemy.
    pub fn enemy_vulnerable(&self, index: usize) -> (r: Result<bool, QueryError>)
        ensures
            match r {
                Ok(v) => index < self@.enemies.len() && v == self@.enemies[index as int].vulnerable,
                Err(e) => index >= self@.enemies.len() && e == QueryError::BadInputArg,
            },
    {
        if index < self.state.enemies.len() {
            Ok(self.state.enemies[index].vulnerable)
        } else {
            Err(QueryError::BadInputArg)
        }
    }

    /// The number of pellets and power pellets that are left on the board.
    pub fn num_pellets_and_power_pellets_uncollected(&self) -> (n: usize)
        requires
            self.state.board.shaped(),
        ensures
            n == collectable_in(self@.board),
    {
        let ghost g = self@.board;
        let ghost w = grid_width(g);
        let tiles = &self.state.board.tiles;
        let mut sum: usize = 0;
        let mut r: usize = 0;
        while r < tiles.len()
            invariant
                tiles == &self.state.board.tiles,
                g == self@.board,
                w == grid_width(g),
                self.state.board.shaped(),
                r <= tiles.len(),
                sum == collectable_in(g.take(r as int)),
            decreases tiles.len() - r,
        {
            let row = &tiles[r];
            assert(row@ == g[r as int]);
            assert(row@.len() == w);
            let mut inner: usize = 0;
            let mut c: usize = 0;
            while c < row.len()
                invariant
                    c <= row.len(),
                    inner == collectable_in_row(row@.take(c as int)),
                    inner <= c,
                decreases row.len() - c,
            {
                assert(row@.take(c as int + 1).drop_last() =~= row@.take(c as int));
                if row[c].is_still_collectable() {
                    inner = inner + 1;
                }
                c = c + 1;
            }
            proof {
                assert(row@.take(c as int) =~= row@);
                assert(g.take(r as int + 1).drop_last() =~= g.take(r as int));
                assert(g.take(r as int + 1).last() == row@);
                grid_count_is_bounded(g.take(r as int + 1), w);
                assert((r + 1) * w <= g.len() * w) by (nonlinear_arith)
                    requires
                        r + 1 <= g.len(),
                        w >= 0,
                ;
            }
            sum = sum + inner;
            r = r + 1;
        }
        assert(g.take(r as int) =~= g);
        sum
    }
}

} // verus!
