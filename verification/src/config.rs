//! The record that a game is created from.

use crate::ai::MovementAI;
use crate::board::{
    all_codes_valid, text_fits, text_of, text_rectangular, text_small, Board,
};
use crate::geometry::{tile_in_range, Point, TilePoint, MAX_TILE_COORD};
use crate::mob::magnitude;
use vstd::prelude::*;

verus! {

/// What configures a game: the level, who starts where, and the constants of
/// the rules. A game reads it once, when it is created, and keeps its own
/// copy.
#[derive(Debug)]
pub struct Pacman {
    /// The seed of the generator that the enemies' random choices come from.
    pub seed: u64,
    /// The level as text, one row of tile codes per line.
    pub board: Vec<String>,
    /// The tile on which the player starts a life.
    pub player_start: TilePoint,
    /// The number of lives a game starts with.
    pub start_lives: i32,
    /// For how many ticks a power pellet makes the enemies vulnerable.
    pub vulnerable_time: i32,
    /// For how many ticks an enemy is frozen after it was caught.
    pub immobilized_time: i32,
    /// The strategy of each enemy.
    pub enemies: Vec<MovementAI>,
    /// How many junctions an enemy remembers.
    pub history_limit: u32,
    /// The speed of an enemy that is not vulnerable.
    pub enemy_starting_speed: i32,
    /// The speed of the player.
    pub player_speed: i32,
    /// The score for each further life.
    pub life_gain_threshold: i32,
    /// The score for a pellet.
    pub score_increase_per_pellet: i32,
    /// The score for a power pellet.
    pub score_increase_per_power_pellet: i32,
    /// The score for the first enemy caught after a power pellet.
    pub score_increase_base_per_ghost_catch: i32,
    /// An enemy is frozen for its index times this many ticks when a level
    /// starts.
    pub start_immobilized_base: i32,
}

/// By how much a vulnerable enemy is slower than another.
pub const VULNERABLE_SLOWDOWN: i32 = 4;

/// The model of a configuration.
pub struct ConfigView {
    pub seed: u64,
    pub board: Seq<Seq<char>>,
    pub player_start: Point,
    pub start_lives: int,
    pub vulnerable_time: int,
    pub immobilized_time: int,
    pub enemies: Seq<MovementAI>,
    pub history_limit: int,
    pub enemy_starting_speed: int,
    pub player_speed: int,
    pub life_gain_threshold: int,
    pub score_increase_per_pellet: int,
    pub score_increase_per_power_pellet: int,
    pub score_increase_base_per_ghost_catch: int,
    pub start_immobilized_base: int,
}

impl View for Pacman {
    type V = ConfigView;

    open spec fn view(&self) -> ConfigView {
        ConfigView {
            seed: self.seed,
            board: text_of(self.board@),
            player_start: self.player_start@,
            start_lives: self.start_lives as int,
            vulnerable_time: self.vulnerable_time as int,
            immobilized_time: self.immobilized_time as int,
            enemies: self.enemies@,
            history_limit: self.history_limit as int,
            enemy_starting_speed: self.enemy_starting_speed as int,
            player_speed: self.player_speed as int,
            life_gain_threshold: self.life_gain_threshold as int,
            score_increase_per_pellet: self.score_increase_per_pellet as int,
            score_increase_per_power_pellet: self.score_increase_per_power_pellet as int,
            score_increase_base_per_ghost_catch: self.score_increase_base_per_ghost_catch as int,
            start_immobilized_base: self.start_immobilized_base as int,
        }
    }
}

/// Whether a strategy is one of an enemy whose start has a world position.
pub open spec fn enemy_ai(ai: MovementAI) -> bool {
    ai matches MovementAI::EnemyRandomMvmt { start, .. } && tile_in_range(start@)
}

impl ConfigView {
    /// The speed of a vulnerable enemy.
    pub open spec fn vulnerable_speed(self) -> int {
        self.enemy_starting_speed - VULNERABLE_SLOWDOWN
    }

    /// The largest magnitude of a speed that the rules give an enemy.
    pub open spec fn enemy_reach(self) -> int {
        if magnitude(self.enemy_starting_speed) >= magnitude(self.vulnerable_speed()) {
            magnitude(self.enemy_starting_speed)
        } else {
            magnitude(self.vulnerable_speed())
        }
    }

    /// Whether the level's text describes a board.
    pub open spec fn board_ok(self) -> bool {
        all_codes_valid(self.board) && text_rectangular(self.board) && text_fits(self.board)
    }

    /// Whether a game can be created from the configuration without leaving
    /// what `i32` can hold: the level's text is within what coordinates can
    /// count, the starting tiles have world positions, every enemy has an
    /// enemy's strategy, the speed of a vulnerable enemy and the freeze of
    /// the last enemy at a level's start fit.
    pub open spec fn valid(self) -> bool {
        &&& text_small(self.board)
        &&& tile_in_range(self.player_start)
        &&& forall|i: int| 0 <= i < self.enemies.len() ==> enemy_ai(#[trigger] self.enemies[i])
        &&& self.vulnerable_speed() >= i32::MIN
        &&& self.enemies.len() * magnitude(self.start_immobilized_base) <= i32::MAX
    }
}

impl Clone for Pacman {
    fn clone(&self) -> (copy: Pacman)
        ensures
            copy@ == self@,
    {
        let mut board: Vec<String> = Vec::new();
        let mut r: usize = 0;
        while r < self.board.len()
            invariant
                r <= self.board.len(),
                board.len() == r,
                forall|i: int| 0 <= i < r ==> (#[trigger] board[i])@ == self.board[i]@,
            decreases self.board.len() - r,
        {
            board.push(self.board[r].clone());
            r = r + 1;
        }
        let mut enemies: Vec<MovementAI> = Vec::new();
        let mut k: usize = 0;
        while k < self.enemies.len()
            invariant
                k <= self.enemies.len(),
                enemies.len() == k,
                forall|i: int| 0 <= i < k ==> #[trigger] enemies[i] == self.enemies[i],
            decreases self.enemies.len() - k,
        {
            enemies.push(self.enemies[k]);
            k = k + 1;
        }
        let copy = Pacman {
            seed: self.seed,
            board,
            player_start: self.player_start,
            start_lives: self.start_lives,
            vulnerable_time: self.vulnerable_time,
            immobilized_time: self.immobilized_time,
            enemies,
            history_limit: self.history_limit,
            enemy_starting_speed: self.enemy_starting_speed,
            player_speed: self.player_speed,
            life_gain_threshold: self.life_gain_threshold,
            score_increase_per_pellet: self.score_increase_per_pellet,
            score_increase_per_power_pellet: self.score_increase_per_power_pellet,
            score_increase_base_per_ghost_catch: self.score_increase_base_per_ghost_catch,
            start_immobilized_base: self.start_immobilized_base,
        };
        assert(copy@.board =~= self@.board);
        assert(copy@.enemies =~= self@.enemies);
        copy
    }
}

impl Pacman {
    /// Whether a game can be created from this configuration (see
    /// `ConfigView::valid`). Of the level's text only the size is looked at:
    /// creating the game reports what else is wrong with it.
    pub fn is_valid(&self) -> (b: bool)
        ensures
            b == self@.valid(),
    {
        if !Board::text_is_small(self.board.as_slice()) {
            return false;
        }
        if !in_range(&self.player_start) {
            return false;
        }
        if self.enemy_starting_speed < i32::MIN + VULNERABLE_SLOWDOWN {
            return false;
        }
        let n: usize = self.enemies.len();
        let base: i64 = if self.start_immobilized_base >= 0 {
            self.start_immobilized_base as i64
        } else {
            -(self.start_immobilized_base as i64)
        };
        if n > 0x7fff_ffff {
            if base != 0 {
                assert(n * base > i32::MAX) by (nonlinear_arith)
                    requires
                        n > 0x7fff_ffff,
                        base >= 1,
                ;
                return false;
            }
            assert(n * base == 0) by (nonlinear_arith)
                requires
                    base == 0,
            ;
        } else {
            assert(0 <= n * base <= 0x7fff_ffff * 0x8000_0000) by (nonlinear_arith)
                requires
                    0 <= n <= 0x7fff_ffff,
                    0 <= base <= 0x8000_0000,
            ;
            if (n as i64) * base > 0x7fff_ffff {
                return false;
            }
        }
        let mut i: usize = 0;
        while i < n
            invariant
                n == self.enemies.len(),
                i <= n,
                forall|j: int| 0 <= j < i ==> enemy_ai(#[trigger] self.enemies[j]),
            decreases n - i,
        {
            match self.enemies[i] {
                MovementAI::Player => {
                    return false;
                },
                MovementAI::EnemyRandomMvmt { start, .. } => {
                    if !in_range(&start) {
                        return false;
                    }
                },
            }
            i = i + 1;
        }
        true
    }
}

/// Whether a tile has a world position.
pub fn in_range(tile: &TilePoint) -> (b: bool)
    ensures
        b == tile_in_range(tile@),
{
    -MAX_TILE_COORD <= tile.tx && tile.tx <= MAX_TILE_COORD && -MAX_TILE_COORD <= tile.ty
        && tile.ty <= MAX_TILE_COORD
}

} // verus!
