//! A running game: the player, the enemies and the board, and the tick that
//! moves them on.

use crate::ai::MovementAI;
use crate::board::{
    grid_height, grid_of, grid_width, refusal, shape_refusal, text_fits, text_rectangular,
    text_small, tile_at, Board, BoardError,
};
use crate::config::{enemy_ai, ConfigView, Pacman};
use crate::geometry::{tile_in_range, world_of, Point, TilePoint, WorldPoint};
use crate::mob::{magnitude, Mob, MobView};
use crate::random::{generator_seeded_with, seeded_generator};
use crate::rules::{collision, fresh_enemy, EnemyPlayerState, GameView};
use rand::rngs::StdRng;
use vstd::arithmetic::power2::pow2;
use vstd::prelude::*;

verus! {

/// What changes from tick to tick.
#[derive(Debug)]
pub struct StateCore {
    /// The generator that the enemies' random choices come from.
    pub rand: StdRng,
    /// The points that the player has earned.
    pub score: i32,
    /// The lives that the player has left.
    pub lives: i32,
    /// The level, counted from one.
    pub level: i32,
    /// The player.
    pub player: Mob,
    /// What the next catch of an enemy is multiplied by; it doubles with
    /// each catch after one power pellet.
    pub enemies_caught_multiplier: i32,
    /// The enemies.
    pub enemies: Vec<Mob>,
    /// The board as it is now.
    pub board: Board,
    /// For how many more ticks the enemies stay vulnerable.
    pub vulnerability_timer: i32,
    /// How many lives the score has given so far.
    pub lives_gained: i32,
}

/// A game: its configuration and its current state.
#[derive(Debug)]
pub struct State {
    /// The configuration that the game was created from.
    pub config: Pacman,
    /// The state of the current tick.
    pub state: StateCore,
}

impl View for StateCore {
    type V = GameView;

    open spec fn view(&self) -> GameView {
        GameView {
            score: self.score as int,
            lives: self.lives as int,
            level: self.level as int,
            vulnerability_timer: self.vulnerability_timer as int,
            enemies_caught_multiplier: self.enemies_caught_multiplier as int,
            lives_gained: self.lives_gained as int,
            player: self.player@,
            enemies: Seq::new(self.enemies.len() as nat, |i: int| self.enemies[i]@),
            board: self.board@,
        }
    }
}

impl View for State {
    type V = GameView;

    open spec fn view(&self) -> GameView {
        self.state@
    }
}

/// Why the parts of a saved game do not make a game.
#[derive(Clone, Copy, Debug, PartialEq, Eq, Structural)]
pub enum RestoreError {
    /// The configuration is not valid.
    Config,
    /// The configuration's level is refused, for this reason.
    Level(BoardError),
    /// The saved board is beyond what coordinates can count.
    BoardSize,
    /// The tiles of the saved board are refused, for this reason.
    Board(BoardError),
    /// The player is not steered by input.
    Player,
    /// The enemy of this index has no enemy's strategy, or starts where no
    /// tile has a world position.
    Enemy { index: usize },
    /// There are more enemies than can be frozen in turn at a level's start.
    TooManyEnemies,
}

/// Whether `index` is the first enemy without an enemy's strategy.
pub open spec fn first_bad_enemy(s: GameView, index: int) -> bool {
    &&& 0 <= index < s.enemies.len()
    &&& !enemy_ai(s.enemies[index].ai)
    &&& forall|j: int| 0 <= j < index ==> enemy_ai((#[trigger] s.enemies[j]).ai)
}

/// Whether `e` says what is wrong with the parts of a saved game. The
/// configuration is looked at first, then its level, the saved board's size
/// and shape, the player, the enemies in their order, and their number.
pub open spec fn restore_refusal(cfg: ConfigView, s: GameView, e: RestoreError) -> bool {
    match e {
        RestoreError::Config => !cfg.valid(),
        RestoreError::Level(b) => cfg.valid() && refusal(cfg.board, b),
        RestoreError::BoardSize => cfg.valid() && cfg.board_ok() && !text_small(s.board),
        RestoreError::Board(b) => {
            &&& cfg.valid() && cfg.board_ok()
            &&& text_small(s.board)
            &&& shape_refusal(s.board, b)
        },
        RestoreError::Player => {
            &&& cfg.valid() && cfg.board_ok()
            &&& text_rectangular(s.board) && text_fits(s.board)
            &&& !s.player.is_player()
        },
        RestoreError::Enemy { index } => {
            &&& cfg.valid() && cfg.board_ok()
            &&& text_rectangular(s.board) && text_fits(s.board)
            &&& s.player.is_player()
            &&& first_bad_enemy(s, index as int)
        },
        RestoreError::TooManyEnemies => {
            &&& cfg.valid() && cfg.board_ok()
            &&& text_rectangular(s.board) && text_fits(s.board)
            &&& s.player.is_player()
            &&& forall|j: int| 0 <= j < s.enemies.len() ==> enemy_ai((#[trigger] s.enemies[j]).ai)
            &&& s.enemies.len() * magnitude(cfg.start_immobilized_base) > i32::MAX
        },
    }
}

/// The larger of two integers.
pub open spec fn larger(a: int, b: int) -> int {
    if a >= b {
        a
    } else {
        b
    }
}

/// Whether an enemy has room for one tick: the tile it walks to has a world
/// position, and a move by any speed that the rules give it ends within
/// `i32`.
pub open spec fn enemy_has_room(cfg: ConfigView, e: MobView) -> bool {
    &&& e.step matches Some(t) ==> tile_in_range(t)
    &&& magnitude(e.position.x) + cfg.enemy_reach() <= i32::MAX
    &&& magnitude(e.position.y) + cfg.enemy_reach() <= i32::MAX
}

/// The largest magnitude that the multiplier can reach in one tick: every
/// enemy may be caught once, and each catch doubles it.
pub open spec fn multiplier_ceiling(s: GameView) -> int {
    larger(1, magnitude(s.enemies_caught_multiplier)) * pow2(s.enemies.len())
}

/// The most by which the score can change in one tick: what the player
/// collects, and the catches.
pub open spec fn score_swing(cfg: ConfigView, s: GameView) -> int {
    larger(
        magnitude(cfg.score_increase_per_pellet),
        magnitude(cfg.score_increase_per_power_pellet),
    ) + magnitude(cfg.score_increase_base_per_ghost_catch) * multiplier_ceiling(s)
}

/// What holds of a game between ticks, whatever has happened: the board is
/// as tall and wide as recorded, the player alone is steered by input, and
/// every enemy can be sent back to its start.
pub open spec fn game_wf(cfg: ConfigView, s: GameView) -> bool {
    &&& cfg.valid()
    &&& cfg.board_ok()
    &&& s.player.ai is Player
    &&& forall|i: int| 0 <= i < s.enemies.len() ==> enemy_ai((#[trigger] s.enemies[i]).ai)
    &&& s.enemies.len() * magnitude(cfg.start_immobilized_base) <= i32::MAX
}

/// Whether one tick stays within what `i32` can hold: the mobs have room to
/// move, the counters can go up or down by one, and the score and the
/// multiplier have room for everything that a tick can add.
pub open spec fn game_has_room(cfg: ConfigView, s: GameView) -> bool {
    &&& s.player.has_room()
    &&& forall|i: int| 0 <= i < s.enemies.len() ==> enemy_has_room(cfg, #[trigger] s.enemies[i])
    &&& i32::MIN < s.lives < i32::MAX
    &&& s.lives_gained < i32::MAX
    &&& s.level < i32::MAX
    &&& multiplier_ceiling(s) <= i32::MAX
    &&& magnitude(s.score) + score_swing(cfg, s) <= i32::MAX
}

/// The game as it starts from a configuration.
pub open spec fn new_game(cfg: ConfigView) -> GameView {
    GameView {
        score: 0,
        lives: cfg.start_lives,
        level: 1,
        vulnerability_timer: 0,
        enemies_caught_multiplier: 1,
        lives_gained: 0,
        player: MobView {
            ai: MovementAI::Player,
            position: world_of(cfg.player_start),
            vulnerable: false,
            speed: cfg.player_speed,
            step: None,
            history: Seq::empty(),
            immobilized_timer: 0,
        },
        enemies: Seq::new(
            cfg.enemies.len(),
            |i: int|
                fresh_enemy(
                    cfg,
                    MobView {
                        ai: cfg.enemies[i],
                        position: Point { x: 0, y: 0 },
                        vulnerable: false,
                        speed: cfg.enemy_starting_speed,
                        step: None,
                        history: Seq::empty(),
                        immobilized_timer: 0,
                    },
                    i,
                ),
        ),
        board: grid_of(cfg.board),
    }
}

/// The game with the player back at its start and, unless the player died,
/// every enemy back at its own, frozen the longer the higher its index.
pub open spec fn restarted_game(cfg: ConfigView, s: GameView, player_death: bool) -> GameView {
    GameView {
        player: s.player.restarted(cfg.player_start),
        enemies: if player_death {
            s.enemies
        } else {
            Seq::new(s.enemies.len(), |i: int| fresh_enemy(cfg, s.enemies[i], i))
        },
        ..s
    }
}

impl State {
    /// The invariant of a game: that of its board, and `game_wf`.
    pub open spec fn wf(&self) -> bool {
        self.state.board.wf() && game_wf(self.config@, self@)
    }

    /// Whether the game has room for one more tick (see `game_has_room`).
    pub open spec fn has_room(&self) -> bool {
        game_has_room(self.config@, self@)
    }

    /// Creates a game from a configuration: the board is read from its
    /// text, the player and the enemies stand at their starts, each enemy is
    /// frozen for its index times the configured base, and the generator is
    /// the one of the configured seed. A text that
    /// describes no board is refused with what is wrong with it.
    pub fn try_new(config: &Pacman) -> (r: Result<State, BoardError>)
        requires
            config@.valid(),
        ensures
            match r {
                Ok(state) => {
                    &&& config@.board_ok()
                    &&& state.config@ == config@
                    &&& state@ == new_game(config@)
                    &&& state.state.rand == generator_seeded_with(config.seed)
                    &&& state.wf()
                },
                Err(e) => refusal(config@.board, e),
            },
    {
        let board = match Board::try_new(config.board.as_slice()) {
            Ok(board) => board,
            Err(e) => {
                return Err(e);
            },
        };
        let config = config.clone();
        let ghost cfg = config@;
        let mut enemies: Vec<Mob> = Vec::new();
        let mut i: usize = 0;
        while i < config.enemies.len()
            invariant
                i <= config.enemies.len(),
                config@ == cfg,
                cfg.valid(),
                enemies.len() == i,
                forall|j: int|
                    0 <= j < i ==> (#[trigger] enemies[j])@ == (MobView {
                        immobilized_timer: 0,
                        ..new_game(cfg).enemies[j]
                    }),
            decreases config.enemies.len() - i,
        {
            assert(enemy_ai(cfg.enemies[i as int]));
            let enemy = board.make_enemy(config.enemies[i], config.enemy_starting_speed);
            enemies.push(enemy);
            i = i + 1;
        }
        let player = Mob::new_player(config.player_start.to_world(), config.player_speed);
        let core = StateCore {
            rand: seeded_generator(config.seed),
            lives: config.start_lives,
            score: 0,
            vulnerability_timer: 0,
            enemies_caught_multiplier: 1,
            lives_gained: 0,
            level: 1,
            player,
            enemies,
            board,
        };
        let mut state = State { config, state: core };
        proof {
            assert forall|j: int| 0 <= j < state@.enemies.len() implies enemy_ai(
                (#[trigger] state@.enemies[j]).ai,
            ) by {
                assert(enemy_ai(cfg.enemies[j]));
            }
        }
        state.reset(false);
        proof {
            assert(state@.enemies =~= new_game(cfg).enemies);
            assert(state@ == new_game(cfg));
            assert forall|j: int| 0 <= j < state@.enemies.len() implies enemy_ai(
                (#[trigger] state@.enemies[j]).ai,
            ) by {
                assert(enemy_ai(cfg.enemies[j]));
            }
        }
        Ok(state)
    }

    /// Puts a game together from a configuration and a saved state. The
    /// junctions of the saved board are found anew from its tiles; everything
    /// else is taken as it is. What does not make a game is refused with the
    /// first thing that is wrong with it.
    pub fn restore(config: Pacman, core: StateCore) -> (r: Result<State, RestoreError>)
        ensures
            match r {
                Ok(state) => {
                    &&& state.wf()
                    &&& state.config == config
                    &&& state@ == core@
                    &&& state.state.rand == core.rand
                },
                Err(e) => restore_refusal(config@, core@, e),
            },
    {
        let ghost cfg = config@;
        let ghost s = core@;
        if !config.is_valid() {
            return Err(RestoreError::Config);
        }
        if let Err(e) = Board::try_new(config.board.as_slice()) {
            return Err(RestoreError::Level(e));
        }
        let StateCore {
            rand,
            score,
            lives,
            level,
            player,
            enemies_caught_multiplier,
            enemies,
            board,
            vulnerability_timer,
            lives_gained,
        } = core;
        let Board { tiles, .. } = board;
        assert(Seq::new(tiles.len() as nat, |i: int| tiles[i]@) =~= s.board);
        if !Board::tiles_are_small(&tiles) {
            return Err(RestoreError::BoardSize);
        }
        let board = match Board::from_tiles(tiles) {
            Ok(board) => board,
            Err(e) => {
                return Err(RestoreError::Board(e));
            },
        };
        assert(board@ =~= s.board);
        if !player.is_player() {
            return Err(RestoreError::Player);
        }
        let n: usize = enemies.len();
        let mut i: usize = 0;
        while i < n
            invariant
                i <= n,
                n == enemies.len(),
                s.enemies == Seq::new(enemies.len() as nat, |k: int| enemies[k]@),
                cfg == config@,
                s == core@,
                cfg.valid(),
                cfg.board_ok(),
                text_rectangular(s.board),
                text_fits(s.board),
                s.player.is_player(),
                forall|j: int| 0 <= j < i ==> enemy_ai((#[trigger] s.enemies[j]).ai),
            decreases n - i,
        {
            let ok = match enemies[i].ai {
                MovementAI::Player => false,
                MovementAI::EnemyRandomMvmt { start, .. } => crate::config::in_range(&start),
            };
            assert(ok == enemy_ai(s.enemies[i as int].ai));
            if !ok {
                return Err(RestoreError::Enemy { index: i });
            }
            i = i + 1;
        }
        let base: i64 = if config.start_immobilized_base >= 0 {
            config.start_immobilized_base as i64
        } else {
            -(config.start_immobilized_base as i64)
        };
        if base != 0 {
            if n > 0x7fff_ffff {
                assert(n * base > i32::MAX) by (nonlinear_arith)
                    requires
                        n > 0x7fff_ffff,
                        base >= 1,
                ;
                return Err(RestoreError::TooManyEnemies);
            }
            assert(0 <= n * base <= 0x7fff_ffff * 0x8000_0000) by (nonlinear_arith)
                requires
                    0 <= n <= 0x7fff_ffff,
                    0 <= base <= 0x8000_0000,
            ;
            if (n as i64) * base > 0x7fff_ffff {
                return Err(RestoreError::TooManyEnemies);
            }
        } else {
            assert(n * base == 0) by (nonlinear_arith)
                requires
                    base == 0,
            ;
        }
        let state = State {
            config,
            state: StateCore {
                rand,
                score,
                lives,
                level,
                player,
                enemies_caught_multiplier,
                enemies,
                board,
                vulnerability_timer,
                lives_gained,
            },
        };
        assert(state@.enemies =~= s.enemies);
        Ok(state)
    }

    /// The lives that the player has left.
    pub fn lives(&self) -> (n: i32)
        ensures
            n == self@.lives,
    {
        self.state.lives
    }

    /// The points that the player has earned.
    pub fn score(&self) -> (n: i32)
        ensures
            n == self@.score,
    {
        self.state.score
    }

    /// The level, counted from one.
    pub fn level(&self) -> (n: i32)
        ensures
            n == self@.level,
    {
        self.state.level
    }

    /// The world position just past the far corner of the board, with a
    /// margin of one tile.
    pub fn board_size(&self) -> (p: WorldPoint)
        requires
            self.state.board.shaped(),
        ensures
            p@ == world_of(
                Point { x: grid_width(self@.board) + 1, y: grid_height(self@.board) + 1 },
            ),
    {
        let th: i32 = self.state.board.height as i32;
        let tw: i32 = self.state.board.width as i32;
        TilePoint::new(tw + 1, th + 1).to_world()
    }

    /// Compares the player with an enemy: they collide when they stand on
    /// the same tile, wherever on it.
    pub fn check_enemy_player_collision(&self, enemy: &Mob, enemy_id: usize) -> (c:
        EnemyPlayerState)
        ensures
            c == collision(self@.player, enemy@, enemy_id as int),
    {
        if self.state.player.position.to_tile() == enemy.position.to_tile() {
            if enemy.vulnerable {
                EnemyPlayerState::EnemyCatch(enemy_id)
            } else {
                EnemyPlayerState::PlayerDeath
            }
        } else {
            EnemyPlayerState::Miss
        }
    }

    /// Whether a mob stands on a teleport tile.
    pub fn check_teleport(&self, mob: &Mob) -> (b: bool)
        ensures
            b == (tile_at(self@.board, mob@.tile()) is Teleport),
    {
        let current_tile = mob.position.to_tile();
        self.state.board.is_tp(&current_tile)
    }

    /// Sends the player back to its start. Unless the player died, every
    /// enemy goes back to its own start too and is frozen for its index
    /// times the configured base.
    pub fn reset(&mut self, player_death: bool)
        requires
            game_wf(old(self).config@, old(self)@),
        ensures
            final(self)@ == restarted_game(old(self).config@, old(self)@, player_death),
            final(self).config == old(self).config,
            final(self).state.board == old(self).state.board,
            final(self).state.rand == old(self).state.rand,
    {
        let ghost cfg = self.config@;
        let ghost s = self@;
        self.state.player.reset(&self.config.player_start, &self.state.board);
        if !player_death {
            let n: usize = self.state.enemies.len();
            let mut i: usize = 0;
            while i < n
                invariant
                    i <= n,
                    n == self.state.enemies.len(),
                    n == s.enemies.len(),
                    self.config@ == cfg,
                    self.config == old(self).config,
                    self.state.board == old(self).state.board,
                    self.state.rand == old(self).state.rand,
                    game_wf(cfg, s),
                    self@ == (GameView { enemies: self@.enemies, ..restarted_game(cfg, s, true) }),
                    forall|j: int| 0 <= j < i ==> self@.enemies[j] == fresh_enemy(cfg, s.enemies[j], j),
                    forall|j: int| i <= j < n ==> self@.enemies[j] == s.enemies[j],
                decreases n - i,
            {
                let ghost before = self@.enemies;
                assert(enemy_ai(s.enemies[i as int].ai));
                assert(before[i as int] == s.enemies[i as int]);
                assert(i * magnitude(cfg.start_immobilized_base) <= n * magnitude(
                    cfg.start_immobilized_base,
                )) by (nonlinear_arith)
                    requires
                        i <= n,
                        magnitude(cfg.start_immobilized_base) >= 0,
                ;
                assert(magnitude(i * cfg.start_immobilized_base) == i * magnitude(
                    cfg.start_immobilized_base,
                )) by (nonlinear_arith)
                    requires
                        i >= 0,
                ;
                let base: i32 = self.config.start_immobilized_base;
                let freeze: i32 = if base == 0 {
                    0
                } else {
                    assert(i <= i * magnitude(base as int)) by (nonlinear_arith)
                        requires
                            i >= 0,
                            magnitude(base as int) >= 1,
                    ;
                    (i as i32) * base
                };
                let e = &mut self.state.enemies[i];
                e.reset(&self.config.player_start, &self.state.board);
                e.immobilized_timer = freeze;
                assert(self@.enemies =~= before.update(i as int, fresh_enemy(cfg, s.enemies[i as int], i as int)));
                i = i + 1;
            }
            assert(self@.enemies =~= restarted_game(cfg, s, false).enemies);
        }
    }
}

} // verus!
