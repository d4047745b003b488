//! The rules of one tick, stated over the models of a game's parts.
//!
//! A tick runs in a fixed order: the player's turn, the collisions before
//! the enemies move, the enemies' turn, the collisions after it, the
//! teleports, the resolution of the collisions, and the end of the tick.

use crate::ai::choice_allowed;
use crate::board::{grid_complete, grid_of, tile_at, Grid};
use crate::config::ConfigView;
use crate::geometry::{Direction, Input};
use crate::mob::MobView;
use vstd::prelude::*;

verus! {

/// What comparing the player with one enemy gives.
#[derive(Clone, Copy, Debug, PartialEq, Eq, Structural)]
pub enum EnemyPlayerState {
    /// They stand on different tiles.
    Miss,
    /// They stand on the same tile and the enemy is not vulnerable: the
    /// player dies.
    PlayerDeath,
    /// They stand on the same tile and the enemy is vulnerable: the player
    /// catches the enemy with this index.
    EnemyCatch(usize),
}

/// The model of a running game.
pub struct GameView {
    pub score: int,
    pub lives: int,
    pub level: int,
    pub vulnerability_timer: int,
    pub enemies_caught_multiplier: int,
    pub lives_gained: int,
    pub player: MobView,
    pub enemies: Seq<MobView>,
    pub board: Grid,
}

/// What the collisions of a tick have led to so far.
pub struct Resolution {
    /// Whether the player has died; nothing is resolved after that.
    pub dead: bool,
    pub score: int,
    pub multiplier: int,
    pub enemies: Seq<MobView>,
    /// The indices of the enemies caught in this tick.
    pub caught: Set<int>,
}

/// The score for what the player collected in a tick.
pub open spec fn pickup_score(cfg: ConfigView, s: GameView) -> int {
    match s.player.pickup(s.board) {
        Some(u) => u.pellets_collected * cfg.score_increase_per_pellet + u.power_pellets_collected
            * cfg.score_increase_per_power_pellet,
        None => 0,
    }
}

/// Whether the player collects a power pellet in a tick.
pub open spec fn arms(s: GameView) -> bool {
    s.player.pickup(s.board) matches Some(u) && u.power_pellets_collected > 0
}

/// The countdown of vulnerability once the player has moved: a power pellet
/// sets it to the configured duration.
pub open spec fn armed_timer(cfg: ConfigView, s: GameView) -> int {
    if arms(s) {
        cfg.vulnerable_time
    } else {
        s.vulnerability_timer
    }
}

/// An enemy's vulnerability once the player has moved: a power pellet makes
/// it vulnerable, and a countdown that stands at zero ends that.
pub open spec fn flagged(cfg: ConfigView, s: GameView, e: MobView) -> MobView {
    MobView {
        vulnerable: if armed_timer(cfg, s) == 0 {
            false
        } else if arms(s) {
            true
        } else {
            e.vulnerable
        },
        ..e
    }
}

/// A mob that stands on a teleport tile goes through it.
pub open spec fn landed(m: MobView, g: Grid) -> MobView {
    if tile_at(g, m.tile()) is Teleport {
        m.teleported(g)
    } else {
        m
    }
}

/// The game after the player's turn: the player moves and collects, a power
/// pellet arms the countdown and resets the multiplier, the enemies'
/// vulnerability is set, the player goes through a teleport it stands on, and
/// the countdown runs.
pub open spec fn player_turn(cfg: ConfigView, s: GameView, buttons: Input) -> GameView {
    let board = s.player.grid_after_update(s.board);
    let timer = armed_timer(cfg, s);
    GameView {
        score: s.score + pickup_score(cfg, s),
        vulnerability_timer: if timer > 0 {
            timer - 1
        } else {
            timer
        },
        enemies_caught_multiplier: if arms(s) {
            1
        } else {
            s.enemies_caught_multiplier
        },
        player: landed(s.player.updated(s.board, buttons, cfg.history_limit, None), board),
        enemies: Seq::new(s.enemies.len(), |i: int| flagged(cfg, s, s.enemies[i])),
        board,
        ..s
    }
}

/// What comparing the player with the enemy of index `id` gives: they
/// collide when they stand on the same tile.
pub open spec fn collision(player: MobView, enemy: MobView, id: int) -> EnemyPlayerState {
    if player.tile() == enemy.tile() {
        if enemy.vulnerable {
            EnemyPlayerState::EnemyCatch(id as usize)
        } else {
            EnemyPlayerState::PlayerDeath
        }
    } else {
        EnemyPlayerState::Miss
    }
}

/// The collisions of the player with the first `k` enemies, in the order of
/// the enemies; a miss is left out.
pub open spec fn collisions(player: MobView, enemies: Seq<MobView>, k: int) -> Seq<
    EnemyPlayerState,
>
    decreases k,
{
    if k <= 0 {
        Seq::empty()
    } else {
        let before = collisions(player, enemies, k - 1);
        let c = collision(player, enemies[k - 1], k - 1);
        if c is Miss {
            before
        } else {
            before.push(c)
        }
    }
}

/// An enemy with its speed for this tick and its freeze run down by one
/// tick: a frozen enemy stands still, a vulnerable one is slower.
pub open spec fn retimed(cfg: ConfigView, e: MobView) -> MobView {
    MobView {
        speed: if e.immobilized_timer > 0 {
            0
        } else if e.vulnerable {
            cfg.vulnerable_speed()
        } else {
            cfg.enemy_starting_speed
        },
        immobilized_timer: if e.immobilized_timer > 0 {
            e.immobilized_timer - 1
        } else {
            e.immobilized_timer
        },
        ..e
    }
}

/// An enemy after its move in a tick, where `choice` is what its random
/// choice gives if it makes one.
pub open spec fn enemy_moved(cfg: ConfigView, e: MobView, g: Grid, choice: Option<Direction>) -> MobView {
    retimed(cfg, e).updated(g, Input::idle(), cfg.history_limit, choice)
}

/// A caught enemy: back at its start, not vulnerable, and frozen for the
/// configured time.
pub open spec fn caught_enemy(cfg: ConfigView, e: MobView) -> MobView {
    MobView { immobilized_timer: cfg.immobilized_time, ..e.restarted(cfg.player_start) }
}

/// The enemy of index `i` as a level starts: at its start, and frozen the
/// longer the higher its index.
pub open spec fn fresh_enemy(cfg: ConfigView, e: MobView, i: int) -> MobView {
    MobView {
        immobilized_timer: i * cfg.start_immobilized_base,
        ..e.restarted(cfg.player_start)
    }
}

/// Resolves one collision. After the player's death nothing is resolved. A
/// death halts the resolution. A catch counts once per enemy and tick: it
/// scores the base times the multiplier, doubles the multiplier, and sends
/// the enemy back.
pub open spec fn resolve_one(cfg: ConfigView, r: Resolution, c: EnemyPlayerState) -> Resolution {
    if r.dead {
        r
    } else {
        match c {
            EnemyPlayerState::Miss => r,
            EnemyPlayerState::PlayerDeath => Resolution { dead: true, ..r },
            EnemyPlayerState::EnemyCatch(i) => if r.caught.contains(i as int) || i
                >= r.enemies.len() {
                r
            } else {
                Resolution {
                    score: r.score + cfg.score_increase_base_per_ghost_catch * r.multiplier,
                    multiplier: r.multiplier * 2,
                    enemies: r.enemies.update(i as int, caught_enemy(cfg, r.enemies[i as int])),
                    caught: r.caught.insert(i as int),
                    ..r
                }
            },
        }
    }
}

/// Resolves collisions in their order.
pub open spec fn resolved(cfg: ConfigView, start: Resolution, events: Seq<EnemyPlayerState>) -> Resolution
    decreases events.len(),
{
    if events.len() == 0 {
        start
    } else {
        resolve_one(cfg, resolved(cfg, start, events.drop_last()), events.last())
    }
}

/// Whether the score has passed the mark for the next life.
pub open spec fn earns_life(cfg: ConfigView, score: int, lives_gained: int) -> bool {
    score > (lives_gained + 1) * cfg.life_gain_threshold
}

/// The end of a tick. A score past the mark gives one life. Then a death
/// takes one life, puts the score back to `score_before`, the score when the
/// tick began, and sends the player alone back to its start. Without a
/// death, a board with nothing left to collect ends the level: everybody
/// goes back to their start, the level counts up, the countdown stops, and
/// the board is laid out anew.
pub open spec fn finished(cfg: ConfigView, s: GameView, dead: bool, score_before: int) -> GameView {
    let gain = earns_life(cfg, s.score, s.lives_gained);
    let lives = if gain {
        s.lives + 1
    } else {
        s.lives
    };
    let lives_gained = if gain {
        s.lives_gained + 1
    } else {
        s.lives_gained
    };
    if dead {
        GameView {
            lives: lives - 1,
            lives_gained,
            score: score_before,
            player: s.player.restarted(cfg.player_start),
            ..s
        }
    } else if grid_complete(s.board) {
        GameView {
            lives,
            lives_gained,
            level: s.level + 1,
            vulnerability_timer: 0,
            player: s.player.restarted(cfg.player_start),
            enemies: Seq::new(s.enemies.len(), |i: int| fresh_enemy(cfg, s.enemies[i], i)),
            board: grid_of(cfg.board),
            ..s
        }
    } else {
        GameView { lives, lives_gained, ..s }
    }
}

/// The enemies after their moves, where `choices[i]` is what the random
/// choice of enemy `i` gives if it makes one.
pub open spec fn enemies_moved(cfg: ConfigView, a: GameView, choices: Seq<Option<Direction>>) -> Seq<
    MobView,
> {
    Seq::new(a.enemies.len(), |i: int| enemy_moved(cfg, a.enemies[i], a.board, choices[i]))
}

/// The collisions of a tick in the order in which they are resolved: those
/// before the enemies moved, then those after.
pub open spec fn tick_events(cfg: ConfigView, a: GameView, choices: Seq<Option<Direction>>) -> Seq<
    EnemyPlayerState,
> {
    let moved = enemies_moved(cfg, a, choices);
    collisions(a.player, a.enemies, a.enemies.len() as int) + collisions(
        a.player,
        moved,
        moved.len() as int,
    )
}

/// The state in which the resolution of a game's collisions begins.
pub open spec fn unresolved(s: GameView) -> Resolution {
    Resolution {
        dead: false,
        score: s.score,
        multiplier: s.enemies_caught_multiplier,
        enemies: s.enemies,
        caught: Set::empty(),
    }
}

/// The game with what the resolution of its collisions changed.
pub open spec fn settled(s: GameView, r: Resolution) -> GameView {
    GameView { score: r.score, enemies_caught_multiplier: r.multiplier, enemies: r.enemies, ..s }
}

/// The game `a` once the enemies have moved and gone through the teleports
/// they stand on.
pub open spec fn enemies_turn(cfg: ConfigView, a: GameView, choices: Seq<Option<Direction>>) -> GameView {
    let moved = enemies_moved(cfg, a, choices);
    GameView { enemies: Seq::new(moved.len(), |i: int| landed(moved[i], a.board)), ..a }
}

/// What the collisions of a tick lead to, from the game `a` after the
/// player's turn. The enemies have moved and gone through the teleports
/// they stand on before anything is resolved.
pub open spec fn tick_resolution(cfg: ConfigView, a: GameView, choices: Seq<Option<Direction>>) -> Resolution {
    resolved(cfg, unresolved(enemies_turn(cfg, a, choices)), tick_events(cfg, a, choices))
}

/// The game after one tick with the input `buttons`, where `choices[i]` is
/// what the random choice of enemy `i` gives if it makes one.
pub open spec fn tick(
    cfg: ConfigView,
    s: GameView,
    buttons: Input,
    choices: Seq<Option<Direction>>,
) -> GameView {
    let a = player_turn(cfg, s, buttons);
    let r = tick_resolution(cfg, a, choices);
    finished(cfg, settled(enemies_turn(cfg, a, choices), r), r.dead, s.score)
}

/// Whether no enemy asks the generator in a tick: none that walks to no tile
/// once it has moved stands where it decides anew with a direction to
/// choose.
pub open spec fn nobody_draws(cfg: ConfigView, s: GameView, buttons: Input) -> bool {
    let a = player_turn(cfg, s, buttons);
    forall|i: int|
        0 <= i < a.enemies.len() ==> !retimed(cfg, #[trigger] a.enemies[i]).draws(a.board)
}

/// Whether the random choices of a tick may come out as `choices`: one for
/// each enemy, allowed at the tile on which that enemy looks for its way.
pub open spec fn choices_allowed(
    cfg: ConfigView,
    s: GameView,
    buttons: Input,
    choices: Seq<Option<Direction>>,
) -> bool {
    let a = player_turn(cfg, s, buttons);
    &&& choices.len() == s.enemies.len()
    &&& forall|i: int|
        0 <= i < choices.len() ==> choice_allowed(
            a.board,
            retimed(cfg, a.enemies[i]).tile_after_update(a.board),
            #[trigger] choices[i],
        )
}

} // verus!
