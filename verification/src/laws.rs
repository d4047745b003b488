//! What follows from the rules: statements about boards, mobs and ticks that
//! hold of every game.

use crate::board::{
    all_codes_valid, collected_grid, grid_complete, grid_of, grid_width, in_bounds, invalid_at,
    junction_at, junction_ids, junctions_depend_on_walkability_only, rectangular, refusal,
    text_rectangular, tile_at, walkable_at, walkable_neighbors, with_tile, BoardError, Grid,
};
use crate::config::ConfigView;
use crate::geometry::{tile_world_round_trip, world_of, Direction, Input, Point};
use crate::mob::{teleport_exit, MobView};
use crate::rules::{
    armed_timer, arms, earns_life, enemies_turn, landed, player_turn, resolve_one, resolved, tick,
    tick_resolution, EnemyPlayerState, GameView, Resolution,
};
use crate::tile::Tile;
use vstd::arithmetic::power2::pow2;
use vstd::prelude::*;

verus! {

/// A text with a character that stands for no tile is no board, and the only
/// way to refuse it is to report such a character.
pub proof fn unmapped_character_is_refused(text: Seq<Seq<char>>, r: int, c: int, e: BoardError)
    requires
        invalid_at(text, r, c),
    ensures
        !all_codes_valid(text),
        refusal(text, e) ==> e is InvalidTileCode,
{
}

/// A rectangular text of tile codes is never refused: reading it gives a
/// board, whose width and height are those of the text.
pub proof fn valid_rectangle_is_not_refused(text: Seq<Seq<char>>, e: BoardError)
    requires
        all_codes_valid(text),
        text_rectangular(text),
    ensures
        !refusal(text, e),
        grid_of(text).len() == text.len(),
        grid_width(grid_of(text)) == text[0].len(),
        rectangular(grid_of(text)),
{
    match e {
        BoardError::InvalidTileCode { code, row, col } => {},
        BoardError::MalformedGrid { row } => {},
    }
    let g = grid_of(text);
    assert forall|r: int| 0 <= r < g.len() implies (#[trigger] g[r]).len() == grid_width(g) by {
        assert(text[r].len() == text[0].len());
    }
}

/// Whether `after` is `before` with some of what was to collect taken: the
/// same shape, and every tile as it was or emptied of a pellet or a power
/// pellet.
pub open spec fn collected_from(before: Grid, after: Grid) -> bool {
    &&& after.len() == before.len()
    &&& forall|r: int| 0 <= r < before.len() ==> (#[trigger] after[r]).len() == before[r].len()
    &&& forall|r: int, c: int|
        0 <= r < before.len() && 0 <= c < before[r].len() ==> #[trigger] after[r][c]
            == before[r][c] || (before[r][c].is_collectable() && after[r][c] == Tile::Empty)
}

/// Whether `after` is the text `before` with some of its pellets and power
/// pellets written as empty tiles.
pub open spec fn codes_collected_from(before: Seq<Seq<char>>, after: Seq<Seq<char>>) -> bool {
    &&& after.len() == before.len()
    &&& forall|r: int| 0 <= r < before.len() ==> (#[trigger] after[r]).len() == before[r].len()
    &&& forall|r: int, c: int|
        0 <= r < before.len() && 0 <= c < before[r].len() ==> #[trigger] after[r][c]
            == before[r][c] || ((before[r][c] == '=' || before[r][c] == 'p') && after[r][c]
            == 'e')
}

/// However much has been collected, the junctions are those of the board as
/// it was laid out: finding them anew on the tiles of any later time gives
/// the same set.
pub proof fn junctions_survive_any_collection(before: Grid, after: Grid)
    requires
        collected_from(before, after),
    ensures
        junction_ids(after) == junction_ids(before),
        forall|q: Point| junction_at(after, q) == junction_at(before, q),
{
    assert forall|q: Point| walkable_at(after, q) == walkable_at(before, q) && in_bounds(after, q)
        == in_bounds(before, q) by {
        if 0 <= q.y < before.len() {
            assert(after[q.y].len() == before[q.y].len());
            if 0 <= q.x < before[q.y].len() {
                assert(after[q.y][q.x] == before[q.y][q.x] || (before[q.y][q.x].is_collectable()
                    && after[q.y][q.x] == Tile::Empty));
            }
        }
    }
    assert(grid_width(after) == grid_width(before)) by {
        if before.len() > 0 {
            assert(after[0].len() == before[0].len());
        }
    }
    assert forall|q: Point| junction_at(after, q) == junction_at(before, q) by {
        assert(walkable_neighbors(after, q) == walkable_neighbors(before, q));
    }
    assert(junction_ids(after) =~= junction_ids(before));
}

/// A text with some of its pellets and power pellets written as empty tiles
/// describes a board with the same junctions.
pub proof fn collected_text_has_the_same_junctions(before: Seq<Seq<char>>, after: Seq<Seq<char>>)
    requires
        codes_collected_from(before, after),
    ensures
        junction_ids(grid_of(after)) == junction_ids(grid_of(before)),
        all_codes_valid(before) ==> all_codes_valid(after),
        text_rectangular(before) ==> text_rectangular(after),
{
    let g = grid_of(before);
    let g2 = grid_of(after);
    assert(collected_from(g, g2)) by {
        assert forall|r: int| 0 <= r < g.len() implies (#[trigger] g2[r]).len() == g[r].len() by {
            assert(after[r].len() == before[r].len());
        }
        assert forall|r: int, c: int| 0 <= r < g.len() && 0 <= c < g[r].len() implies #[trigger] g2[r][c]
            == g[r][c] || (g[r][c].is_collectable() && g2[r][c] == Tile::Empty) by {
            assert(after[r][c] == before[r][c] || ((before[r][c] == '=' || before[r][c] == 'p')
                && after[r][c] == 'e'));
        }
    }
    junctions_survive_any_collection(g, g2);
    if all_codes_valid(before) {
        assert forall|r: int, c: int| !invalid_at(after, r, c) by {
            if 0 <= r < after.len() && 0 <= c < after[r].len() {
                assert(after[r].len() == before[r].len());
                assert(!invalid_at(before, r, c));
                assert(after[r][c] == before[r][c] || ((before[r][c] == '=' || before[r][c]
                    == 'p') && after[r][c] == 'e'));
            }
        }
    }
    if text_rectangular(before) {
        assert forall|r: int| 0 <= r < after.len() implies (#[trigger] after[r]).len()
            == after[0].len() by {
            assert(after[r].len() == before[r].len());
            assert(after[0].len() == before[0].len());
            assert(before[r].len() == before[0].len());
        }
    }
}

/// Collecting what lies on a tile changes no junction: the junctions found
/// when the board was read are those found on the board at any later time
/// of the level.
pub proof fn collecting_changes_no_junction(g: Grid, p: Point)
    ensures
        junction_ids(collected_grid(g, p)) == junction_ids(g),
        forall|q: Point| junction_at(collected_grid(g, p), q) == junction_at(g, q),
{
    if tile_at(g, p).is_collectable() {
        junctions_depend_on_walkability_only(g, p, Tile::Empty);
        let g2 = with_tile(g, p, Tile::Empty);
        assert forall|q: Point| junction_at(g2, q) == junction_at(g, q) by {
            assert forall|t: Point| crate::board::walkable_at(g2, t) == crate::board::walkable_at(
                g,
                t,
            ) && in_bounds(g2, t) == in_bounds(g, t) by {}
            assert(crate::board::walkable_neighbors(g2, q) == crate::board::walkable_neighbors(
                g,
                q,
            ));
        }
    }
}

/// A pellet is collected once: after it was taken, its tile is empty, so
/// that a second attempt at the same tile finds nothing to take.
pub proof fn pellet_is_collected_once(g: Grid, p: Point)
    requires
        tile_at(g, p) is Pellet || tile_at(g, p) is PowerPellet,
    ensures
        tile_at(with_tile(g, p, Tile::Empty), p) == Tile::Empty,
        collected_grid(collected_grid(g, p), p) == collected_grid(g, p),
{
}

/// A board is complete exactly when no point of it holds anything to
/// collect, and collecting keeps a complete board complete.
pub proof fn complete_means_nothing_left(g: Grid, p: Point)
    ensures
        grid_complete(g) <==> forall|q: Point| !(#[trigger] tile_at(g, q)).is_collectable(),
        grid_complete(g) ==> collected_grid(g, p) == g,
{
    if grid_complete(g) {
        assert forall|q: Point| !(#[trigger] tile_at(g, q)).is_collectable() by {
            if in_bounds(g, q) {
                assert(!g[q.y][q.x].is_collectable());
            }
        }
    }
    if forall|q: Point| !(#[trigger] tile_at(g, q)).is_collectable() {
        assert forall|r: int, c: int| 0 <= r < g.len() && 0 <= c < g[r].len() implies !(
        #[trigger] g[r][c]).is_collectable() by {
            let q = Point { x: c, y: r };
            assert(tile_at(g, q) == g[r][c]);
        }
    }
}

/// A mob whose target is less than one move away on both axes ends exactly
/// on the target, and walks to no tile any more.
pub proof fn close_target_is_reached_exactly(m: MobView, g: Grid, t: Point)
    requires
        m.step == Some(t),
        m.within_reach(t),
    ensures
        m.advanced(g).position == world_of(t),
        m.advanced(g).step is None,
        m.advanced(g).tile() == t,
{
    tile_world_round_trip(t);
}

/// A mob on a teleport tile comes out in the same row, on the tile mirrored
/// to the opposite side of the board, exactly where that tile begins, and
/// walks to no tile. From the left edge it comes out on the right edge, and
/// from the right edge on the left.
pub proof fn teleport_keeps_the_row(m: MobView, g: Grid)
    requires
        tile_at(g, m.tile()) is Teleport,
    ensures
        landed(m, g).tile() == (Point { x: grid_width(g) - 1 - m.tile().x, y: m.tile().y }),
        landed(m, g).position == world_of(landed(m, g).tile()),
        landed(m, g).step is None,
        m.tile().x == 0 ==> landed(m, g).tile().x == grid_width(g) - 1,
        m.tile().x == grid_width(g) - 1 ==> landed(m, g).tile().x == 0,
        rectangular(g) ==> in_bounds(g, landed(m, g).tile()),
{
    tile_world_round_trip(m.teleport_target(g));
    if rectangular(g) {
        assert(g[m.tile().y].len() == grid_width(g));
    }
}

/// The player that stands on a teleport tile once it has moved ends its turn
/// in the same row, on the tile mirrored to the opposite side of the board.
pub proof fn player_goes_through_teleport(cfg: ConfigView, s: GameView, buttons: Input)
    requires
        tile_at(s.player.grid_after_update(s.board), s.player.tile_after_update(s.board))
            is Teleport,
    ensures
        player_turn(cfg, s, buttons).player.tile() == (Point {
            x: teleport_exit(s.board, s.player.tile_after_update(s.board).x),
            y: s.player.tile_after_update(s.board).y,
        }),
{
    let board = s.player.grid_after_update(s.board);
    let moved = s.player.updated(s.board, buttons, cfg.history_limit, None);
    assert(moved.tile() == s.player.tile_after_update(s.board));
    teleport_keeps_the_row(moved, board);
    collecting_changes_no_junction(s.board, s.player.tile_after_update(s.board));
}

/// The player's turn changes no junction of the board.
pub proof fn players_turn_changes_no_junction(cfg: ConfigView, s: GameView, buttons: Input)
    ensures
        junction_ids(player_turn(cfg, s, buttons).board) == junction_ids(s.board),
{
    collecting_changes_no_junction(s.board, s.player.tile_after_update(s.board));
}

/// Collecting a power pellet sets the countdown to the configured duration
/// and the multiplier to one, and makes every enemy vulnerable. The last
/// holds where the duration is not zero: a countdown at zero ends the
/// vulnerability at once.
pub proof fn power_pellet_arms(cfg: ConfigView, s: GameView, buttons: Input)
    requires
        arms(s),
    ensures
        armed_timer(cfg, s) == cfg.vulnerable_time,
        player_turn(cfg, s, buttons).enemies_caught_multiplier == 1,
        player_turn(cfg, s, buttons).vulnerability_timer == (if cfg.vulnerable_time > 0 {
            cfg.vulnerable_time - 1
        } else {
            cfg.vulnerable_time
        }),
        cfg.vulnerable_time != 0 ==> forall|i: int|
            0 <= i < s.enemies.len() ==> (#[trigger] player_turn(
                cfg,
                s,
                buttons,
            ).enemies[i]).vulnerable,
{
}

/// The tick in which the countdown reaches zero leaves the enemies'
/// vulnerability to the player's turn as it was.
pub proof fn vulnerability_lasts_through_the_last_tick(cfg: ConfigView, s: GameView, buttons: Input)
    requires
        !arms(s),
        s.vulnerability_timer == 1,
    ensures
        player_turn(cfg, s, buttons).vulnerability_timer == 0,
        forall|i: int|
            0 <= i < s.enemies.len() ==> (#[trigger] player_turn(
                cfg,
                s,
                buttons,
            ).enemies[i]).vulnerable == s.enemies[i].vulnerable,
{
}

/// In a tick that begins with the countdown at zero, and in which no power
/// pellet is collected, no enemy is vulnerable after the player's turn.
pub proof fn vulnerability_ends_after_the_countdown(cfg: ConfigView, s: GameView, buttons: Input)
    requires
        !arms(s),
        s.vulnerability_timer == 0,
    ensures
        forall|i: int|
            0 <= i < s.enemies.len() ==> !(#[trigger] player_turn(
                cfg,
                s,
                buttons,
            ).enemies[i]).vulnerable,
{
}

/// What the resolution of collisions comes to, whatever the collisions: with
/// `k` enemies newly caught, the multiplier has doubled `k` times and the
/// catches have scored the base times the multiplier at the start times
/// 1, 2, 4, … in turn; an enemy that was caught is at its start, frozen and
/// not vulnerable, and every other enemy is as it was.
pub proof fn catches_score_in_powers_of_two(
    cfg: ConfigView,
    start: Resolution,
    events: Seq<EnemyPlayerState>,
)
    requires
        start.caught.finite(),
    ensures
        ({
            let r = resolved(cfg, start, events);
            let k = (r.caught.len() - start.caught.len()) as nat;
            &&& r.caught.finite()
            &&& start.caught.subset_of(r.caught)
            &&& r.caught.len() >= start.caught.len()
            &&& r.enemies.len() == start.enemies.len()
            &&& r.multiplier == start.multiplier * pow2(k)
            &&& r.score == start.score + cfg.score_increase_base_per_ghost_catch * (start.multiplier
                * (pow2(k) - 1))
            &&& forall|j: int|
                0 <= j < start.enemies.len() ==> #[trigger] r.enemies[j] == (if r.caught.contains(j)
                    && !start.caught.contains(j) {
                    crate::rules::caught_enemy(cfg, start.enemies[j])
                } else {
                    start.enemies[j]
                })
        }),
    decreases events.len(),
{
    let base = cfg.score_increase_base_per_ghost_catch;
    vstd::arithmetic::power2::lemma2_to64();
    if events.len() == 0 {
        assert(start.multiplier * 1 == start.multiplier);
        assert(base * (start.multiplier * 0) == 0) by (nonlinear_arith);
    } else {
        let before = resolved(cfg, start, events.drop_last());
        catches_score_in_powers_of_two(cfg, start, events.drop_last());
        let r = resolve_one(cfg, before, events.last());
        let k0 = (before.caught.len() - start.caught.len()) as nat;
        if r != before && !(r == Resolution { dead: true, ..before }) {
            let i = events.last()->EnemyCatch_0 as int;
            assert(r.caught == before.caught.insert(i));
            assert(!before.caught.contains(i));
            let k = (r.caught.len() - start.caught.len()) as nat;
            assert(k == k0 + 1);
            vstd::arithmetic::power2::lemma_pow2_unfold(k);
            let p = pow2(k0) as int;
            let m = start.multiplier;
            assert(m * (2 * p) == (m * p) * 2) by (nonlinear_arith);
            assert(base * (m * (2 * p - 1)) == base * (m * (p - 1)) + base * (m * p))
                by (nonlinear_arith);
            assert forall|j: int| 0 <= j < start.enemies.len() implies #[trigger] r.enemies[j] == (
            if r.caught.contains(j) && !start.caught.contains(j) {
                crate::rules::caught_enemy(cfg, start.enemies[j])
            } else {
                start.enemies[j]
            }) by {
                assert(before.enemies[j] == (if before.caught.contains(j) && !start.caught.contains(
                    j,
                ) {
                    crate::rules::caught_enemy(cfg, start.enemies[j])
                } else {
                    start.enemies[j]
                }));
            }
        }
    }
}

/// A tick that begins with the countdown at zero, and in which no power
/// pellet is collected, ends with no enemy vulnerable.
pub proof fn no_enemy_is_vulnerable_after_the_countdown(
    cfg: ConfigView,
    s: GameView,
    buttons: Input,
    choices: Seq<Option<Direction>>,
)
    requires
        !arms(s),
        s.vulnerability_timer == 0,
    ensures
        tick(cfg, s, buttons, choices).enemies.len() == s.enemies.len(),
        forall|i: int|
            0 <= i < s.enemies.len() ==> !(#[trigger] tick(
                cfg,
                s,
                buttons,
                choices,
            ).enemies[i]).vulnerable,
{
    let a = player_turn(cfg, s, buttons);
    let c = enemies_turn(cfg, a, choices);
    let r = tick_resolution(cfg, a, choices);
    catches_score_in_powers_of_two(
        cfg,
        crate::rules::unresolved(c),
        crate::rules::tick_events(cfg, a, choices),
    );
    let t = tick(cfg, s, buttons, choices);
    assert forall|i: int| 0 <= i < s.enemies.len() implies !(#[trigger] t.enemies[i]).vulnerable by {
        assert(!a.enemies[i].vulnerable);
        assert(!c.enemies[i].vulnerable);
        assert(!r.enemies[i].vulnerable);
    }
}

/// The tick in which the countdown reaches zero leaves an enemy vulnerable
/// that was so before, unless it is caught in this tick or the level ends.
pub proof fn vulnerable_enemy_stays_so_through_the_last_tick(
    cfg: ConfigView,
    s: GameView,
    buttons: Input,
    choices: Seq<Option<Direction>>,
    i: int,
)
    requires
        !arms(s),
        s.vulnerability_timer == 1,
        0 <= i < s.enemies.len(),
        s.enemies[i].vulnerable,
        !tick_resolution(cfg, player_turn(cfg, s, buttons), choices).caught.contains(i),
        tick_resolution(cfg, player_turn(cfg, s, buttons), choices).dead || !grid_complete(
            player_turn(cfg, s, buttons).board,
        ),
    ensures
        tick(cfg, s, buttons, choices).vulnerability_timer == 0,
        tick(cfg, s, buttons, choices).enemies[i].vulnerable,
{
    let a = player_turn(cfg, s, buttons);
    let c = enemies_turn(cfg, a, choices);
    catches_score_in_powers_of_two(
        cfg,
        crate::rules::unresolved(c),
        crate::rules::tick_events(cfg, a, choices),
    );
    let r = tick_resolution(cfg, a, choices);
    assert(a.enemies[i].vulnerable);
    assert(c.enemies[i].vulnerable);
    assert(r.enemies[i] == c.enemies[i]);
}

/// A tick in which the player dies, and in which the score gives no life:
/// the score is what it was when the tick began, whatever was collected or
/// caught in it; one life is gone; the player is back at its start and
/// walks to no tile; and the enemies are as the resolution of the
/// collisions left them, where they stand and how long they stay frozen.
pub proof fn death_puts_the_score_back(
    cfg: ConfigView,
    s: GameView,
    buttons: Input,
    choices: Seq<Option<Direction>>,
)
    requires
        s.player.is_player(),
        tick_resolution(cfg, player_turn(cfg, s, buttons), choices).dead,
        !earns_life(
            cfg,
            tick_resolution(cfg, player_turn(cfg, s, buttons), choices).score,
            s.lives_gained,
        ),
    ensures
        tick(cfg, s, buttons, choices).score == s.score,
        tick(cfg, s, buttons, choices).lives == s.lives - 1,
        tick(cfg, s, buttons, choices).level == s.level,
        tick(cfg, s, buttons, choices).player.position == world_of(cfg.player_start),
        tick(cfg, s, buttons, choices).player.tile() == cfg.player_start,
        tick(cfg, s, buttons, choices).player.step is None,
        tick(cfg, s, buttons, choices).enemies == tick_resolution(
            cfg,
            player_turn(cfg, s, buttons),
            choices,
        ).enemies,
        tick(cfg, s, buttons, choices).board == player_turn(cfg, s, buttons).board,
{
    tile_world_round_trip(cfg.player_start);
}

/// A death moves no enemy: an enemy that was not caught in the tick of the
/// player's death is where its own move and the teleports left it, with its
/// freeze and its vulnerability.
pub proof fn death_leaves_the_enemies(
    cfg: ConfigView,
    s: GameView,
    buttons: Input,
    choices: Seq<Option<Direction>>,
    i: int,
)
    requires
        tick_resolution(cfg, player_turn(cfg, s, buttons), choices).dead,
        0 <= i < s.enemies.len(),
        !tick_resolution(cfg, player_turn(cfg, s, buttons), choices).caught.contains(i),
    ensures
        tick(cfg, s, buttons, choices).enemies[i] == enemies_turn(
            cfg,
            player_turn(cfg, s, buttons),
            choices,
        ).enemies[i],
{
    let a = player_turn(cfg, s, buttons);
    let c = enemies_turn(cfg, a, choices);
    catches_score_in_powers_of_two(
        cfg,
        crate::rules::unresolved(c),
        crate::rules::tick_events(cfg, a, choices),
    );
}

/// The end of a level: in a tick without a death that leaves nothing to
/// collect, the level counts up, the countdown stops, the board is laid out
/// anew, and everybody is back at their start.
pub proof fn cleared_board_starts_the_next_level(
    cfg: ConfigView,
    s: GameView,
    buttons: Input,
    choices: Seq<Option<Direction>>,
)
    requires
        s.player.is_player(),
        !tick_resolution(cfg, player_turn(cfg, s, buttons), choices).dead,
        grid_complete(player_turn(cfg, s, buttons).board),
    ensures
        tick(cfg, s, buttons, choices).level == s.level + 1,
        tick(cfg, s, buttons, choices).vulnerability_timer == 0,
        tick(cfg, s, buttons, choices).board == crate::board::grid_of(cfg.board),
        tick(cfg, s, buttons, choices).player.position == world_of(cfg.player_start),
        forall|i: int|
            0 <= i < s.enemies.len() ==> {
                &&& (#[trigger] tick(cfg, s, buttons, choices).enemies[i]).position == world_of(
                    s.enemies[i].start(cfg.player_start),
                )
                &&& tick(cfg, s, buttons, choices).enemies[i].immobilized_timer == i
                    * cfg.start_immobilized_base
                &&& !tick(cfg, s, buttons, choices).enemies[i].vulnerable
            },
{
    let a = player_turn(cfg, s, buttons);
    let c = enemies_turn(cfg, a, choices);
    catches_score_in_powers_of_two(
        cfg,
        crate::rules::unresolved(c),
        crate::rules::tick_events(cfg, a, choices),
    );
    let r = tick_resolution(cfg, a, choices);
    let t = tick(cfg, s, buttons, choices);
    assert forall|i: int| 0 <= i < s.enemies.len() implies {
        &&& (#[trigger] t.enemies[i]).position == world_of(s.enemies[i].start(cfg.player_start))
        &&& t.enemies[i].immobilized_timer == i * cfg.start_immobilized_base
        &&& !t.enemies[i].vulnerable
    } by {
        assert(a.enemies[i].start(cfg.player_start) == s.enemies[i].start(cfg.player_start));
        assert(c.enemies[i].start(cfg.player_start) == s.enemies[i].start(cfg.player_start));
        assert(r.enemies[i].start(cfg.player_start) == s.enemies[i].start(cfg.player_start));
    }
}

/// A tick in which a power pellet is collected ends with the countdown one
/// below the configured duration, where that is positive, and with every
/// enemy vulnerable that is not caught in this tick, unless the level ends.
pub proof fn power_pellet_lasts_through_its_tick(
    cfg: ConfigView,
    s: GameView,
    buttons: Input,
    choices: Seq<Option<Direction>>,
    i: int,
)
    requires
        arms(s),
        cfg.vulnerable_time > 0,
        0 <= i < s.enemies.len(),
        !tick_resolution(cfg, player_turn(cfg, s, buttons), choices).caught.contains(i),
        tick_resolution(cfg, player_turn(cfg, s, buttons), choices).dead || !grid_complete(
            player_turn(cfg, s, buttons).board,
        ),
    ensures
        tick(cfg, s, buttons, choices).vulnerability_timer == cfg.vulnerable_time - 1,
        tick(cfg, s, buttons, choices).enemies[i].vulnerable,
{
    let a = player_turn(cfg, s, buttons);
    let c = enemies_turn(cfg, a, choices);
    catches_score_in_powers_of_two(
        cfg,
        crate::rules::unresolved(c),
        crate::rules::tick_events(cfg, a, choices),
    );
    let r = tick_resolution(cfg, a, choices);
    assert(a.enemies[i].vulnerable);
    assert(c.enemies[i].vulnerable);
    assert(r.enemies[i] == c.enemies[i]);
}

/// The player that stands on a teleport tile once it has moved ends the tick
/// in the same row, on the tile mirrored to the opposite side of the board,
/// unless it dies or the level ends.
pub proof fn teleported_player_ends_the_tick_there(
    cfg: ConfigView,
    s: GameView,
    buttons: Input,
    choices: Seq<Option<Direction>>,
)
    requires
        tile_at(s.player.grid_after_update(s.board), s.player.tile_after_update(s.board))
            is Teleport,
        !tick_resolution(cfg, player_turn(cfg, s, buttons), choices).dead,
        !grid_complete(player_turn(cfg, s, buttons).board),
    ensures
        tick(cfg, s, buttons, choices).player.tile() == (Point {
            x: teleport_exit(s.board, s.player.tile_after_update(s.board).x),
            y: s.player.tile_after_update(s.board).y,
        }),
        tick(cfg, s, buttons, choices).player.step is None,
{
    player_goes_through_teleport(cfg, s, buttons);
}

/// An enemy that stands on a teleport tile once it has moved ends the tick
/// in the same row, on the tile mirrored to the opposite side of the board,
/// unless it is caught or the level ends.
pub proof fn teleported_enemy_ends_the_tick_there(
    cfg: ConfigView,
    s: GameView,
    buttons: Input,
    choices: Seq<Option<Direction>>,
    i: int,
)
    requires
        0 <= i < s.enemies.len(),
        tile_at(
            player_turn(cfg, s, buttons).board,
            crate::rules::enemies_moved(cfg, player_turn(cfg, s, buttons), choices)[i].tile(),
        ) is Teleport,
        !tick_resolution(cfg, player_turn(cfg, s, buttons), choices).caught.contains(i),
        tick_resolution(cfg, player_turn(cfg, s, buttons), choices).dead || !grid_complete(
            player_turn(cfg, s, buttons).board,
        ),
    ensures
        ({
            let a = player_turn(cfg, s, buttons);
            let moved = crate::rules::enemies_moved(cfg, a, choices)[i];
            &&& tick(cfg, s, buttons, choices).enemies[i].tile() == (Point {
                x: teleport_exit(a.board, moved.tile().x),
                y: moved.tile().y,
            })
            &&& tick(cfg, s, buttons, choices).enemies[i].step is None
        }),
{
    let a = player_turn(cfg, s, buttons);
    let c = enemies_turn(cfg, a, choices);
    let moved = crate::rules::enemies_moved(cfg, a, choices)[i];
    catches_score_in_powers_of_two(
        cfg,
        crate::rules::unresolved(c),
        crate::rules::tick_events(cfg, a, choices),
    );
    teleport_keeps_the_row(moved, a.board);
    assert(c.enemies[i] == landed(moved, a.board));
}

} // verus!
