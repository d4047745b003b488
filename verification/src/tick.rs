//! One tick of a game, step by step.

use crate::ai::choice_allowed;
use crate::board::{grid_width, Board, BoardError};
use crate::config::{enemy_ai, ConfigView, VULNERABLE_SLOWDOWN};
use crate::geometry::{Direction, Input};
use crate::mob::{magnitude, MobView};
use crate::rules::{
    arms, choices_allowed, collisions, nobody_draws, earns_life, enemies_moved, enemies_turn, enemy_moved,
    finished, landed, pickup_score, player_turn, resolve_one, resolved, retimed, settled, tick,
    tick_events, tick_resolution, unresolved, EnemyPlayerState, GameView, Resolution,
};
use crate::state::{enemy_has_room, game_has_room, game_wf, larger, multiplier_ceiling, State};
use vstd::arithmetic::power2::pow2;
use vstd::prelude::*;

verus! {

impl State {
    /// Sets the vulnerability of every enemy.
    fn mark_enemies(&mut self, vulnerable: bool)
        ensures
            final(self)@ == (GameView {
                enemies: Seq::new(
                    old(self)@.enemies.len(),
                    |i: int| MobView { vulnerable, ..old(self)@.enemies[i] },
                ),
                ..old(self)@
            }),
            final(self).config == old(self).config,
            final(self).state.board == old(self).state.board,
            final(self).state.rand == old(self).state.rand,
    {
        let ghost s = self@;
        let n: usize = self.state.enemies.len();
        let mut i: usize = 0;
        while i < n
            invariant
                i <= n,
                n == self.state.enemies.len(),
                n == s.enemies.len(),
                self.config == old(self).config,
                self.state.board == old(self).state.board,
                self.state.rand == old(self).state.rand,
                self@ == (GameView { enemies: self@.enemies, ..s }),
                forall|j: int|
                    0 <= j < i ==> self@.enemies[j] == (MobView { vulnerable, ..s.enemies[j] }),
                forall|j: int| i <= j < n ==> self@.enemies[j] == s.enemies[j],
            decreases n - i,
        {
            let ghost before = self@.enemies;
            let e = &mut self.state.enemies[i];
            e.vulnerable = vulnerable;
            assert(self@.enemies =~= before.update(
                i as int,
                MobView { vulnerable, ..s.enemies[i as int] },
            ));
            i = i + 1;
        }
        assert(self@.enemies =~= Seq::new(
            s.enemies.len(),
            |i: int| MobView { vulnerable, ..s.enemies[i] },
        ));
    }

    /// The player's turn: the player moves and collects, a power pellet
    /// arms the countdown, the enemies' vulnerability is set, the player
    /// goes through a teleport it stands on, and the countdown runs.
    fn play(&mut self, buttons: Input)
        requires
            old(self).wf(),
            old(self)@.player.has_room(),
            magnitude(old(self)@.score) + larger(
                magnitude(old(self).config@.score_increase_per_pellet),
                magnitude(old(self).config@.score_increase_per_power_pellet),
            ) <= i32::MAX,
        ensures
            final(self)@ == player_turn(old(self).config@, old(self)@, buttons),
            final(self).config == old(self).config,
            final(self).state.rand == old(self).state.rand,
            final(self).state.board.wf(),
    {
        let ghost cfg = self.config@;
        let ghost s = self@;
        let history_limit = self.config.history_limit;
        let pickup = self.state.player.update(
            buttons,
            &mut self.state.board,
            None,
            history_limit,
            &mut self.state.rand,
        );
        proof {
            let c = choose|c: Option<Direction>|
                self.state.player@ == #[trigger] s.player.updated(
                    s.board,
                    buttons,
                    history_limit as int,
                    c,
                );
            assert(s.player.updated(s.board, buttons, history_limit as int, c)
                == s.player.updated(s.board, buttons, history_limit as int, None));
        }
        let mut armed = false;
        if let Some(score_change) = pickup {
            let gained: i32 = if score_change.pellets_collected > 0 {
                self.config.score_increase_per_pellet
            } else {
                self.config.score_increase_per_power_pellet
            };
            proof {
                let a = score_change.pellets_collected as int;
                let b = score_change.power_pellets_collected as int;
                let pa = cfg.score_increase_per_pellet;
                let pb = cfg.score_increase_per_power_pellet;
                assert(s.player.pickup(s.board) == Some(score_change));
                assert((a == 1 && b == 0) || (a == 0 && b == 1));
                assert(a * pa + b * pb == (if a > 0 { pa } else { pb })) by (nonlinear_arith)
                    requires
                        (a == 1 && b == 0) || (a == 0 && b == 1),
                ;
            }
            assert(gained == pickup_score(cfg, s));
            self.state.score = self.state.score + gained;
            if score_change.power_pellets_collected > 0 {
                armed = true;
            }
        }
        assert(armed == arms(s));
        assert(self.state.score == s.score + pickup_score(cfg, s));
        if armed {
            self.state.vulnerability_timer = self.config.vulnerable_time;
            self.state.enemies_caught_multiplier = 1;
            self.mark_enemies(true);
        }
        if self.state.vulnerability_timer == 0 {
            self.mark_enemies(false);
        }
        assert(self@.enemies =~= player_turn(cfg, s, buttons).enemies);
        if self.check_teleport(&self.state.player) {
            proof {
                let tile = self.state.player@.tile();
                assert(self.state.board@[tile.y].len() == grid_width(self.state.board@));
            }
            self.state.player.teleport(&self.state.board);
        }
        if self.state.vulnerability_timer > 0 {
            self.state.vulnerability_timer = self.state.vulnerability_timer - 1;
        }
    }

    /// Adds to `events` the collisions of the player with the enemies, in
    /// the order of the enemies; a miss is left out.
    fn collide(&self, events: &mut Vec<EnemyPlayerState>)
        ensures
            final(events)@ == old(events)@ + collisions(
                self@.player,
                self@.enemies,
                self@.enemies.len() as int,
            ),
    {
        let n: usize = self.state.enemies.len();
        let mut i: usize = 0;
        while i < n
            invariant
                i <= n,
                n == self.state.enemies.len(),
                events@ == old(events)@ + collisions(self@.player, self@.enemies, i as int),
            decreases n - i,
        {
            let c = self.check_enemy_player_collision(&self.state.enemies[i], i);
            assert(self@.enemies[i as int] == self.state.enemies[i as int]@);
            if c != EnemyPlayerState::Miss {
                events.push(c);
            }
            assert(events@ =~= old(events)@ + collisions(
                self@.player,
                self@.enemies,
                i as int + 1,
            ));
            i = i + 1;
        }
    }

    /// Gives every enemy its speed for this tick and runs its freeze down:
    /// a frozen enemy stands still, a vulnerable one is slower.
    fn retime_enemies(&mut self)
        requires
            old(self).config@.valid(),
        ensures
            final(self)@ == (GameView {
                enemies: Seq::new(
                    old(self)@.enemies.len(),
                    |i: int| retimed(old(self).config@, old(self)@.enemies[i]),
                ),
                ..old(self)@
            }),
            final(self).config == old(self).config,
            final(self).state.board == old(self).state.board,
            final(self).state.rand == old(self).state.rand,
    {
        let ghost cfg = self.config@;
        let ghost s = self@;
        let n: usize = self.state.enemies.len();
        let mut i: usize = 0;
        while i < n
            invariant
                i <= n,
                n == self.state.enemies.len(),
                n == s.enemies.len(),
                cfg.valid(),
                self.config@ == cfg,
                self.config == old(self).config,
                self.state.board == old(self).state.board,
                self.state.rand == old(self).state.rand,
                self@ == (GameView { enemies: self@.enemies, ..s }),
                forall|j: int| 0 <= j < i ==> self@.enemies[j] == retimed(cfg, s.enemies[j]),
                forall|j: int| i <= j < n ==> self@.enemies[j] == s.enemies[j],
            decreases n - i,
        {
            let ghost before = self@.enemies;
            assert(before[i as int] == s.enemies[i as int]);
            let base: i32 = self.config.enemy_starting_speed;
            let e = &mut self.state.enemies[i];
            if e.immobilized_timer > 0 {
                e.change_speed(0);
                e.immobilized_timer = e.immobilized_timer - 1;
            } else if e.vulnerable {
                e.change_speed(base - VULNERABLE_SLOWDOWN);
            } else {
                e.change_speed(base);
            }
            assert(self@.enemies =~= before.update(i as int, retimed(cfg, s.enemies[i as int])));
            i = i + 1;
        }
        assert(self@.enemies =~= Seq::new(
            s.enemies.len(),
            |i: int| retimed(cfg, s.enemies[i]),
        ));
    }

    /// The enemies' turn: each moves, and looks for its way where it walks
    /// to no tile. Where one decides anew the generator picks its direction,
    /// so the enemies end as `updated` says for allowed choices.
    fn move_enemies(&mut self)
        requires
            old(self).state.board.wf(),
            forall|i: int|
                0 <= i < old(self)@.enemies.len() ==> {
                    &&& (#[trigger] old(self)@.enemies[i]).has_room()
                    &&& !old(self)@.enemies[i].is_player()
                },
        ensures
            exists|choices: Seq<Option<Direction>>|
                {
                    &&& choices.len() == old(self)@.enemies.len()
                    &&& forall|i: int|
                        0 <= i < choices.len() ==> choice_allowed(
                            old(self)@.board,
                            old(self)@.enemies[i].tile_after_update(old(self)@.board),
                            #[trigger] choices[i],
                        )
                    &&& final(self)@ == #[trigger] moved_game(
                        old(self)@,
                        old(self).config@.history_limit,
                        choices,
                    )
                },
            (forall|i: int|
                0 <= i < old(self)@.enemies.len() ==> !(#[trigger] old(self)@.enemies[i]).draws(
                    old(self)@.board,
                )) ==> final(self).state.rand == old(self).state.rand,
            final(self).config == old(self).config,
            final(self).state.board.wf(),
    {
        let ghost s = self@;
        let ghost g = s.board;
        let history_limit = self.config.history_limit;
        let ghost limit = history_limit as int;
        let ghost choices: Seq<Option<Direction>> = Seq::empty();
        let n: usize = self.state.enemies.len();
        let mut i: usize = 0;
        while i < n
            invariant
                i <= n,
                n == self.state.enemies.len(),
                n == s.enemies.len(),
                g == s.board,
                limit == history_limit as int,
                limit == old(self).config@.history_limit,
                self.config == old(self).config,
                self.state.board.wf(),
                self@ == (GameView { enemies: self@.enemies, ..s }),
                (forall|j: int| 0 <= j < i ==> !(#[trigger] s.enemies[j]).draws(g))
                    ==> self.state.rand == old(self).state.rand,
                choices.len() == i,
                forall|j: int| i <= j < n ==> (#[trigger] s.enemies[j]).has_room() && !s.enemies[j].is_player(),
                forall|j: int|
                    0 <= j < i ==> choice_allowed(
                        g,
                        s.enemies[j].tile_after_update(g),
                        #[trigger] choices[j],
                    ),
                forall|j: int|
                    0 <= j < i ==> #[trigger] self@.enemies[j] == s.enemies[j].updated(
                        g,
                        Input::idle(),
                        limit,
                        choices[j],
                    ),
                forall|j: int| i <= j < n ==> self@.enemies[j] == s.enemies[j],
            decreases n - i,
        {
            let ghost before = self@.enemies;
            let ghost e0 = s.enemies[i as int];
            assert(before[i as int] == e0);
            assert(e0.has_room() && !e0.is_player());
            let snapshot = self.state.player.clone();
            let e = &mut self.state.enemies[i];
            let _ = e.update(
                Input::default(),
                &mut self.state.board,
                Some(snapshot),
                history_limit,
                &mut self.state.rand,
            );
            proof {
                let after = self.state.enemies[i as int]@;
                let c = choose|c: Option<Direction>|
                    {
                        &&& choice_allowed(g, e0.tile_after_update(g), c)
                        &&& after == #[trigger] e0.updated(g, Input::idle(), limit, c)
                    };
                choices = choices.push(c);
                assert(self@.enemies =~= before.update(i as int, after));
            }
            i = i + 1;
        }
        proof {
            assert(self@.enemies =~= moved_game(s, limit, choices).enemies);
            assert(self@ == moved_game(s, limit, choices));
        }
    }

    /// Sends every enemy that stands on a teleport tile through it.
    fn teleport_enemies(&mut self)
        requires
            old(self).state.board.shaped(),
        ensures
            final(self)@ == (GameView {
                enemies: Seq::new(
                    old(self)@.enemies.len(),
                    |i: int| landed(old(self)@.enemies[i], old(self)@.board),
                ),
                ..old(self)@
            }),
            final(self).config == old(self).config,
            final(self).state.board == old(self).state.board,
            final(self).state.rand == old(self).state.rand,
    {
        let ghost s = self@;
        let n: usize = self.state.enemies.len();
        let mut i: usize = 0;
        while i < n
            invariant
                i <= n,
                n == self.state.enemies.len(),
                n == s.enemies.len(),
                self.config == old(self).config,
                self.state.board == old(self).state.board,
                self.state.rand == old(self).state.rand,
                self.state.board.shaped(),
                self@ == (GameView { enemies: self@.enemies, ..s }),
                forall|j: int| 0 <= j < i ==> self@.enemies[j] == landed(s.enemies[j], s.board),
                forall|j: int| i <= j < n ==> self@.enemies[j] == s.enemies[j],
            decreases n - i,
        {
            let ghost before = self@.enemies;
            assert(before[i as int] == s.enemies[i as int]);
            if self.check_teleport(&self.state.enemies[i]) {
                proof {
                    let tile = s.enemies[i as int].tile();
                    assert(s.board[tile.y].len() == grid_width(s.board));
                }
                let e = &mut self.state.enemies[i];
                e.teleport(&self.state.board);
            }
            assert(self@.enemies =~= before.update(
                i as int,
                landed(s.enemies[i as int], s.board),
            ));
            i = i + 1;
        }
        assert(self@.enemies =~= Seq::new(
            s.enemies.len(),
            |i: int| landed(s.enemies[i], s.board),
        ));
    }

    /// Resolves the collisions of a tick in their order: a death halts the
    /// resolution; a catch counts once per enemy, scores the base times the
    /// multiplier, doubles the multiplier and sends the enemy back to its
    /// start, frozen. Returns whether the player died.
    fn resolve(&mut self, events: &Vec<EnemyPlayerState>) -> (dead: bool)
        requires
            game_wf(old(self).config@, old(self)@),
            multiplier_ceiling(old(self)@) <= i32::MAX,
            magnitude(old(self)@.score) + magnitude(
                old(self).config@.score_increase_base_per_ghost_catch,
            ) * multiplier_ceiling(old(self)@) <= i32::MAX,
        ensures
            dead == resolved(old(self).config@, unresolved(old(self)@), events@).dead,
            final(self)@ == settled(
                old(self)@,
                resolved(old(self).config@, unresolved(old(self)@), events@),
            ),
            final(self).config == old(self).config,
            final(self).state.board == old(self).state.board,
            final(self).state.rand == old(self).state.rand,
            game_wf(old(self).config@, final(self)@),
    {
        let ghost cfg = self.config@;
        let ghost s = self@;
        let ghost base = cfg.score_increase_base_per_ghost_catch;
        let ghost m = larger(1, magnitude(s.enemies_caught_multiplier));
        let ghost r = unresolved(s);
        let n: usize = self.state.enemies.len();
        let mut caught: Vec<bool> = Vec::new();
        let mut k: usize = 0;
        while k < n
            invariant
                k <= n,
                caught.len() == k,
                forall|j: int| 0 <= j < k ==> !(#[trigger] caught[j]),
            decreases n - k,
        {
            caught.push(false);
            k = k + 1;
        }
        let mut dead = false;
        let mut i: usize = 0;
        proof {
            assert(events@.take(0) =~= Seq::empty());
            assert(r.caught.len() == 0);
            vstd::arithmetic::power2::lemma2_to64();
            assert(self@ == settled(s, r));
        }
        while i < events.len() && !dead
            invariant
                i <= events.len(),
                n == self.state.enemies.len(),
                n == s.enemies.len(),
                cfg == self.config@,
                self.config == old(self).config,
                self.state.board == old(self).state.board,
                self.state.rand == old(self).state.rand,
                base == cfg.score_increase_base_per_ghost_catch,
                m == larger(1, magnitude(s.enemies_caught_multiplier)),
                game_wf(cfg, s),
                m * pow2(n as nat) <= i32::MAX,
                magnitude(s.score) + magnitude(base) * (m * pow2(n as nat)) <= i32::MAX,
                dead ==> i > 0,
                r == resolved(cfg, unresolved(s), events@.take(if dead { i - 1 } else { i as int })),
                dead ==> resolve_one(cfg, r, events@[i - 1]).dead,
                !r.dead,
                self@ == settled(s, r),
                r.enemies.len() == n,
                forall|j: int| 0 <= j < n ==> enemy_ai((#[trigger] r.enemies[j]).ai),
                caught.len() == n,
                forall|j: int| 0 <= j < n ==> #[trigger] caught[j] == r.caught.contains(j),
                r.caught.finite(),
                r.caught.subset_of(vstd::set_lib::set_int_range(0, n as int)),
                magnitude(r.multiplier) <= m * pow2(r.caught.len()),
                magnitude(r.score - s.score) <= magnitude(base) * (m * (pow2(r.caught.len()) - 1)),
            decreases events.len() - i, if dead { 0int } else { 1int },
        {
            let ghost prefix = events@.take(i as int);
            assert(events@.take(i as int + 1).drop_last() =~= prefix);
            assert(events@.take(i as int + 1).last() == events@[i as int]);
            match events[i] {
                EnemyPlayerState::Miss => {},
                EnemyPlayerState::PlayerDeath => {
                    dead = true;
                },
                EnemyPlayerState::EnemyCatch(eid) => {
                    if eid < n && !caught[eid] {
                        let ghost c = r.caught.len();
                        proof {
                            assert(!r.caught.contains(eid as int));
                            let grown = r.caught.insert(eid as int);
                            vstd::set_lib::lemma_int_range(0, n as int);
                            vstd::set_lib::lemma_len_subset(
                                grown,
                                vstd::set_lib::set_int_range(0, n as int),
                            );
                            assert(grown.len() == c + 1);
                            catch_fits(
                                base,
                                m,
                                s.score,
                                r.score,
                                r.multiplier,
                                c,
                                n as nat,
                            );
                        }
                        caught.set(eid, true);
                        let award: i32 = self.config.score_increase_base_per_ghost_catch
                            * self.state.enemies_caught_multiplier;
                        self.state.score = self.state.score + award;
                        self.state.enemies_caught_multiplier = self.state.enemies_caught_multiplier
                            * 2;
                        let ghost before = self@.enemies;
                        assert(enemy_ai(r.enemies[eid as int].ai));
                        let e = &mut self.state.enemies[eid];
                        e.reset(&self.config.player_start, &self.state.board);
                        e.immobilized_timer = self.config.immobilized_time;
                        proof {
                            let next = resolve_one(cfg, r, events@[i as int]);
                            assert(self@.enemies =~= next.enemies);
                            r = next;
                        }
                    }
                },
            }
            proof {
                if !dead {
                    assert(r == resolve_one(
                        cfg,
                        resolved(cfg, unresolved(s), prefix),
                        events@[i as int],
                    ));
                }
            }
            i = i + 1;
        }
        proof {
            if dead {
                halted_resolution(cfg, unresolved(s), events@, i as int);
                assert(events@.take(i as int).drop_last() =~= events@.take(i - 1));
                let at = resolved(cfg, unresolved(s), events@.take(i as int));
                assert(at == resolve_one(cfg, r, events@[i - 1]));
                assert(at == (Resolution { dead: true, ..r }));
            } else {
                assert(events@.take(i as int) =~= events@);
            }
        }
        dead
    }

    /// The end of a tick: a score past the mark gives a life; a death takes
    /// one, puts the score back and restarts the player; without a death, a
    /// board with nothing left to collect starts the next level.
    fn finish(&mut self, dead: bool, score_before: i32)
        requires
            old(self).wf(),
            i32::MIN < old(self)@.lives < i32::MAX,
            old(self)@.lives_gained < i32::MAX,
            old(self)@.level < i32::MAX,
        ensures
            final(self)@ == finished(old(self).config@, old(self)@, dead, score_before as int),
            final(self).config == old(self).config,
            final(self).state.rand == old(self).state.rand,
            final(self).wf(),
    {
        let ghost cfg = self.config@;
        let ghost s = self@;
        let mark: i64 = self.state.lives_gained as i64 + 1;
        let threshold: i64 = self.config.life_gain_threshold as i64;
        assert(-0x8000_0000 * 0x8000_0000 <= mark * threshold <= 0x8000_0000 * 0x8000_0000)
            by (nonlinear_arith)
            requires
                -0x8000_0000 <= mark <= 0x8000_0000,
                -0x8000_0000 <= threshold <= 0x8000_0000,
        ;
        if (self.state.score as i64) > mark * threshold {
            self.state.lives = self.state.lives + 1;
            self.state.lives_gained = self.state.lives_gained + 1;
        }
        assert(earns_life(cfg, s.score, s.lives_gained) == (self@.lives == s.lives + 1));
        if dead {
            self.state.lives = self.state.lives - 1;
            self.state.score = score_before;
            self.reset(true);
        } else if self.state.board.board_complete() {
            self.reset(false);
            self.state.level = self.state.level + 1;
            self.state.vulnerability_timer = 0;
            match Board::try_new(self.config.board.as_slice()) {
                Ok(board) => {
                    self.state.board = board;
                },
                Err(e) => {
                    // The level was read when the game was made, so it is read again
                    // without an error.
                    proof {
                        let text = cfg.board;
                        match e {
                            BoardError::InvalidTileCode { code, row, col } => {
                                assert(crate::board::invalid_at(text, row as int, col as int));
                            },
                            BoardError::MalformedGrid { row } => {
                                if text.len() > 0 {
                                    assert(text[row as int].len() != text[0].len());
                                }
                            },
                        }
                        assert(false);
                    }
                },
            }
        }
        proof {
            assert forall|j: int| 0 <= j < self@.enemies.len() implies enemy_ai(
                (#[trigger] self@.enemies[j]).ai,
            ) by {
                assert(enemy_ai(s.enemies[j].ai));
            }
        }
    }

    /// Moves the game on by one tick with one sample of the player's
    /// controls.
    ///
    /// The tick runs in this order: the player's turn, the collisions before
    /// the enemies move, the enemies' speeds and freezes, the enemies' moves,
    /// the collisions after them, the enemies' teleports, the resolution of
    /// all collisions, and the end of the tick. Where an enemy decides anew
    /// the generator picks its direction, so the game ends as `tick` says
    /// for choices that are allowed. A tick in which no enemy does leaves the
    /// generator as it was.
    pub fn update_mut(&mut self, buttons: Input)
        requires
            old(self).wf(),
            old(self).has_room(),
        ensures
            final(self).wf(),
            final(self).config == old(self).config,
            nobody_draws(old(self).config@, old(self)@, buttons) ==> final(self).state.rand == old(
                self,
            ).state.rand,
            exists|choices: Seq<Option<Direction>>|
                {
                    &&& choices_allowed(old(self).config@, old(self)@, buttons, choices)
                    &&& final(self)@ == #[trigger] tick(
                        old(self).config@,
                        old(self)@,
                        buttons,
                        choices,
                    )
                },
    {
        let ghost cfg = self.config@;
        let ghost s = self@;
        let pre_update_score: i32 = self.score();
        proof {
            room_for_the_score(cfg, s);
        }
        self.play(buttons);
        let ghost a = self@;
        proof {
            assert forall|j: int| 0 <= j < a.enemies.len() implies enemy_ai(
                (#[trigger] a.enemies[j]).ai,
            ) && enemy_has_room(cfg, a.enemies[j]) by {
                assert(enemy_ai(s.enemies[j].ai));
                assert(enemy_has_room(cfg, s.enemies[j]));
            }
            room_after_the_players_turn(cfg, s, buttons);
        }
        let changes = self.enemies_phase();
        let ghost c = self@;
        let ghost choices = choose|choices: Seq<Option<Direction>>|
            enemies_phase_outcome(cfg, a, choices, c, changes@);
        proof {
            assert(enemies_phase_outcome(cfg, a, choices, c, changes@));
            assert(choices_allowed(cfg, s, buttons, choices));
            assert(multiplier_ceiling(c) == multiplier_ceiling(a));
        }
        let dead = self.resolve(&changes);
        self.finish(dead, pre_update_score);
        proof {
            let r = tick_resolution(cfg, a, choices);
            assert(self@ == finished(cfg, settled(c, r), r.dead, s.score));
            assert(self@ == tick(cfg, s, buttons, choices));
        }
    }

    /// The enemies' part of a tick, after the player's turn: the collisions
    /// before the enemies move, the enemies' speeds and freezes, their
    /// moves, the collisions after them, and their teleports. Returns the
    /// collisions in the order in which they are to be resolved.
    fn enemies_phase(&mut self) -> (events: Vec<EnemyPlayerState>)
        requires
            old(self).wf(),
            forall|j: int|
                0 <= j < old(self)@.enemies.len() ==> enemy_has_room(
                    old(self).config@,
                    #[trigger] old(self)@.enemies[j],
                ),
        ensures
            exists|choices: Seq<Option<Direction>>| #[trigger]
                enemies_phase_outcome(
                    old(self).config@,
                    old(self)@,
                    choices,
                    final(self)@,
                    events@,
                ),
            (forall|i: int|
                0 <= i < old(self)@.enemies.len() ==> !retimed(
                    old(self).config@,
                    #[trigger] old(self)@.enemies[i],
                ).draws(old(self)@.board)) ==> final(self).state.rand == old(self).state.rand,
            final(self).config == old(self).config,
            final(self).wf(),
    {
        let ghost cfg = self.config@;
        let ghost a = self@;
        let mut changes: Vec<EnemyPlayerState> = Vec::new();
        self.collide(&mut changes);
        self.retime_enemies();
        let ghost b = self@;
        proof {
            assert forall|j: int| 0 <= j < b.enemies.len() implies (#[trigger] b.enemies[j]).has_room()
                && !b.enemies[j].is_player() by {
                assert(enemy_ai(a.enemies[j].ai));
                assert(enemy_has_room(cfg, a.enemies[j]));
                assert(b.enemies[j] == retimed(cfg, a.enemies[j]));
            }
        }
        self.move_enemies();
        let ghost choices = choose|choices: Seq<Option<Direction>>|
            {
                &&& choices.len() == b.enemies.len()
                &&& forall|i: int|
                    0 <= i < choices.len() ==> choice_allowed(
                        b.board,
                        b.enemies[i].tile_after_update(b.board),
                        #[trigger] choices[i],
                    )
                &&& self@ == #[trigger] moved_game(b, cfg.history_limit, choices)
            };
        let ghost moved = enemies_moved(cfg, a, choices);
        proof {
            assert(self@.enemies =~= moved);
            assert forall|i: int| 0 <= i < choices.len() implies choice_allowed(
                a.board,
                retimed(cfg, a.enemies[i]).tile_after_update(a.board),
                #[trigger] choices[i],
            ) by {
                assert(b.enemies[i] == retimed(cfg, a.enemies[i]));
            }
        }
        self.collide(&mut changes);
        assert(changes@ =~= tick_events(cfg, a, choices));
        self.teleport_enemies();
        proof {
            let c = self@;
            assert(c.enemies =~= enemies_turn(cfg, a, choices).enemies);
            assert(c == enemies_turn(cfg, a, choices));
            assert forall|j: int| 0 <= j < c.enemies.len() implies enemy_ai(
                (#[trigger] c.enemies[j]).ai,
            ) by {
                assert(enemy_ai(a.enemies[j].ai));
                assert(moved[j] == enemy_moved(cfg, a.enemies[j], a.board, choices[j]));
            }
            assert(enemies_phase_outcome(cfg, a, choices, c, changes@));
        }
        changes
    }
}

/// Whether the enemies' part of a tick may lead from the game `a` to the
/// game `c` with the collisions `events`, the random choices having come out
/// as `choices`.
pub open spec fn enemies_phase_outcome(
    cfg: ConfigView,
    a: GameView,
    choices: Seq<Option<Direction>>,
    c: GameView,
    events: Seq<EnemyPlayerState>,
) -> bool {
    &&& choices.len() == a.enemies.len()
    &&& forall|i: int|
        0 <= i < choices.len() ==> choice_allowed(
            a.board,
            retimed(cfg, a.enemies[i]).tile_after_update(a.board),
            #[trigger] choices[i],
        )
    &&& c == enemies_turn(cfg, a, choices)
    &&& events == tick_events(cfg, a, choices)
}

/// A game with room for a tick has room for what the player collects.
proof fn room_for_the_score(cfg: ConfigView, s: GameView)
    requires
        game_has_room(cfg, s),
    ensures
        magnitude(s.score) + larger(
            magnitude(cfg.score_increase_per_pellet),
            magnitude(cfg.score_increase_per_power_pellet),
        ) <= i32::MAX,
        multiplier_ceiling(s) >= 1,
{
    let m = larger(1, magnitude(s.enemies_caught_multiplier));
    let q = pow2(s.enemies.len()) as int;
    let b = magnitude(cfg.score_increase_base_per_ghost_catch);
    vstd::arithmetic::power2::lemma_pow2_pos(s.enemies.len());
    assert(m * q >= 1) by (nonlinear_arith)
        requires
            m >= 1,
            q >= 1,
    ;
    assert(b * (m * q) >= 0) by (nonlinear_arith)
        requires
            b >= 0,
            m * q >= 1,
    ;
}

/// A game with room for a tick still has room for the catches once the
/// player has had its turn.
proof fn room_after_the_players_turn(cfg: ConfigView, s: GameView, buttons: Input)
    requires
        game_has_room(cfg, s),
    ensures
        multiplier_ceiling(player_turn(cfg, s, buttons)) <= i32::MAX,
        magnitude(player_turn(cfg, s, buttons).score) + magnitude(
            cfg.score_increase_base_per_ghost_catch,
        ) * multiplier_ceiling(player_turn(cfg, s, buttons)) <= i32::MAX,
{
    let a = player_turn(cfg, s, buttons);
    let m = larger(1, magnitude(s.enemies_caught_multiplier));
    let ma = larger(1, magnitude(a.enemies_caught_multiplier));
    let q = pow2(s.enemies.len()) as int;
    let b = magnitude(cfg.score_increase_base_per_ghost_catch);
    vstd::arithmetic::power2::lemma_pow2_pos(s.enemies.len());
    assert(a.enemies.len() == s.enemies.len());
    assert(ma <= m);
    assert(ma * q <= m * q) by (nonlinear_arith)
        requires
            ma <= m,
            q >= 1,
    ;
    assert(b * (ma * q) <= b * (m * q)) by (nonlinear_arith)
        requires
            ma * q <= m * q,
            b >= 0,
    ;
    let pa = cfg.score_increase_per_pellet;
    let pb = cfg.score_increase_per_power_pellet;
    match s.player.pickup(s.board) {
        Some(u) => {
            let x = u.pellets_collected as int;
            let y = u.power_pellets_collected as int;
            assert((x == 1 && y == 0) || (x == 0 && y == 1));
            assert(x * pa + y * pb == (if x > 0 { pa } else { pb })) by (nonlinear_arith)
                requires
                    (x == 1 && y == 0) || (x == 0 && y == 1),
            ;
        },
        None => {},
    }
    assert(magnitude(pickup_score(cfg, s)) <= larger(magnitude(pa), magnitude(pb)));
}

/// Once the player has died, the rest of the collisions changes nothing.
pub proof fn halted_resolution(
    cfg: ConfigView,
    start: Resolution,
    events: Seq<EnemyPlayerState>,
    k: int,
)
    requires
        0 <= k <= events.len(),
        resolved(cfg, start, events.take(k)).dead,
    ensures
        resolved(cfg, start, events) == resolved(cfg, start, events.take(k)),
    decreases events.len() - k,
{
    if k == events.len() {
        assert(events.take(k) =~= events);
    } else {
        assert(events.take(k + 1).drop_last() =~= events.take(k));
        halted_resolution(cfg, start, events, k + 1);
    }
}

/// One more catch fits: with `c` of `n` enemies caught so far, the award and
/// the doubled multiplier stay within what was set aside for `n` catches.
proof fn catch_fits(base: int, m: int, score0: int, score: int, mult: int, c: nat, n: nat)
    requires
        m >= 1,
        c < n,
        magnitude(mult) <= m * pow2(c),
        magnitude(score - score0) <= magnitude(base) * (m * (pow2(c) - 1)),
        m * pow2(n) <= i32::MAX,
        magnitude(score0) + magnitude(base) * (m * pow2(n)) <= i32::MAX,
    ensures
        i32::MIN <= base * mult <= i32::MAX,
        i32::MIN <= score + base * mult <= i32::MAX,
        i32::MIN <= mult * 2 <= i32::MAX,
        magnitude(mult * 2) <= m * pow2(c + 1),
        magnitude(score + base * mult - score0) <= magnitude(base) * (m * (pow2(c + 1) - 1)),
{
    let p = pow2(c) as int;
    let q = pow2(n) as int;
    let b = magnitude(base);
    vstd::arithmetic::power2::lemma_pow2_unfold(c + 1);
    vstd::arithmetic::power2::lemma_pow2_pos(c);
    assert(pow2(c + 1) == 2 * p);
    if c + 1 < n {
        vstd::arithmetic::power2::lemma_pow2_strictly_increases(c + 1, n);
    }
    assert(2 * p <= q);
    assert(m * (2 * p) <= m * q) by (nonlinear_arith)
        requires
            2 * p <= q,
            m >= 1,
    ;
    assert(m * (2 * p) == 2 * (m * p)) by (nonlinear_arith);
    assert(magnitude(base * mult) <= b * (m * p)) by (nonlinear_arith)
        requires
            b == magnitude(base),
            magnitude(mult) <= m * p,
    ;
    assert(b * (m * (2 * p - 1)) == b * (m * (p - 1)) + b * (m * p)) by (nonlinear_arith);
    assert(b * (m * (2 * p - 1)) <= b * (m * q)) by (nonlinear_arith)
        requires
            2 * p <= q,
            m >= 1,
            b >= 0,
    ;
    assert(b * (m * p) <= b * (m * q)) by (nonlinear_arith)
        requires
            p <= q,
            m >= 1,
            b >= 0,
    ;
}

/// The game after every enemy has made its move, where `choices[i]` is what
/// the random choice of enemy `i` gives if it makes one.
pub open spec fn moved_game(s: GameView, history_limit: int, choices: Seq<Option<Direction>>) -> GameView {
    GameView {
        enemies: Seq::new(
            s.enemies.len(),
            |i: int| s.enemies[i].updated(s.board, Input::idle(), history_limit, choices[i]),
        ),
        ..s
    }
}

} // verus!
