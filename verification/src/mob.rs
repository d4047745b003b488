//! Mobs: the player and the enemies, which share how they are placed and how
//! they move.

use crate::ai::{choice_allowed, target_view, MovementAI};
use crate::board::{
    capped, collected_grid, grid_width, id_of, junction_at, pickup_of, tile_at, Board, BoardUpdate,
    Grid,
};
use crate::geometry::{
    tile_in_range, tile_of, world_of, Direction, Input, Point, TilePoint, WorldPoint,
};
use rand::rngs::StdRng;
use std::collections::VecDeque;
use vstd::prelude::*;

verus! {

/// The magnitude of an integer.
pub open spec fn magnitude(x: int) -> int {
    if x >= 0 {
        x
    } else {
        -x
    }
}

/// A coordinate moved by `speed` towards the side on which `distance` lies.
pub open spec fn moved_toward(coordinate: int, speed: int, distance: int) -> int {
    if distance > 0 {
        coordinate + speed
    } else if distance < 0 {
        coordinate - speed
    } else {
        coordinate
    }
}

/// The column at which a mob comes out of a teleport: the one mirrored to
/// the opposite side of the grid, so that a mob that went in at the left
/// edge comes out at the right edge, and the other way round.
pub open spec fn teleport_exit(g: Grid, column: int) -> int {
    grid_width(g) - 1 - column
}

/// A mobile unit: the player or an enemy.
#[derive(Clone, Debug)]
pub struct Mob {
    /// What moves this mob. The player is the mob with `MovementAI::Player`.
    pub ai: MovementAI,
    /// Where the mob is, in world units.
    pub position: WorldPoint,
    /// Whether the player can catch this mob; meaningful for enemies.
    pub vulnerable: bool,
    /// How many world units the mob moves per tick on each axis.
    pub speed: i32,
    /// The tile that the mob is walking to, if any.
    pub step: Option<TilePoint>,
    /// The junctions that the mob visited, most recent first.
    pub history: VecDeque<u32>,
    /// For how many more ticks an enemy stays frozen.
    pub immobilized_timer: i32,
}

/// The model of a mob.
pub struct MobView {
    pub ai: MovementAI,
    pub position: Point,
    pub vulnerable: bool,
    pub speed: int,
    pub step: Option<Point>,
    pub history: Seq<u32>,
    pub immobilized_timer: int,
}

impl View for Mob {
    type V = MobView;

    open spec fn view(&self) -> MobView {
        MobView {
            ai: self.ai,
            position: self.position@,
            vulnerable: self.vulnerable,
            speed: self.speed as int,
            step: target_view(self.step),
            history: self.history@,
            immobilized_timer: self.immobilized_timer as int,
        }
    }
}

impl MobView {
    /// The tile on which the mob stands.
    pub open spec fn tile(self) -> Point {
        tile_of(self.position)
    }

    /// Whether the mob is the player.
    pub open spec fn is_player(self) -> bool {
        self.ai is Player
    }

    /// The tile on which the mob starts, given where the player starts.
    pub open spec fn start(self, player_start: Point) -> Point {
        match self.ai {
            MovementAI::Player => player_start,
            MovementAI::EnemyRandomMvmt { start, .. } => start@,
        }
    }

    /// Whether one update of the mob stays within what `i32` coordinates can
    /// hold: the tile it walks to has a world position, and a move by its
    /// speed in any direction ends within `i32`.
    pub open spec fn has_room(self) -> bool {
        &&& self.step matches Some(t) ==> tile_in_range(t)
        &&& magnitude(self.position.x) + magnitude(self.speed) <= i32::MAX
        &&& magnitude(self.position.y) + magnitude(self.speed) <= i32::MAX
    }

    /// The mob with an empty history, on a junction, starts its history with
    /// that junction.
    pub open spec fn seeded(self, g: Grid) -> MobView {
        if self.history.len() == 0 && junction_at(g, self.tile()) {
            MobView { history: seq![id_of(g, self.tile()) as u32], ..self }
        } else {
            self
        }
    }

    /// The mob at the moment it has reached the tile it walked to: it walks
    /// to none any more, and a junction is put in front of its history.
    pub open spec fn arrived(self, g: Grid, t: Point) -> MobView {
        MobView {
            step: None,
            history: if junction_at(g, t) {
                seq![id_of(g, t) as u32] + self.history
            } else {
                self.history
            },
            ..self
        }
    }

    /// Whether the mob stands exactly where the tile it walks to begins.
    pub open spec fn at_target(self, t: Point) -> bool {
        self.position == world_of(t)
    }

    /// Whether the tile that the mob walks to is less than one move away on
    /// both axes.
    pub open spec fn within_reach(self, t: Point) -> bool {
        &&& magnitude(world_of(t).x - self.position.x) < self.speed
        &&& magnitude(world_of(t).y - self.position.y) < self.speed
    }

    /// The mob after it has moved for one tick towards the tile it walks to.
    ///
    /// A mob that is at that tile, or less than one move away on both axes,
    /// ends exactly on it and has arrived. Any other moves by its speed on
    /// each axis on which it is not there yet, and keeps walking.
    pub open spec fn advanced(self, g: Grid) -> MobView {
        match self.step {
            None => self,
            Some(t) => {
                if self.at_target(t) {
                    self.arrived(g, t)
                } else if self.within_reach(t) {
                    (MobView { position: world_of(t), ..self }).arrived(g, t)
                } else {
                    MobView {
                        position: Point {
                            x: moved_toward(
                                self.position.x,
                                self.speed,
                                world_of(t).x - self.position.x,
                            ),
                            y: moved_toward(
                                self.position.y,
                                self.speed,
                                world_of(t).y - self.position.y,
                            ),
                        },
                        ..self
                    }
                }
            },
        }
    }

    /// The mob after it has looked for a tile to walk to, which it does only
    /// when it walks to none.
    pub open spec fn planned(self, g: Grid, buttons: Input, choice: Option<Direction>) -> MobView {
        if self.step is None {
            MobView {
                ai: self.ai.after_decision(g, self.tile(), choice),
                step: self.ai.target(g, self.tile(), buttons, choice),
                ..self
            }
        } else {
            self
        }
    }

    /// The mob after the bookkeeping that ends an update: the player that
    /// collected something keeps only its most recent junction, an enemy
    /// keeps at most `history_limit` junctions.
    pub open spec fn tidied(self, g: Grid, history_limit: int) -> MobView {
        if self.is_player() {
            if tile_at(g, self.tile()).is_collectable() {
                MobView { history: capped(self.history, 1), ..self }
            } else {
                self
            }
        } else {
            MobView { history: capped(self.history, history_limit), ..self }
        }
    }

    /// The mob after one update on the grid `g`, where `choice` is what the
    /// random choice gives if the mob makes one.
    pub open spec fn updated(
        self,
        g: Grid,
        buttons: Input,
        history_limit: int,
        choice: Option<Direction>,
    ) -> MobView {
        self.seeded(g).advanced(g).planned(g, buttons, choice).tidied(g, history_limit)
    }

    /// Whether one update of the mob asks the generator: where the mob walks
    /// to no tile once it has moved, and its strategy asks at the tile it
    /// stands on then.
    pub open spec fn draws(self, g: Grid) -> bool {
        self.seeded(g).advanced(g).step is None && self.ai.draws(g, self.tile_after_update(g))
    }

    /// The tile on which the mob stands after one update.
    pub open spec fn tile_after_update(self, g: Grid) -> Point {
        self.seeded(g).advanced(g).tile()
    }

    /// The grid after one update of the mob: the player collects what lies
    /// on the tile it stands on then.
    pub open spec fn grid_after_update(self, g: Grid) -> Grid {
        if self.is_player() {
            collected_grid(g, self.tile_after_update(g))
        } else {
            g
        }
    }

    /// What one update of the mob reports: what the player collected, if
    /// anything.
    pub open spec fn pickup(self, g: Grid) -> Option<BoardUpdate> {
        if self.is_player() && tile_at(g, self.tile_after_update(g)).is_collectable() {
            Some(pickup_of(tile_at(g, self.tile_after_update(g))))
        } else {
            None
        }
    }

    /// The tile on which the mob comes out of a teleport: in the row it is
    /// in, at the mirrored column.
    pub open spec fn teleport_target(self, g: Grid) -> Point {
        Point { x: teleport_exit(g, self.tile().x), y: self.tile().y }
    }

    /// The mob after a teleport: exactly on the tile it comes out on, and
    /// walking to no tile.
    pub open spec fn teleported(self, g: Grid) -> MobView {
        MobView { step: None, position: world_of(self.teleport_target(g)), ..self }
    }

    /// The mob put back to where it starts.
    pub open spec fn restarted(self, player_start: Point) -> MobView {
        MobView {
            ai: self.ai.restarted(),
            position: world_of(self.start(player_start)),
            vulnerable: false,
            step: None,
            history: Seq::empty(),
            ..self
        }
    }
}

impl Mob {
    /// A mob at a position, walking nowhere yet.
    pub fn new(ai: MovementAI, position: WorldPoint, speed: i32) -> (m: Mob)
        ensures
            m@ == (MobView {
                ai,
                position: position@,
                vulnerable: false,
                speed: speed as int,
                step: None,
                history: Seq::empty(),
                immobilized_timer: 0,
            }),
    {
        Mob {
            ai,
            position,
            step: None,
            vulnerable: false,
            speed,
            history: VecDeque::new(),
            immobilized_timer: 0,
        }
    }

    /// The player at a position.
    pub fn new_player(position: WorldPoint, speed: i32) -> (m: Mob)
        ensures
            m@ == (MobView {
                ai: MovementAI::Player,
                position: position@,
                vulnerable: false,
                speed: speed as int,
                step: None,
                history: Seq::empty(),
                immobilized_timer: 0,
            }),
    {
        Mob::new(MovementAI::Player, position, speed)
    }

    /// Whether this mob is the player.
    pub fn is_player(&self) -> (b: bool)
        ensures
            b == self@.is_player(),
    {
        self.ai == MovementAI::Player
    }

    /// Sets the speed.
    pub fn change_speed(&mut self, new_speed: i32)
        ensures
            final(self)@ == (MobView { speed: new_speed as int, ..old(self)@ }),
    {
        self.speed = new_speed;
    }

    /// Sends the mob through a teleport: it comes out in the row it is in,
    /// on the tile mirrored to the opposite side of the board, and walks to
    /// no tile. The tile it comes out on must have a world position, as every
    /// tile of the board has.
    pub fn teleport(&mut self, board: &Board)
        requires
            board.shaped(),
            tile_in_range(old(self)@.teleport_target(board@)),
        ensures
            final(self)@ == old(self)@.teleported(board@),
    {
        self.step = None;
        let tile = self.position.to_tile();
        let new_x: i32 = (board.width as i32) - 1 - tile.tx;
        self.position = TilePoint::new(new_x, tile.ty).to_world();
    }

    /// Puts the mob back to where it starts: the player to `player_start`, an
    /// enemy to the start of its strategy.
    pub fn reset(&mut self, player_start: &TilePoint, board: &Board)
        requires
            tile_in_range(old(self)@.start(player_start@)),
        ensures
            final(self)@ == old(self)@.restarted(player_start@),
    {
        self.step = None;
        self.ai.reset();
        self.position = match self.ai {
            MovementAI::Player => player_start.to_world(),
            MovementAI::EnemyRandomMvmt { start, .. } => start.to_world(),
        };
        self.history.clear();
        self.vulnerable = false;
    }

    /// Records that the mob has reached the tile it walked to.
    fn arrive(&mut self, board: &Board, target: &TilePoint)
        requires
            board.wf(),
        ensures
            final(self)@ == old(self)@.arrived(board@, target@),
    {
        if let Some(pt) = board.get_junction_id(target) {
            self.history.push_front(pt);
        }
        self.step = None;
    }

    /// Moves the mob for one tick towards the tile it walks to.
    pub fn advance(&mut self, board: &Board)
        requires
            board.wf(),
            old(self)@.has_room(),
        ensures
            final(self)@ == old(self)@.advanced(board@),
    {
        if let Some(target) = self.step {
            let world_target = target.to_world();
            let dx: i64 = world_target.x as i64 - self.position.x as i64;
            let dy: i64 = world_target.y as i64 - self.position.y as i64;
            let reach: i64 = self.speed as i64;
            if dx == 0 && dy == 0 {
                self.arrive(board, &target);
            } else if -reach < dx && dx < reach && -reach < dy && dy < reach {
                self.position = world_target;
                self.arrive(board, &target);
            } else {
                if dx > 0 {
                    self.position.x = self.position.x + self.speed;
                } else if dx < 0 {
                    self.position.x = self.position.x - self.speed;
                }
                if dy > 0 {
                    self.position.y = self.position.y + self.speed;
                } else if dy < 0 {
                    self.position.y = self.position.y - self.speed;
                }
            }
        }
    }

    /// One update of the mob: it moves towards the tile it walks to, looks
    /// for the next one when it walks to none, and then the player collects
    /// what lies under it while an enemy trims its history.
    ///
    /// Returns what the player collected, if anything. Where a wandering
    /// enemy decides anew the generator picks its direction, so the mob ends
    /// as `updated` says for one of the allowed choices. In every other
    /// update the generator is left as it was.
    pub fn update(
        &mut self,
        buttons: Input,
        board: &mut Board,
        player: Option<Mob>,
        history_limit: u32,
        rng: &mut StdRng,
    ) -> (r: Option<BoardUpdate>)
        requires
            old(board).wf(),
            old(self)@.has_room(),
        ensures
            exists|choice: Option<Direction>|
                {
                    &&& choice_allowed(
                        old(board)@,
                        old(self)@.tile_after_update(old(board)@),
                        choice,
                    )
                    &&& final(self)@ == #[trigger] old(self)@.updated(
                        old(board)@,
                        buttons,
                        history_limit as int,
                        choice,
                    )
                },
            !old(self)@.draws(old(board)@) ==> *final(rng) == *old(rng),
            final(board)@ == old(self)@.grid_after_update(old(board)@),
            r == old(self)@.pickup(old(board)@),
            final(board).wf(),
            final(board).width == old(board).width,
            final(board).height == old(board).height,
    {
        let ghost g = board@;
        let ghost m0 = self@;
        if self.history.len() == 0 {
            if let Some(pt) = board.get_junction_id(&self.position.to_tile()) {
                self.history.push_front(pt);
            }
        }
        assert(self@ == m0.seeded(g));
        self.advance(board);
        let ghost m2 = self@;
        let ghost choice: Option<Direction>;
        if self.step.is_none() {
            let tile = self.position.to_tile();
            let ghost ai = self.ai;
            self.step = self.ai.choose_next_tile(&tile, buttons, board, player, rng);
            proof {
                choice = choose|c: Option<Direction>|
                    {
                        &&& choice_allowed(g, tile@, c)
                        &&& self.ai == #[trigger] ai.after_decision(g, tile@, c)
                        &&& target_view(self.step) == ai.target(g, tile@, buttons, c)
                    };
            }
        } else {
            proof {
                crate::ai::some_choice_is_allowed(g, m2.tile());
                choice = choose|c: Option<Direction>| choice_allowed(g, m2.tile(), c);
            }
        }
        assert(self@ == m2.planned(g, buttons, choice));
        let ghost m3 = self@;
        let r = if self.is_player() {
            board.check_pellets_every_tile(&self.position, &mut self.history).into_option()
        } else {
            self.history.truncate(history_limit as usize);
            None
        };
        proof {
            assert(self@ == m3.tidied(g, history_limit as int));
            assert(self@ == m0.updated(g, buttons, history_limit as int, choice));
        }
        r
    }
}

impl Board {
    /// An enemy with a strategy and a speed, placed where its strategy
    /// starts.
    pub fn make_enemy(&self, ai: MovementAI, speed: i32) -> (m: Mob)
        requires
            ai matches MovementAI::EnemyRandomMvmt { start, .. } ==> tile_in_range(start@),
        ensures
            m@ == (MobView {
                ai: ai.restarted(),
                position: world_of(
                    (MobView {
                        ai,
                        position: Point { x: 0, y: 0 },
                        vulnerable: false,
                        speed: speed as int,
                        step: None,
                        history: Seq::empty(),
                        immobilized_timer: 0,
                    }).start(Point { x: 0, y: 0 }),
                ),
                vulnerable: false,
                speed: speed as int,
                step: None,
                history: Seq::empty(),
                immobilized_timer: 0,
            }),
    {
        let fake = TilePoint::new(0, 0);
        let mut m = Mob::new(ai, fake.to_world(), speed);
        m.reset(&fake, self);
        m
    }
}

} // verus!
