//! How a mob picks the tile it walks to next: from the player's input, or by
//! wandering from junction to junction.

use crate::board::{junction_at, walkable_at, Board, Grid};
use crate::geometry::{neighbor, Direction, Input, Point, TilePoint};
use crate::mob::Mob;
use crate::random::choose_direction;
use rand::rngs::StdRng;
use vstd::prelude::*;

verus! {

/// The strategy that moves a mob.
#[derive(Clone, Copy, Debug, PartialEq, Eq, Structural)]
pub enum MovementAI {
    /// The mob follows the player's input.
    Player,
    /// The mob keeps its heading until it stands on a junction or is
    /// blocked; there it picks a walkable direction at random.
    EnemyRandomMvmt {
        /// The tile on which the mob starts.
        start: TilePoint,
        /// The heading with which the mob starts.
        start_dir: Direction,
        /// The heading that the mob follows now.
        dir: Direction,
    },
}

/// The model of an optional tile.
pub open spec fn target_view(t: Option<TilePoint>) -> Option<Point> {
    match t {
        Some(t) => Some(t@),
        None => None,
    }
}

/// Whether a random choice among the walkable directions at a tile may come
/// out as `choice`: any direction whose neighbour is walkable, and nothing
/// only where no neighbour is.
pub open spec fn choice_allowed(g: Grid, p: Point, choice: Option<Direction>) -> bool {
    match choice {
        Some(d) => walkable_at(g, neighbor(p, d)),
        None => forall|d: Direction| !walkable_at(g, neighbor(p, d)),
    }
}

/// At every tile some choice is allowed.
pub proof fn some_choice_is_allowed(g: Grid, p: Point)
    ensures
        exists|choice: Option<Direction>| choice_allowed(g, p, choice),
{
    if walkable_at(g, neighbor(p, Direction::Up)) {
        assert(choice_allowed(g, p, Some(Direction::Up)));
    } else if walkable_at(g, neighbor(p, Direction::Down)) {
        assert(choice_allowed(g, p, Some(Direction::Down)));
    } else if walkable_at(g, neighbor(p, Direction::Left)) {
        assert(choice_allowed(g, p, Some(Direction::Left)));
    } else if walkable_at(g, neighbor(p, Direction::Right)) {
        assert(choice_allowed(g, p, Some(Direction::Right)));
    } else {
        assert forall|d: Direction| !walkable_at(g, neighbor(p, d)) by {
            match d {
                Direction::Up => {},
                Direction::Down => {},
                Direction::Left => {},
                Direction::Right => {},
            }
        }
        assert(choice_allowed(g, p, None));
    }
}

impl MovementAI {
    /// The strategy with its heading back at the one it starts with.
    pub open spec fn restarted(self) -> MovementAI {
        match self {
            MovementAI::Player => self,
            MovementAI::EnemyRandomMvmt { start, start_dir, dir } => MovementAI::EnemyRandomMvmt {
                start,
                start_dir,
                dir: start_dir,
            },
        }
    }

    /// Whether a wandering mob at a tile decides anew: on a junction, and
    /// where its heading is blocked.
    pub open spec fn rethinks(self, g: Grid, p: Point) -> bool {
        match self {
            MovementAI::Player => false,
            MovementAI::EnemyRandomMvmt { dir, .. } => junction_at(g, p) || !walkable_at(
                g,
                neighbor(p, dir),
            ),
        }
    }

    /// Whether the strategy asks the generator at a tile: where a wandering
    /// mob decides anew and has a direction to choose.
    pub open spec fn draws(self, g: Grid, p: Point) -> bool {
        self.rethinks(g, p) && !choice_allowed(g, p, None)
    }

    /// The strategy after a random choice came out as `choice`: the chosen
    /// direction is the new heading; without one the heading stays.
    pub open spec fn adopting(self, choice: Option<Direction>) -> MovementAI {
        match (self, choice) {
            (MovementAI::EnemyRandomMvmt { start, start_dir, dir }, Some(d)) => {
                MovementAI::EnemyRandomMvmt { start, start_dir, dir: d }
            },
            _ => self,
        }
    }

    /// The strategy after it has decided at a tile, where `choice` is what
    /// the random choice gives if one is made.
    pub open spec fn after_decision(self, g: Grid, p: Point, choice: Option<Direction>) -> MovementAI {
        if self.rethinks(g, p) {
            self.adopting(choice)
        } else {
            self
        }
    }

    /// The tile that the strategy walks to next from a tile.
    ///
    /// The player goes where the input points, if a mob can stand there. A
    /// wandering mob goes on along its heading, and where it decides anew it
    /// goes where `choice` points.
    pub open spec fn target(self, g: Grid, p: Point, buttons: Input, choice: Option<Direction>) -> Option<
        Point,
    > {
        match self {
            MovementAI::Player => match buttons.direction() {
                Some(d) => if walkable_at(g, neighbor(p, d)) {
                    Some(neighbor(p, d))
                } else {
                    None
                },
                None => None,
            },
            MovementAI::EnemyRandomMvmt { dir, .. } => if self.rethinks(g, p) {
                match choice {
                    Some(d) => Some(neighbor(p, d)),
                    None => None,
                }
            } else {
                Some(neighbor(p, dir))
            },
        }
    }

    /// Puts the heading back to the one the strategy starts with.
    pub fn reset(&mut self)
        ensures
            *final(self) == old(self).restarted(),
    {
        match *self {
            MovementAI::Player => {},
            MovementAI::EnemyRandomMvmt { start, start_dir, .. } => {
                *self = MovementAI::EnemyRandomMvmt { start, start_dir, dir: start_dir };
            },
        }
    }

    /// Takes what a random choice among the walkable directions at a tile
    /// gave: the chosen direction becomes the heading, and the tile it leads
    /// to is the target. Without a choice the heading stays and there is no
    /// target.
    pub fn adopt(&mut self, position: &TilePoint, choice: Option<Direction>) -> (r: Option<TilePoint>)
        requires
            i32::MIN < position.tx < i32::MAX,
            i32::MIN < position.ty < i32::MAX,
        ensures
            *final(self) == old(self).adopting(choice),
            target_view(r) == (match choice {
                Some(d) => Some(neighbor(position@, d)),
                None => None,
            }),
    {
        match choice {
            Some(d) => {
                match *self {
                    MovementAI::Player => {},
                    MovementAI::EnemyRandomMvmt { start, start_dir, .. } => {
                        *self = MovementAI::EnemyRandomMvmt { start, start_dir, dir: d };
                    },
                }
                Some(position.step(d))
            },
            None => None,
        }
    }

    /// Picks the tile to walk to next from `position`.
    ///
    /// What the player and a wandering mob that keeps its heading do is
    /// fixed, and the generator is left as it was. Where a wandering mob
    /// decides anew, the generator picks among the walkable directions: the
    /// result is then what `target` and `after_decision` give for one of the
    /// allowed choices. Without a walkable direction nothing is drawn.
    pub fn choose_next_tile(
        &mut self,
        position: &TilePoint,
        buttons: Input,
        board: &Board,
        player: Option<Mob>,
        rng: &mut StdRng,
    ) -> (r: Option<TilePoint>)
        requires
            board.wf(),
            i32::MIN < position.tx < i32::MAX,
            i32::MIN < position.ty < i32::MAX,
        ensures
            exists|choice: Option<Direction>|
                {
                    &&& choice_allowed(board@, position@, choice)
                    &&& *final(self) == #[trigger] old(self).after_decision(
                        board@,
                        position@,
                        choice,
                    )
                    &&& target_view(r) == old(self).target(board@, position@, buttons, choice)
                },
            !old(self).draws(board@, position@) ==> *final(rng) == *old(rng),
    {
        let ghost ai = *self;
        let ghost any: Option<Direction>;
        proof {
            some_choice_is_allowed(board@, position@);
            any = choose|c: Option<Direction>| choice_allowed(board@, position@, c);
        }
        match *self {
            MovementAI::Player => {
                let r = match buttons.pressed() {
                    Some(dir) => board.can_move(position, dir),
                    None => None,
                };
                assert(*self == ai.after_decision(board@, position@, any));
                r
            },
            MovementAI::EnemyRandomMvmt { dir, .. } => {
                let tp_default = board.can_move(position, dir);
                if board.is_junction(position) || tp_default.is_none() {
                    let eligible = board.walkable_directions(position);
                    let choice = choose_direction(&eligible, rng);
                    proof {
                        if choice is None {
                            assert forall|d: Direction| !walkable_at(
                                board@,
                                neighbor(position@, d),
                            ) by {
                                if walkable_at(board@, neighbor(position@, d)) {
                                    assert(eligible@.contains(d));
                                }
                            }
                        }
                        assert(choice_allowed(board@, position@, choice));
                    }
                    let r = self.adopt(position, choice);
                    assert(*self == ai.after_decision(board@, position@, choice));
                    r
                } else {
                    assert(*self == ai.after_decision(board@, position@, any));
                    tp_default
                }
            },
        }
    }
}

impl Board {
    /// The directions in which a mob at `position` can walk, in the order
    /// up, down, left, right.
    pub fn walkable_directions(&self, position: &TilePoint) -> (dirs: Vec<Direction>)
        requires
            i32::MIN < position.tx < i32::MAX,
            i32::MIN < position.ty < i32::MAX,
        ensures
            forall|d: Direction|
                dirs@.contains(d) <==> walkable_at(self@, neighbor(position@, d)),
            dirs@ == walkable_among(self@, position@, Direction::Up) + walkable_among(
                self@,
                position@,
                Direction::Down,
            ) + walkable_among(self@, position@, Direction::Left) + walkable_among(
                self@,
                position@,
                Direction::Right,
            ),
    {
        let mut dirs: Vec<Direction> = Vec::new();
        if self.can_move(position, Direction::Up).is_some() {
            dirs.push(Direction::Up);
        }
        if self.can_move(position, Direction::Down).is_some() {
            dirs.push(Direction::Down);
        }
        if self.can_move(position, Direction::Left).is_some() {
            dirs.push(Direction::Left);
        }
        if self.can_move(position, Direction::Right).is_some() {
            dirs.push(Direction::Right);
        }
        proof {
            let up = walkable_among(self@, position@, Direction::Up);
            let down = walkable_among(self@, position@, Direction::Down);
            let left = walkable_among(self@, position@, Direction::Left);
            let right = walkable_among(self@, position@, Direction::Right);
            assert(dirs@ =~= up + down + left + right);
            assert forall|i: int| 0 <= i < dirs@.len() implies walkable_at(
                self@,
                neighbor(position@, #[trigger] dirs@[i]),
            ) by {}
            assert forall|d: Direction| walkable_at(self@, neighbor(position@, d)) implies dirs@.contains(
                d,
            ) by {
                let i: int = match d {
                    Direction::Up => 0,
                    Direction::Down => up.len() as int,
                    Direction::Left => (up.len() + down.len()) as int,
                    Direction::Right => (up.len() + down.len() + left.len()) as int,
                };
                assert(dirs@[i] == d);
            }
        }
        dirs
    }
}

/// The direction `d` alone if a mob can walk that way from `p`, and nothing
/// otherwise.
pub open spec fn walkable_among(g: Grid, p: Point, d: Direction) -> Seq<Direction> {
    if walkable_at(g, neighbor(p, d)) {
        seq![d]
    } else {
        Seq::empty()
    }
}

} // verus!
