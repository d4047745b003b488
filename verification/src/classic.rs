//! The classic level and the classic constants: what a game is made from
//! when nothing else is configured.

use crate::ai::MovementAI;
use crate::board::{
    all_codes_valid, grid_of, invalid_at, text_fits, text_of, text_rectangular, Board,
};
use crate::config::Pacman;
use crate::geometry::{Direction, TilePoint};
use crate::tile::tile_of_code;
use vstd::prelude::*;

verus! {

/// The number of columns of the classic level.
pub const CLASSIC_WIDTH: u32 = 21;

/// The number of rows of the classic level.
pub const CLASSIC_HEIGHT: u32 = 18;

/// The text of the classic level: a closed maze with a tunnel through the
/// middle row, a power pellet near each corner, and the enemies' house in
/// the centre.
pub open spec fn classic_text() -> Seq<Seq<char>> {
    seq![
        "#####################"@,
        "#p========#========p#"@,
        "#=###=###=#=###=###=#"@,
        "#===================#"@,
        "#=###=#=#####=#=###=#"@,
        "#=====#===#===#=====#"@,
        "#####=#eeeeeee#=#####"@,
        "#####=#e#hhh#e#=#####"@,
        "t=====ee#hhh#ee=====t"@,
        "#####=#e#####e#=#####"@,
        "#####=#eeeeeee#=#####"@,
        "#=========e=========#"@,
        "#=###=###=#=###=###=#"@,
        "#p==#===========#==p#"@,
        "###=#=#=#####=#=#=###"@,
        "#=====#===#===#=====#"@,
        "#===================#"@,
        "#####################"@,
    ]
}

/// Whether a row has the width of the classic level and holds tile codes
/// only.
pub open spec fn row_ok(row: Seq<char>) -> bool {
    &&& row.len() == CLASSIC_WIDTH
    &&& forall|c: int| 0 <= c < CLASSIC_WIDTH ==> tile_of_code(#[trigger] row[c]) is Some
}

/// The classic level's text describes a board.
pub proof fn classic_text_is_a_board()
    ensures
        all_codes_valid(classic_text()),
        text_rectangular(classic_text()),
        text_fits(classic_text()),
        classic_text().len() == CLASSIC_HEIGHT,
        classic_text()[0].len() == CLASSIC_WIDTH,
{
    assert(row_ok("#####################"@)) by {
        reveal_strlit("#####################");
    }
    assert(row_ok("#p========#========p#"@)) by {
        reveal_strlit("#p========#========p#");
    }
    assert(row_ok("#=###=###=#=###=###=#"@)) by {
        reveal_strlit("#=###=###=#=###=###=#");
    }
    assert(row_ok("#===================#"@)) by {
        reveal_strlit("#===================#");
    }
    assert(row_ok("#=###=#=#####=#=###=#"@)) by {
        reveal_strlit("#=###=#=#####=#=###=#");
    }
    assert(row_ok("#=====#===#===#=====#"@)) by {
        reveal_strlit("#=====#===#===#=====#");
    }
    assert(row_ok("#####=#eeeeeee#=#####"@)) by {
        reveal_strlit("#####=#eeeeeee#=#####");
    }
    assert(row_ok("#####=#e#hhh#e#=#####"@)) by {
        reveal_strlit("#####=#e#hhh#e#=#####");
    }
    assert(row_ok("t=====ee#hhh#ee=====t"@)) by {
        reveal_strlit("t=====ee#hhh#ee=====t");
    }
    assert(row_ok("#####=#e#####e#=#####"@)) by {
        reveal_strlit("#####=#e#####e#=#####");
    }
    assert(row_ok("#=========e=========#"@)) by {
        reveal_strlit("#=========e=========#");
    }
    assert(row_ok("#p==#===========#==p#"@)) by {
        reveal_strlit("#p==#===========#==p#");
    }
    assert(row_ok("###=#=#=#####=#=#=###"@)) by {
        reveal_strlit("###=#=#=#####=#=#=###");
    }
    let text = classic_text();
    assert forall|r: int| 0 <= r < text.len() implies row_ok(#[trigger] text[r]) by {}
    assert forall|r: int, c: int| !invalid_at(text, r, c) by {
        if 0 <= r < text.len() {
            assert(row_ok(text[r]));
        }
    }
    assert forall|r: int| 0 <= r < text.len() implies (#[trigger] text[r]).len()
        == text[0].len() by {
        assert(row_ok(text[r]));
        assert(row_ok(text[0]));
    }
}

/// The classic level as text, one row of tile codes per line.
pub fn classic_board() -> (lines: Vec<String>)
    ensures
        text_of(lines@) == classic_text(),
{
    let mut lines: Vec<String> = Vec::new();
    lines.push("#####################".to_owned());
    lines.push("#p========#========p#".to_owned());
    lines.push("#=###=###=#=###=###=#".to_owned());
    lines.push("#===================#".to_owned());
    lines.push("#=###=#=#####=#=###=#".to_owned());
    lines.push("#=====#===#===#=====#".to_owned());
    lines.push("#####=#eeeeeee#=#####".to_owned());
    lines.push("#####=#e#hhh#e#=#####".to_owned());
    lines.push("t=====ee#hhh#ee=====t".to_owned());
    lines.push("#####=#e#####e#=#####".to_owned());
    lines.push("#####=#eeeeeee#=#####".to_owned());
    lines.push("#=========e=========#".to_owned());
    lines.push("#=###=###=#=###=###=#".to_owned());
    lines.push("#p==#===========#==p#".to_owned());
    lines.push("###=#=#=#####=#=#=###".to_owned());
    lines.push("#=====#===#===#=====#".to_owned());
    lines.push("#===================#".to_owned());
    lines.push("#####################".to_owned());
    assert(text_of(lines@) =~= classic_text());
    lines
}

impl Board {
    /// The board of the classic level, with everything still to collect.
    pub fn fast_new() -> (b: Board)
        ensures
            b.wf(),
            b@ == grid_of(classic_text()),
            b.width == CLASSIC_WIDTH,
            b.height == CLASSIC_HEIGHT,
    {
        let lines = classic_board();
        proof {
            classic_text_is_a_board();
        }
        match Board::try_new(lines.as_slice()) {
            Ok(b) => b,
            Err(e) => {
                proof {
                    let text = classic_text();
                    match e {
                        crate::board::BoardError::InvalidTileCode { code, row, col } => {
                            assert(invalid_at(text, row as int, col as int));
                        },
                        crate::board::BoardError::MalformedGrid { row } => {
                            assert(text[row as int].len() != text[0].len());
                        },
                    }
                }
                vstd::pervasive::unreached()
            },
        }
    }
}

/// The strategy of a classic enemy: it starts above the house, heading up.
pub open spec fn classic_enemy() -> MovementAI {
    MovementAI::EnemyRandomMvmt {
        start: TilePoint { tx: 10, ty: 6 },
        start_dir: Direction::Up,
        dir: Direction::Up,
    }
}

impl Default for Pacman {
    /// The classic game: the classic level, three lives, four enemies.
    fn default() -> (config: Pacman)
        ensures
            config@.valid(),
            config@.board_ok(),
            config@.board == classic_text(),
            config@.enemies == seq![
                classic_enemy(),
                classic_enemy(),
                classic_enemy(),
                classic_enemy(),
            ],
            config.seed == 13,
            config.player_start == (TilePoint { tx: 10, ty: 11 }),
            config.start_lives == 3,
            config.vulnerable_time == 500,
            config.immobilized_time == 100,
            config.history_limit == 12,
            config.enemy_starting_speed == 18,
            config.player_speed == 30,
            config.life_gain_threshold == 10000,
            config.score_increase_per_pellet == 10,
            config.score_increase_per_power_pellet == 50,
            config.score_increase_base_per_ghost_catch == 200,
            config.start_immobilized_base == 50,
    {
        let start = TilePoint::new(10, 6);
        let enemy = MovementAI::EnemyRandomMvmt {
            start,
            start_dir: Direction::Up,
            dir: Direction::Up,
        };
        let mut enemies: Vec<MovementAI> = Vec::new();
        enemies.push(enemy);
        enemies.push(enemy);
        enemies.push(enemy);
        enemies.push(enemy);
        proof {
            classic_text_is_a_board();
            assert(enemies@ =~= seq![
                classic_enemy(),
                classic_enemy(),
                classic_enemy(),
                classic_enemy(),
            ]);
        }
        Pacman {
            seed: 13,
            board: classic_board(),
            player_start: TilePoint::new(10, 11),
            start_lives: 3,
            vulnerable_time: 500,
            immobilized_time: 100,
            enemies,
            history_limit: 12,
            enemy_starting_speed: 18,
            player_speed: 30,
            life_gain_threshold: 10000,
            score_increase_per_pellet: 10,
            score_increase_per_power_pellet: 50,
            score_increase_base_per_ghost_catch: 200,
            start_immobilized_base: 50,
        }
    }
}

} // verus!
