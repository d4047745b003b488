use rand::rngs::StdRng;
use rand::SeedableRng;
use std::collections::HashSet;
use tb_pacman::ai::MovementAI;
use tb_pacman::board::{Board, BoardError};
use tb_pacman::config::Pacman;
use tb_pacman::geometry::{Direction, Input, TilePoint, WorldPoint};
use tb_pacman::mob::Mob;
use tb_pacman::state::{RestoreError, State, StateCore};
use tb_pacman::tile::Tile;

fn saved_config() -> Pacman {
    let mut cfg = Pacman::default();
    cfg.board = vec!["#####".to_string(), "#=p=#".to_string(), "#####".to_string()];
    cfg.player_start = TilePoint::new(1, 1);
    cfg.enemies = vec![MovementAI::EnemyRandomMvmt {
        start: TilePoint::new(3, 1),
        start_dir: Direction::Left,
        dir: Direction::Left,
    }];
    cfg
}

fn saved_core(cfg: &Pacman) -> StateCore {
    let mut enemy = Mob::new(cfg.enemies[0], WorldPoint::new(3 * 224 - 40, 224), 14);
    enemy.vulnerable = true;
    enemy.step = Some(TilePoint::new(2, 1));
    enemy.immobilized_timer = 0;
    enemy.history.push_front(3);
    StateCore {
        rand: StdRng::seed_from_u64(99),
        score: 1234,
        lives: 2,
        level: 3,
        player: Mob::new_player(WorldPoint::new(224, 224), 30),
        enemies_caught_multiplier: 2,
        enemies: vec![enemy],
        board: Board {
            tiles: vec![
                vec![Tile::Wall; 5],
                vec![Tile::Wall, Tile::Empty, Tile::PowerPellet, Tile::Pellet, Tile::Wall],
                vec![Tile::Wall; 5],
            ],
            width: 77,
            height: 0,
            junctions: HashSet::from([1, 2, 3]),
        },
        vulnerability_timer: 17,
        lives_gained: 0,
    }
}

#[test]
fn restored_game_goes_on_where_it_was_saved() {
    let cfg = saved_config();
    let mut s = State::restore(cfg.clone(), saved_core(&cfg)).unwrap();
    assert_eq!(s.score(), 1234);
    assert_eq!(s.lives(), 2);
    assert_eq!(s.level(), 3);
    assert_eq!(s.state.vulnerability_timer, 17);
    assert_eq!(s.state.enemies_caught_multiplier, 2);
    assert_eq!((s.state.board.width, s.state.board.height), (5, 3));
    assert!(s.state.board.junctions.is_empty());
    assert_eq!(s.state.board.get_tile(&TilePoint::new(1, 1)), Tile::Empty);
    assert_eq!(s.enemy_tile(0), Ok((2, 1)));
    assert_eq!(s.enemy_vulnerable(0), Ok(true));
    assert_eq!(s.state.enemies[0].history.len(), 1);
    assert!(s.can_update());
    s.update_mut(Input::default());
    assert_eq!(s.state.vulnerability_timer, 16);
    assert_eq!(s.state.enemies[0].position, WorldPoint::new(3 * 224 - 54, 224));
    assert_eq!(s.score(), 1234);
}

#[test]
fn parts_that_make_no_game_are_refused() {
    let cfg = saved_config();

    let mut far = cfg.clone();
    far.player_start = TilePoint::new(i32::MAX, 0);
    assert_eq!(State::restore(far, saved_core(&cfg)).err(), Some(RestoreError::Config));

    let mut level = cfg.clone();
    level.board[1] = "#=q=#".to_string();
    assert_eq!(
        State::restore(level, saved_core(&cfg)).err(),
        Some(RestoreError::Level(BoardError::InvalidTileCode { code: 'q', row: 1, col: 2 }))
    );

    let mut ragged = saved_core(&cfg);
    ragged.board.tiles[2].pop();
    assert_eq!(
        State::restore(cfg.clone(), ragged).err(),
        Some(RestoreError::Board(BoardError::MalformedGrid { row: 2 }))
    );

    let mut playerless = saved_core(&cfg);
    playerless.player.ai = cfg.enemies[0];
    assert_eq!(State::restore(cfg.clone(), playerless).err(), Some(RestoreError::Player));

    let mut steered = saved_core(&cfg);
    let ghost = steered.enemies[0].clone();
    steered.enemies.push(ghost);
    steered.enemies[1].ai = MovementAI::Player;
    assert_eq!(
        State::restore(cfg.clone(), steered).err(),
        Some(RestoreError::Enemy { index: 1 })
    );

    let mut lost = saved_core(&cfg);
    lost.enemies[0].ai = MovementAI::EnemyRandomMvmt {
        start: TilePoint::new(0, 9_586_981),
        start_dir: Direction::Up,
        dir: Direction::Up,
    };
    assert_eq!(
        State::restore(cfg.clone(), lost).err(),
        Some(RestoreError::Enemy { index: 0 })
    );

    let mut crowded = cfg.clone();
    crowded.start_immobilized_base = i32::MAX;
    let mut crowd = saved_core(&cfg);
    let ghost = crowd.enemies[0].clone();
    crowd.enemies.push(ghost);
    assert_eq!(State::restore(crowded, crowd).err(), Some(RestoreError::TooManyEnemies));
}
