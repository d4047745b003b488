use tb_pacman::ai::MovementAI;
use tb_pacman::board::{Board, BoardError};
use tb_pacman::config::Pacman;
use tb_pacman::geometry::{Direction, Input, TilePoint, WorldPoint};
use tb_pacman::query::QueryError;
use tb_pacman::rules::EnemyPlayerState;
use tb_pacman::state::State;
use tb_pacman::tile::Tile;

const LOOP_BOARD: [&str; 5] = [
    "#########",
    "#e=pe#ee#",
    "#e##e####",
    "#e===e###",
    "#########",
];

fn game_lines(rows: &[&str]) -> Vec<String> {
    rows.iter().map(|r| r.to_string()).collect()
}

fn enemy_at(x: i32, y: i32, dir: Direction) -> MovementAI {
    MovementAI::EnemyRandomMvmt { start: TilePoint::new(x, y), start_dir: dir, dir }
}

fn config(rows: &[&str], player: (i32, i32), enemies: Vec<MovementAI>) -> Pacman {
    Pacman {
        seed: 13,
        board: game_lines(rows),
        player_start: TilePoint::new(player.0, player.1),
        start_lives: 3,
        vulnerable_time: 500,
        immobilized_time: 40,
        enemies,
        history_limit: 12,
        enemy_starting_speed: 18,
        player_speed: 225,
        life_gain_threshold: 10000,
        score_increase_per_pellet: 10,
        score_increase_per_power_pellet: 50,
        score_increase_base_per_ghost_catch: 200,
        start_immobilized_base: 15,
    }
}

fn loop_game() -> State {
    let cfg = config(&LOOP_BOARD, (1, 1), vec![enemy_at(6, 1, Direction::Right)]);
    assert!(cfg.is_valid());
    State::try_new(&cfg).unwrap()
}

fn hold(dir: Option<Direction>) -> Input {
    let idle = Input::default();
    match dir {
        None => idle,
        Some(Direction::Left) => Input { left: true, ..idle },
        Some(Direction::Right) => Input { right: true, ..idle },
        Some(Direction::Up) => Input { up: true, ..idle },
        Some(Direction::Down) => Input { down: true, ..idle },
    }
}

fn step(state: &mut State, dir: Option<Direction>) {
    assert!(state.can_update());
    state.update_mut(hold(dir));
}

#[test]
fn new_game_starts_from_the_configuration() {
    let cfg = config(
        &LOOP_BOARD,
        (1, 1),
        vec![
            enemy_at(6, 1, Direction::Right),
            enemy_at(7, 1, Direction::Left),
            MovementAI::EnemyRandomMvmt {
                start: TilePoint::new(6, 1),
                start_dir: Direction::Up,
                dir: Direction::Down,
            },
        ],
    );
    let s = State::try_new(&cfg).unwrap();
    assert_eq!(s.score(), 0);
    assert_eq!(s.lives(), 3);
    assert_eq!(s.level(), 1);
    assert_eq!(s.state.vulnerability_timer, 0);
    assert_eq!(s.state.enemies_caught_multiplier, 1);
    assert_eq!(s.state.lives_gained, 0);
    assert_eq!(s.state.player.position, WorldPoint::new(224, 224));
    assert_eq!(s.state.player.speed, 225);
    assert_eq!(s.state.player.ai, MovementAI::Player);
    assert_eq!(s.state.enemies.len(), 3);
    assert_eq!(s.state.enemies[0].position, TilePoint::new(6, 1).to_world());
    assert_eq!(s.state.enemies[1].position, TilePoint::new(7, 1).to_world());
    assert_eq!(s.state.enemies[2].ai, enemy_at(6, 1, Direction::Up));
    assert_eq!(s.state.enemies[0].immobilized_timer, 0);
    assert_eq!(s.state.enemies[1].immobilized_timer, 15);
    assert_eq!(s.state.enemies[2].immobilized_timer, 30);
    assert_eq!(s.state.enemies[1].speed, 18);
    assert!(!s.state.enemies[1].vulnerable);
    assert_eq!((s.state.board.width, s.state.board.height), (9, 5));
    assert_eq!(s.config.board, cfg.board);
    assert_eq!(s.config.enemies, cfg.enemies);
    assert_eq!(s.config.vulnerable_time, 500);
    assert_eq!(s.board_size(), WorldPoint::new(10 * 224, 6 * 224));
}

#[test]
fn new_game_refuses_a_bad_board() {
    let cfg = config(&["#=#", "#?#"], (1, 0), vec![]);
    assert_eq!(
        State::try_new(&cfg).err(),
        Some(BoardError::InvalidTileCode { code: '?', row: 1, col: 1 })
    );
    let cfg = config(&["#=#", "##"], (1, 0), vec![]);
    assert_eq!(State::try_new(&cfg).err(), Some(BoardError::MalformedGrid { row: 1 }));
    let cfg = config(&[], (1, 0), vec![]);
    assert_eq!(State::try_new(&cfg).err(), Some(BoardError::MalformedGrid { row: 0 }));
}

#[test]
fn configuration_is_checked_for_what_a_game_needs() {
    let good = config(&LOOP_BOARD, (1, 1), vec![enemy_at(6, 1, Direction::Right)]);
    assert!(good.is_valid());
    let far = config(&LOOP_BOARD, (9_586_981, 1), vec![]);
    assert!(!far.is_valid());
    let edge = config(&LOOP_BOARD, (9_586_980, -9_586_980), vec![]);
    assert!(edge.is_valid());
    let steered = config(&LOOP_BOARD, (1, 1), vec![MovementAI::Player]);
    assert!(!steered.is_valid());
    let lost = config(&LOOP_BOARD, (1, 1), vec![enemy_at(0, i32::MIN, Direction::Up)]);
    assert!(!lost.is_valid());
    let mut slow = config(&LOOP_BOARD, (1, 1), vec![]);
    slow.enemy_starting_speed = i32::MIN + 3;
    assert!(!slow.is_valid());
    slow.enemy_starting_speed = i32::MIN + 4;
    assert!(slow.is_valid());
    let mut frozen = config(
        &LOOP_BOARD,
        (1, 1),
        vec![enemy_at(6, 1, Direction::Up), enemy_at(6, 1, Direction::Up)],
    );
    frozen.start_immobilized_base = i32::MAX / 2 + 1;
    assert!(!frozen.is_valid());
    frozen.start_immobilized_base = -(i32::MAX / 2);
    assert!(frozen.is_valid());
}

#[test]
fn configuration_copies_are_equal() {
    let cfg = config(&LOOP_BOARD, (1, 1), vec![enemy_at(6, 1, Direction::Right)]);
    let copy = cfg.clone();
    assert_eq!(copy.seed, cfg.seed);
    assert_eq!(copy.board, cfg.board);
    assert_eq!(copy.player_start, cfg.player_start);
    assert_eq!(copy.enemies, cfg.enemies);
    assert_eq!(copy.start_lives, cfg.start_lives);
    assert_eq!(copy.vulnerable_time, cfg.vulnerable_time);
    assert_eq!(copy.immobilized_time, cfg.immobilized_time);
    assert_eq!(copy.history_limit, cfg.history_limit);
    assert_eq!(copy.enemy_starting_speed, cfg.enemy_starting_speed);
    assert_eq!(copy.player_speed, cfg.player_speed);
    assert_eq!(copy.life_gain_threshold, cfg.life_gain_threshold);
    assert_eq!(copy.score_increase_per_pellet, cfg.score_increase_per_pellet);
    assert_eq!(copy.score_increase_per_power_pellet, cfg.score_increase_per_power_pellet);
    assert_eq!(
        copy.score_increase_base_per_ghost_catch,
        cfg.score_increase_base_per_ghost_catch
    );
    assert_eq!(copy.start_immobilized_base, cfg.start_immobilized_base);
}

#[test]
fn closed_loop_from_pellet_to_power_pellet_to_the_next_level() {
    let mut s = loop_game();
    assert!(s.state.board.is_junction(&TilePoint::new(4, 3)));
    step(&mut s, Some(Direction::Right));
    assert_eq!(s.score(), 0);
    assert_eq!(s.player_tile(), (1, 1));

    step(&mut s, Some(Direction::Right));
    assert_eq!(s.player_tile(), (2, 1));
    assert_eq!(s.score(), 10);
    assert_eq!(s.state.board.get_tile(&TilePoint::new(2, 1)), Tile::Empty);
    assert_eq!(s.state.vulnerability_timer, 0);
    assert!(!s.state.enemies[0].vulnerable);
    assert_eq!(s.level(), 1);

    step(&mut s, Some(Direction::Right));
    assert_eq!(s.player_tile(), (3, 1));
    assert_eq!(s.score(), 60);
    assert_eq!(s.state.board.get_tile(&TilePoint::new(3, 1)), Tile::Empty);
    assert_eq!(s.state.vulnerability_timer, 499);
    assert_eq!(s.state.enemies_caught_multiplier, 1);
    assert!(s.state.enemies.iter().all(|e| e.vulnerable));
    assert_eq!(s.level(), 1);
    assert_eq!(s.num_pellets_and_power_pellets_uncollected(), 3);

    step(&mut s, Some(Direction::Down));
    assert_eq!(s.player_tile(), (4, 1));
    step(&mut s, Some(Direction::Down));
    assert_eq!(s.player_tile(), (4, 2));
    step(&mut s, Some(Direction::Left));
    assert_eq!(s.player_tile(), (4, 3));
    assert_eq!(s.score(), 70);
    step(&mut s, Some(Direction::Left));
    assert_eq!(s.player_tile(), (3, 3));
    assert_eq!(s.score(), 80);
    assert_eq!(s.level(), 1);
    assert_eq!(s.state.vulnerability_timer, 495);
    assert_eq!(s.num_pellets_and_power_pellets_uncollected(), 1);

    step(&mut s, Some(Direction::Left));
    assert_eq!(s.score(), 90);
    assert_eq!(s.level(), 2);
    assert_eq!(s.state.vulnerability_timer, 0);
    assert_eq!(s.player_tile(), (1, 1));
    assert_eq!(s.state.player.step, None);
    assert_eq!(s.state.enemies[0].position, TilePoint::new(6, 1).to_world());
    assert!(!s.state.enemies[0].vulnerable);
    assert_eq!(s.state.enemies[0].immobilized_timer, 0);
    let fresh = Board::try_new(&game_lines(&LOOP_BOARD)).unwrap();
    assert_eq!(s.state.board.tiles, fresh.tiles);
    assert_eq!(s.state.board.junctions, fresh.junctions);
    assert_eq!(s.num_pellets_and_power_pellets_uncollected(), 5);
    assert_eq!(s.lives(), 3);
}

#[test]
fn the_last_pellet_ends_the_level_in_the_tick_that_collects_it() {
    let rows = ["######", "#e=p##", "###e##", "######"];
    let cfg = config(&rows, (1, 1), vec![enemy_at(3, 2, Direction::Up)]);
    let mut s = State::try_new(&cfg).unwrap();
    s.state.enemies[0].immobilized_timer = 1000;
    step(&mut s, Some(Direction::Right));
    step(&mut s, Some(Direction::Right));
    assert_eq!(s.score(), 10);
    assert_eq!(s.level(), 1);
    step(&mut s, Some(Direction::Right));
    assert_eq!(s.score(), 60);
    assert_eq!(s.level(), 2);
    assert_eq!(s.state.vulnerability_timer, 0);
    assert!(!s.state.enemies[0].vulnerable);
    assert_eq!(s.state.board.get_tile(&TilePoint::new(2, 1)), Tile::Pellet);
    assert_eq!(s.state.board.get_tile(&TilePoint::new(3, 1)), Tile::PowerPellet);
    assert_eq!(s.player_tile(), (1, 1));
}

#[test]
fn vulnerability_lasts_through_the_tick_that_reaches_zero() {
    let mut cfg = config(&LOOP_BOARD, (2, 1), vec![enemy_at(6, 1, Direction::Right)]);
    cfg.vulnerable_time = 3;
    let mut s = State::try_new(&cfg).unwrap();
    step(&mut s, Some(Direction::Right));
    assert_eq!(s.score(), 10);
    assert!(!s.state.enemies[0].vulnerable);
    step(&mut s, Some(Direction::Right));
    assert_eq!(s.score(), 60);
    assert_eq!(s.state.vulnerability_timer, 2);
    assert!(s.state.enemies[0].vulnerable);
    assert_eq!(s.state.enemies[0].speed, 14);
    step(&mut s, None);
    assert_eq!(s.state.vulnerability_timer, 1);
    assert!(s.state.enemies[0].vulnerable);
    step(&mut s, None);
    assert_eq!(s.state.vulnerability_timer, 0);
    assert!(s.state.enemies[0].vulnerable);
    step(&mut s, None);
    assert_eq!(s.state.vulnerability_timer, 0);
    assert!(!s.state.enemies[0].vulnerable);
    assert_eq!(s.state.enemies[0].speed, 18);
}

#[test]
fn a_power_pellet_of_no_duration_makes_nobody_vulnerable() {
    let mut cfg = config(&LOOP_BOARD, (2, 1), vec![enemy_at(6, 1, Direction::Right)]);
    cfg.vulnerable_time = 0;
    let mut s = State::try_new(&cfg).unwrap();
    s.state.enemies_caught_multiplier = 8;
    step(&mut s, Some(Direction::Right));
    step(&mut s, Some(Direction::Right));
    assert_eq!(s.score(), 60);
    assert_eq!(s.state.vulnerability_timer, 0);
    assert_eq!(s.state.enemies_caught_multiplier, 1);
    assert!(!s.state.enemies[0].vulnerable);
}

fn arena(enemies: usize) -> State {
    let rows = ["#######", "#=====#", "#=====#", "#=====#", "#######"];
    let mut ais = Vec::new();
    let mut i = 0;
    while i < enemies {
        ais.push(enemy_at(5, 3, Direction::Up));
        i += 1;
    }
    let mut cfg = config(&rows, (1, 1), ais);
    cfg.start_immobilized_base = 0;
    let mut s = State::try_new(&cfg).unwrap();
    s.state.player.position = TilePoint::new(3, 2).to_world();
    assert!(s.state.board.collect_pellet(&TilePoint::new(3, 2)));
    s
}

fn place(s: &mut State, enemy: usize, at: (i32, i32), vulnerable: bool, frozen: i32) {
    s.state.enemies[enemy].position = TilePoint::new(at.0, at.1).to_world();
    s.state.enemies[enemy].step = None;
    s.state.enemies[enemy].vulnerable = vulnerable;
    s.state.enemies[enemy].immobilized_timer = frozen;
}

#[test]
fn catches_score_one_two_four_eight_times_the_base() {
    let mut s = arena(4);
    s.state.vulnerability_timer = 100;
    let mut i = 0;
    while i < 4 {
        place(&mut s, i, (1, 1), true, 0);
        i += 1;
    }
    place(&mut s, 0, (3, 2), true, 50);
    step(&mut s, None);
    assert_eq!(s.score(), 200);
    assert_eq!(s.state.enemies_caught_multiplier, 2);
    assert_eq!(s.state.enemies[0].position, TilePoint::new(5, 3).to_world());
    assert!(!s.state.enemies[0].vulnerable);
    assert_eq!(s.state.enemies[0].immobilized_timer, 40);

    place(&mut s, 1, (3, 2), true, 50);
    step(&mut s, None);
    assert_eq!(s.score(), 200 + 400);
    assert_eq!(s.state.enemies_caught_multiplier, 4);

    place(&mut s, 2, (3, 2), true, 50);
    place(&mut s, 3, (3, 2), true, 50);
    step(&mut s, None);
    assert_eq!(s.score(), 200 + 400 + 800 + 1600);
    assert_eq!(s.state.enemies_caught_multiplier, 16);
    assert_eq!(s.lives(), 3);
    assert_eq!(s.state.vulnerability_timer, 97);
}

#[test]
fn a_power_pellet_puts_the_multiplier_back_to_one() {
    let rows = ["#######", "#==p==#", "#######"];
    let mut cfg = config(&rows, (2, 1), vec![enemy_at(5, 1, Direction::Left)]);
    cfg.start_immobilized_base = 0;
    let mut s = State::try_new(&cfg).unwrap();
    s.state.enemies_caught_multiplier = 8;
    s.state.vulnerability_timer = 20;
    s.state.enemies[0].immobilized_timer = 1000;
    s.state.enemies[0].vulnerable = true;
    step(&mut s, Some(Direction::Right));
    assert_eq!(s.state.enemies_caught_multiplier, 8);
    step(&mut s, None);
    assert_eq!(s.player_tile(), (3, 1));
    assert_eq!(s.state.enemies_caught_multiplier, 1);
    assert_eq!(s.state.vulnerability_timer, 499);
    place(&mut s, 0, (3, 1), true, 1000);
    let before = s.score();
    step(&mut s, None);
    assert_eq!(s.score(), before + 200);
    assert_eq!(s.state.enemies_caught_multiplier, 2);
}

#[test]
fn an_enemy_caught_before_and_after_its_move_scores_once() {
    let mut s = arena(2);
    s.state.vulnerability_timer = 100;
    place(&mut s, 0, (1, 1), true, 0);
    place(&mut s, 1, (3, 2), true, 50);
    step(&mut s, None);
    assert_eq!(s.score(), 200);
    assert_eq!(s.state.enemies_caught_multiplier, 2);
    assert_eq!(s.state.enemies[1].position, TilePoint::new(5, 3).to_world());
    assert_eq!(s.state.enemies[1].immobilized_timer, 40);
}

#[test]
fn death_puts_the_score_back_and_leaves_the_enemies() {
    let mut s = arena(2);
    s.state.score = 500;
    s.state.player.position = TilePoint::new(2, 2).to_world();
    s.state.player.step = Some(TilePoint::new(3, 2));
    assert!(s.state.board.collect_pellet(&TilePoint::new(2, 2)));
    s.state.board.tiles[2][3] = Tile::Pellet;
    place(&mut s, 0, (3, 2), false, 7);
    place(&mut s, 1, (5, 1), false, 9);
    step(&mut s, None);
    assert_eq!(s.state.board.get_tile(&TilePoint::new(3, 2)), Tile::Empty);
    assert_eq!(s.score(), 500);
    assert_eq!(s.lives(), 2);
    assert_eq!(s.level(), 1);
    assert_eq!(s.player_tile(), (1, 1));
    assert_eq!(s.state.player.position, TilePoint::new(1, 1).to_world());
    assert_eq!(s.state.player.step, None);
    assert!(s.state.player.history.is_empty());
    assert_eq!(s.state.enemies[0].position, TilePoint::new(3, 2).to_world());
    assert_eq!(s.state.enemies[0].immobilized_timer, 6);
    assert_eq!(s.state.enemies[0].speed, 0);
    assert_eq!(s.state.enemies[1].position, TilePoint::new(5, 1).to_world());
    assert_eq!(s.state.enemies[1].immobilized_timer, 8);
}

#[test]
fn death_comes_before_later_catches_and_after_earlier_ones() {
    let mut s = arena(3);
    s.state.vulnerability_timer = 100;
    s.state.score = 1000;
    place(&mut s, 0, (3, 2), true, 50);
    place(&mut s, 1, (3, 2), false, 50);
    place(&mut s, 2, (3, 2), true, 50);
    step(&mut s, None);
    assert_eq!(s.score(), 1000);
    assert_eq!(s.lives(), 2);
    assert_eq!(s.state.enemies_caught_multiplier, 2);
    assert_eq!(s.state.enemies[0].position, TilePoint::new(5, 3).to_world());
    assert_eq!(s.state.enemies[0].immobilized_timer, 40);
    assert_eq!(s.state.enemies[1].position, TilePoint::new(3, 2).to_world());
    assert_eq!(s.state.enemies[2].position, TilePoint::new(3, 2).to_world());
    assert!(s.state.enemies[2].vulnerable);
    assert_eq!(s.state.enemies[2].immobilized_timer, 49);
    assert_eq!(s.player_tile(), (1, 1));
}

#[test]
fn collision_goes_by_the_tile_not_by_the_exact_position() {
    let mut s = arena(1);
    place(&mut s, 0, (3, 2), false, 50);
    s.state.enemies[0].position = WorldPoint::new(3 * 224 + 200, 2 * 224 + 223);
    let enemy = s.state.enemies[0].clone();
    assert_eq!(s.check_enemy_player_collision(&enemy, 0), EnemyPlayerState::PlayerDeath);
    let mut prey = enemy.clone();
    prey.vulnerable = true;
    assert_eq!(s.check_enemy_player_collision(&prey, 4), EnemyPlayerState::EnemyCatch(4));
    let mut away = enemy.clone();
    away.position = WorldPoint::new(4 * 224, 2 * 224);
    assert_eq!(s.check_enemy_player_collision(&away, 0), EnemyPlayerState::Miss);
    step(&mut s, None);
    assert_eq!(s.lives(), 2);
}

#[test]
fn a_score_past_the_mark_gives_one_life_per_tick() {
    let mut s = arena(0);
    s.state.score = 30_001;
    step(&mut s, None);
    assert_eq!(s.lives(), 4);
    assert_eq!(s.state.lives_gained, 1);
    step(&mut s, None);
    assert_eq!(s.lives(), 5);
    assert_eq!(s.state.lives_gained, 2);
    step(&mut s, None);
    assert_eq!(s.lives(), 6);
    assert_eq!(s.state.lives_gained, 3);
    step(&mut s, None);
    assert_eq!(s.lives(), 6);
    assert_eq!(s.state.lives_gained, 3);
    s.state.score = 40_000;
    step(&mut s, None);
    assert_eq!(s.lives(), 6);
    s.state.score = 40_001;
    step(&mut s, None);
    assert_eq!(s.lives(), 7);
}

#[test]
fn a_life_earned_in_the_tick_of_a_death_is_kept() {
    let mut s = arena(1);
    s.state.score = 10_001;
    place(&mut s, 0, (3, 2), false, 50);
    step(&mut s, None);
    assert_eq!(s.lives(), 3);
    assert_eq!(s.state.lives_gained, 1);
    assert_eq!(s.score(), 10_001);
}

#[test]
fn player_on_a_teleport_tile_comes_out_on_the_other_side() {
    let rows = [
        "#####################",
        "t===================t",
        "#####################",
    ];
    let cfg = config(&rows, (1, 1), vec![]);
    let mut s = State::try_new(&cfg).unwrap();
    step(&mut s, Some(Direction::Left));
    assert_eq!(s.player_tile(), (1, 1));
    step(&mut s, Some(Direction::Left));
    assert_eq!(s.player_tile(), (20, 1));
    assert_eq!(s.state.player.step, None);
    assert_eq!(s.state.player.position, TilePoint::new(20, 1).to_world());

    step(&mut s, None);
    assert_eq!(s.player_tile(), (0, 1));
    assert_eq!(s.state.player.position, TilePoint::new(0, 1).to_world());
    step(&mut s, None);
    assert_eq!(s.player_tile(), (20, 1));
}

#[test]
fn player_walking_into_a_teleport_tile_is_sent_across_at_once() {
    let rows = [
        "#####################",
        "t===================t",
        "#####################",
    ];
    let mut cfg = config(&rows, (1, 1), vec![]);
    cfg.player_speed = 30;
    let mut s = State::try_new(&cfg).unwrap();
    s.state.player.position = WorldPoint::new(224 + 10, 224);
    s.state.player.step = Some(TilePoint::new(0, 1));
    step(&mut s, Some(Direction::Left));
    assert_eq!(s.player_tile(), (20, 1));
    assert_eq!(s.state.player.position, TilePoint::new(20, 1).to_world());
    assert_eq!(s.state.player.step, None);
    step(&mut s, Some(Direction::Left));
    assert_eq!(s.player_tile(), (0, 1));
    assert_eq!(s.state.player.step, None);
    assert_eq!(s.score(), 0);
}

#[test]
fn enemy_on_a_teleport_tile_comes_out_on_the_other_side() {
    let rows = [
        "#####################",
        "t===================t",
        "#####################",
    ];
    let cfg = config(&rows, (10, 1), vec![enemy_at(18, 1, Direction::Right)]);
    let mut s = State::try_new(&cfg).unwrap();
    s.state.enemies[0].position = TilePoint::new(20, 1).to_world();
    let enemy = s.state.enemies[0].clone();
    assert!(s.check_teleport(&enemy));
    assert!(!s.check_teleport(&s.state.player.clone()));
    s.state.enemies[0].immobilized_timer = 5;
    step(&mut s, None);
    assert_eq!(s.enemy_tile(0), Ok((0, 1)));
    assert_eq!(s.state.enemies[0].position, TilePoint::new(0, 1).to_world());
    assert_eq!(s.state.enemies[0].step, None);
}

#[test]
fn frozen_enemies_thaw_one_tick_at_a_time_and_then_move() {
    let rows = ["#######", "#=====#", "#######"];
    let mut cfg = config(&rows, (1, 1), vec![enemy_at(3, 1, Direction::Right), enemy_at(3, 1, Direction::Right)]);
    cfg.start_immobilized_base = 2;
    let mut s = State::try_new(&cfg).unwrap();
    s.state.player.position = TilePoint::new(30, 30).to_world();
    assert_eq!(s.state.enemies[1].immobilized_timer, 2);
    step(&mut s, None);
    assert_eq!(s.state.enemies[0].speed, 18);
    assert_eq!(s.state.enemies[0].step, Some(TilePoint::new(4, 1)));
    assert_eq!(s.state.enemies[1].speed, 0);
    assert_eq!(s.state.enemies[1].immobilized_timer, 1);
    step(&mut s, None);
    assert_eq!(s.state.enemies[0].position, WorldPoint::new(3 * 224 + 18, 224));
    assert_eq!(s.state.enemies[1].position, WorldPoint::new(3 * 224, 224));
    assert_eq!(s.state.enemies[1].immobilized_timer, 0);
    step(&mut s, None);
    assert_eq!(s.state.enemies[1].speed, 18);
    assert_eq!(s.state.enemies[1].position, WorldPoint::new(3 * 224 + 18, 224));
    assert_eq!(s.state.enemies[0].position, WorldPoint::new(3 * 224 + 36, 224));
}

#[test]
fn reset_after_a_death_leaves_the_enemies_and_otherwise_staggers_them() {
    let mut s = arena(3);
    s.config.start_immobilized_base = 15;
    let mut i = 0;
    while i < 3 {
        place(&mut s, i, (2, 3), true, 4);
        i += 1;
    }
    s.state.player.position = WorldPoint::new(700, 500);
    s.state.player.step = Some(TilePoint::new(4, 2));
    s.reset(true);
    assert_eq!(s.state.player.position, TilePoint::new(1, 1).to_world());
    assert_eq!(s.state.player.step, None);
    assert_eq!(s.state.enemies[2].position, TilePoint::new(2, 3).to_world());
    assert!(s.state.enemies[2].vulnerable);
    assert_eq!(s.state.enemies[2].immobilized_timer, 4);
    s.reset(false);
    let mut i = 0;
    while i < 3 {
        assert_eq!(s.state.enemies[i].position, TilePoint::new(5, 3).to_world());
        assert!(!s.state.enemies[i].vulnerable);
        assert_eq!(s.state.enemies[i].immobilized_timer, 15 * i as i32);
        i += 1;
    }
}

#[test]
fn same_seed_and_input_give_the_same_game() {
    let rows = ["=======", "=======", "=======", "=======", "======="];
    let mut runs: Vec<Vec<(i32, i32)>> = Vec::new();
    let mut run = 0;
    while run < 2 {
        let mut cfg = config(
            &rows,
            (0, 0),
            vec![enemy_at(3, 2, Direction::Up), enemy_at(3, 2, Direction::Left)],
        );
        cfg.enemy_starting_speed = 100;
        cfg.start_immobilized_base = 0;
        cfg.start_lives = 1000;
        let mut s = State::try_new(&cfg).unwrap();
        let mut trace = Vec::new();
        let mut t = 0;
        while t < 80 {
            step(&mut s, if t % 7 < 3 { Some(Direction::Right) } else { Some(Direction::Down) });
            trace.extend(s.enemy_tiles());
            t += 1;
        }
        runs.push(trace);
        run += 1;
    }
    assert_eq!(runs[0], runs[1]);
    assert!(runs[0].iter().any(|t| *t != (3, 2)));
}

#[test]
fn enemies_only_ever_stand_on_walkable_tiles_of_a_closed_board() {
    let rows = ["#######", "#==#==#", "#=###=#", "#=====#", "#######"];
    let mut cfg = config(&rows, (1, 1), vec![enemy_at(5, 1, Direction::Down), enemy_at(3, 3, Direction::Left)]);
    cfg.start_immobilized_base = 0;
    cfg.start_lives = 1_000_000;
    cfg.enemy_starting_speed = 60;
    let mut s = State::try_new(&cfg).unwrap();
    let mut t = 0;
    while t < 400 {
        step(&mut s, None);
        for (x, y) in s.enemy_tiles() {
            assert!(s.state.board.get_tile(&TilePoint::new(x, y)).walkable());
            assert!(x >= 1 && x <= 5 && y >= 1 && y <= 3);
        }
        t += 1;
    }
}

#[test]
fn questions_about_enemies_check_the_index() {
    let mut s = arena(2);
    place(&mut s, 1, (4, 3), true, 0);
    assert_eq!(s.num_enemies(), 2);
    assert_eq!(s.enemy_tile(0), Ok((5, 3)));
    assert_eq!(s.enemy_tile(1), Ok((4, 3)));
    assert_eq!(s.enemy_tile(2), Err(QueryError::BadInputArg));
    assert_eq!(s.enemy_vulnerable(0), Ok(false));
    assert_eq!(s.enemy_vulnerable(1), Ok(true));
    assert_eq!(s.enemy_vulnerable(9), Err(QueryError::BadInputArg));
    assert_eq!(s.enemy_tiles(), vec![(5, 3), (4, 3)]);
    assert_eq!(s.player_tile(), (3, 2));
    assert_eq!(s.num_pellets_and_power_pellets_uncollected(), 14);
    assert_ne!(QueryError::BadInputArg, QueryError::NoSuchQuery);
}

#[test]
fn a_game_without_room_says_so() {
    let mut s = arena(1);
    assert!(s.can_update());
    s.state.score = i32::MAX - 209;
    assert!(!s.can_update());
    s.state.score = i32::MAX - 450;
    assert!(s.can_update());
    s.state.score = -(i32::MAX - 450);
    assert!(s.can_update());
    s.state.score = 0;
    s.state.enemies_caught_multiplier = 1 << 30;
    assert!(!s.can_update());
    s.state.enemies_caught_multiplier = 1;
    s.state.lives = i32::MAX;
    assert!(!s.can_update());
    s.state.lives = 3;
    s.state.level = i32::MAX;
    assert!(!s.can_update());
    s.state.level = 1;
    s.state.player.position = WorldPoint::new(i32::MAX - 224, 0);
    assert!(!s.can_update());
    s.state.player.position = WorldPoint::new(i32::MAX - 225, 0);
    assert!(s.can_update());
    s.state.player.step = Some(TilePoint::new(9_586_981, 0));
    assert!(!s.can_update());
    s.state.player.step = None;
    s.state.enemies[0].position = WorldPoint::new(0, -i32::MAX + 17);
    assert!(!s.can_update());
    s.state.enemies[0].position = WorldPoint::new(0, -i32::MAX + 18);
    assert!(s.can_update());
    let crowd = arena(31);
    assert!(!crowd.can_update());
    let many = arena(20);
    assert!(many.can_update());
}

#[test]
fn player_walks_off_an_open_board_edge() {
    let rows = ["==", "=="];
    let cfg = config(&rows, (0, 0), vec![]);
    let mut s = State::try_new(&cfg).unwrap();
    step(&mut s, Some(Direction::Left));
    step(&mut s, Some(Direction::Up));
    assert_eq!(s.player_tile(), (-1, 0));
    step(&mut s, None);
    assert_eq!(s.player_tile(), (-1, -1));
    assert_eq!(s.score(), 10);
}
