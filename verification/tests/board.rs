use std::collections::VecDeque;
use tb_pacman::board::{Board, BoardError, BoardUpdate};
use tb_pacman::geometry::{Direction, TilePoint, WorldPoint};
use tb_pacman::tile::Tile;

fn board_lines(rows: &[&str]) -> Vec<String> {
    rows.iter().map(|r| r.to_string()).collect()
}

fn board_of(rows: &[&str]) -> Board {
    Board::try_new(&board_lines(rows)).unwrap()
}

#[test]
fn parsed_board_has_the_size_of_its_text() {
    let b = board_of(&["#=p", "eht"]);
    assert_eq!(b.width, 3);
    assert_eq!(b.height, 2);
    assert_eq!(
        b.tiles,
        vec![
            vec![Tile::Wall, Tile::Pellet, Tile::PowerPellet],
            vec![Tile::Empty, Tile::House, Tile::Teleport],
        ]
    );
    let single = board_of(&["="]);
    assert_eq!((single.width, single.height), (1, 1));
    let wide = board_of(&["#####################"]);
    assert_eq!((wide.width, wide.height), (21, 1));
}

#[test]
fn unmapped_character_fails_with_its_place() {
    let r = Board::try_new(&board_lines(&["#==", "=x=", "==?"]));
    assert_eq!(r.err(), Some(BoardError::InvalidTileCode { code: 'x', row: 1, col: 1 }));
    let r = Board::try_new(&board_lines(&["é"]));
    assert_eq!(r.err(), Some(BoardError::InvalidTileCode { code: 'é', row: 0, col: 0 }));
    let r = Board::try_new(&board_lines(&["===", "==", "=== "]));
    assert_eq!(r.err(), Some(BoardError::InvalidTileCode { code: ' ', row: 2, col: 3 }));
}

#[test]
fn rows_of_different_lengths_are_malformed() {
    let r = Board::try_new(&board_lines(&["===", "===", "==", "="]));
    assert_eq!(r.err(), Some(BoardError::MalformedGrid { row: 2 }));
    let r = Board::try_new(&board_lines(&["", "="]));
    assert_eq!(r.err(), Some(BoardError::MalformedGrid { row: 1 }));
}

#[test]
fn text_without_rows_is_malformed() {
    let r = Board::try_new(&[]);
    assert_eq!(r.err(), Some(BoardError::MalformedGrid { row: 0 }));
}

#[test]
fn rows_without_columns_make_a_board_without_cells() {
    let b = board_of(&["", ""]);
    assert_eq!((b.width, b.height), (0, 2));
    assert!(b.junctions.is_empty());
    assert!(b.board_complete());
    assert_eq!(b.get_tile(&TilePoint::new(0, 0)), Tile::Empty);
}

#[test]
fn from_tiles_checks_the_shape() {
    let b = Board::from_tiles(vec![vec![Tile::Pellet, Tile::Wall], vec![Tile::Wall, Tile::Empty]])
        .unwrap();
    assert_eq!((b.width, b.height), (2, 2));
    let mut ids: Vec<u32> = b.junctions.iter().cloned().collect();
    ids.sort();
    assert_eq!(ids, vec![0, 3]);
    assert_eq!(
        Board::from_tiles(vec![vec![Tile::Pellet], vec![]]).err(),
        Some(BoardError::MalformedGrid { row: 1 })
    );
    assert_eq!(Board::from_tiles(vec![]).err(), Some(BoardError::MalformedGrid { row: 0 }));
}

#[test]
fn crossing_is_a_junction() {
    let b = board_of(&["#=#", "===", "#=#"]);
    let mut ids: Vec<u32> = b.junctions.iter().cloned().collect();
    ids.sort();
    assert_eq!(ids, vec![4]);
    assert!(b.is_junction(&TilePoint::new(1, 1)));
    assert!(!b.is_junction(&TilePoint::new(1, 0)));
    assert!(!b.is_junction(&TilePoint::new(0, 0)));
    assert_eq!(b.get_junction_id(&TilePoint::new(1, 1)), Some(4));
    assert_eq!(b.get_junction_id(&TilePoint::new(0, 1)), None);
    assert_eq!(b.get_junction_id(&TilePoint::new(7, 7)), None);
}

#[test]
fn walkable_corners_are_junctions() {
    let b = board_of(&["=#=", "###", "e#h"]);
    let mut ids: Vec<u32> = b.junctions.iter().cloned().collect();
    ids.sort();
    assert_eq!(ids, vec![0, 2, 6]);
    assert!(b.is_corner(0, 0));
    assert!(b.is_corner(2, 0));
    assert!(b.is_corner(0, 2));
    assert!(b.is_corner(2, 2));
    assert!(!b.is_corner(1, 0));
    assert!(!b.is_corner(1, 1));
}

#[test]
fn cells_off_the_board_count_as_walkable_neighbours() {
    let b = board_of(&["===", "===", "==="]);
    assert_eq!(b.junctions.len(), 9);
    assert_eq!(b.count_walkable_neighbors(&TilePoint::new(1, 0)), 4);
    let closed = board_of(&["#####", "#===#", "#=#=#", "#===#", "#####"]);
    assert_eq!(closed.junctions.len(), 0);
    assert_eq!(closed.count_walkable_neighbors(&TilePoint::new(1, 1)), 2);
    assert_eq!(closed.count_walkable_neighbors(&TilePoint::new(2, 2)), 4);
}

#[test]
fn three_way_crossing_is_a_junction_and_a_corridor_is_not() {
    let b = board_of(&["#####", "#===#", "##=##", "#####"]);
    let mut ids: Vec<u32> = b.junctions.iter().cloned().collect();
    ids.sort();
    assert_eq!(ids, vec![7]);
}

#[test]
fn junctions_stay_the_same_when_pellets_are_collected() {
    let rows = ["#=#=#", "==p==", "#=#=#", "=====", "#=#=#"];
    let mut b = board_of(&rows);
    let at_start: Vec<u32> = {
        let mut v: Vec<u32> = b.junctions.iter().cloned().collect();
        v.sort();
        v
    };
    let mut y = 0;
    while y < 5 {
        let mut x = 0;
        while x < 5 {
            let t = TilePoint::new(x, y);
            b.collect_pellet(&t);
            b.collect_power_pellet(&t);
            x += 1;
        }
        y += 1;
    }
    assert!(b.board_complete());
    let recomputed = Board::from_tiles(b.tiles.clone()).unwrap();
    let mut again: Vec<u32> = recomputed.junctions.iter().cloned().collect();
    again.sort();
    let mut kept: Vec<u32> = b.junctions.iter().cloned().collect();
    kept.sort();
    assert_eq!(again, at_start);
    assert_eq!(kept, at_start);
    assert!(!at_start.is_empty());
}

#[test]
fn lookups_off_the_board_read_empty() {
    let b = board_of(&["##", "##"]);
    assert_eq!(b.get_tile(&TilePoint::new(0, 0)), Tile::Wall);
    assert_eq!(b.get_tile(&TilePoint::new(-1, 0)), Tile::Empty);
    assert_eq!(b.get_tile(&TilePoint::new(0, -1)), Tile::Empty);
    assert_eq!(b.get_tile(&TilePoint::new(2, 0)), Tile::Empty);
    assert_eq!(b.get_tile(&TilePoint::new(0, 2)), Tile::Empty);
    assert!(b.get_tile(&TilePoint::new(100, 100)).walkable());
    assert_eq!(b.can_move(&TilePoint::new(0, 0), Direction::Left), Some(TilePoint::new(-1, 0)));
    assert_eq!(b.can_move(&TilePoint::new(0, 0), Direction::Right), None);
}

#[test]
fn tile_ids_count_along_the_rows() {
    let b = board_of(&["===", "===", "===", "==="]);
    assert_eq!(b.tile_id(&TilePoint::new(0, 0)), Some(0));
    assert_eq!(b.tile_id(&TilePoint::new(2, 0)), Some(2));
    assert_eq!(b.tile_id(&TilePoint::new(1, 3)), Some(10));
    assert_eq!(b.tile_id(&TilePoint::new(3, 0)), None);
    assert_eq!(b.tile_id(&TilePoint::new(0, 4)), None);
    assert_eq!(b.tile_id(&TilePoint::new(-1, 0)), None);
    assert_eq!(b.lookup_position(10), TilePoint::new(1, 3));
    assert_eq!(b.lookup_position(0), TilePoint::new(0, 0));
    assert_eq!(b.lookup_position(5), TilePoint::new(2, 1));
}

#[test]
fn teleport_tiles_are_recognised() {
    let b = board_of(&["t=t"]);
    assert!(b.is_tp(&TilePoint::new(0, 0)));
    assert!(!b.is_tp(&TilePoint::new(1, 0)));
    assert!(b.is_tp(&TilePoint::new(2, 0)));
    assert!(!b.is_tp(&TilePoint::new(3, 0)));
}

#[test]
fn walkable_directions_come_in_a_fixed_order() {
    let b = board_of(&["#=#", "===", "###"]);
    assert_eq!(
        b.walkable_directions(&TilePoint::new(1, 1)),
        vec![Direction::Up, Direction::Left, Direction::Right]
    );
    assert_eq!(
        b.walkable_directions(&TilePoint::new(1, 0)),
        vec![Direction::Up, Direction::Down]
    );
    let boxed = board_of(&["###", "#=#", "###"]);
    assert_eq!(boxed.walkable_directions(&TilePoint::new(1, 1)), Vec::<Direction>::new());
}

#[test]
fn pellet_is_collected_once() {
    let mut b = board_of(&["=p"]);
    let t = TilePoint::new(0, 0);
    assert!(b.collect_pellet(&t));
    assert_eq!(b.get_tile(&t), Tile::Empty);
    assert!(!b.collect_pellet(&t));
    assert!(!b.collect_pellet(&t));
    assert_eq!(b.get_tile(&TilePoint::new(1, 0)), Tile::PowerPellet);
}

#[test]
fn power_pellet_is_collected_once() {
    let mut b = board_of(&["=p"]);
    let t = TilePoint::new(1, 0);
    assert!(!b.collect_pellet(&t));
    assert_eq!(b.get_tile(&t), Tile::PowerPellet);
    assert!(b.collect_power_pellet(&t));
    assert_eq!(b.get_tile(&t), Tile::Empty);
    assert!(!b.collect_power_pellet(&t));
    assert!(!b.collect_power_pellet(&TilePoint::new(0, 0)));
    assert_eq!(b.get_tile(&TilePoint::new(0, 0)), Tile::Pellet);
}

#[test]
fn collecting_off_the_board_changes_nothing() {
    let mut b = board_of(&["=p"]);
    assert!(!b.collect_pellet(&TilePoint::new(-1, 0)));
    assert!(!b.collect_pellet(&TilePoint::new(0, 1)));
    assert!(!b.collect_power_pellet(&TilePoint::new(2, 0)));
    assert_eq!(b.tiles, vec![vec![Tile::Pellet, Tile::PowerPellet]]);
}

#[test]
fn walls_and_teleports_are_never_collected() {
    let mut b = board_of(&["#teh"]);
    let mut x = 0;
    while x < 4 {
        assert!(!b.collect_pellet(&TilePoint::new(x, 0)));
        assert!(!b.collect_power_pellet(&TilePoint::new(x, 0)));
        x += 1;
    }
    assert_eq!(b.tiles, vec![vec![Tile::Wall, Tile::Teleport, Tile::Empty, Tile::House]]);
}

#[test]
fn board_is_complete_once_everything_is_collected() {
    let mut b = board_of(&["#=#", "ep#"]);
    assert!(!b.board_complete());
    assert!(b.collect_pellet(&TilePoint::new(1, 0)));
    assert!(!b.board_complete());
    assert!(b.collect_power_pellet(&TilePoint::new(1, 1)));
    assert!(b.board_complete());
    assert!(b.board_complete());
    assert!(b.board_complete());
    assert!(board_of(&["#eth"]).board_complete());
}

#[test]
fn board_update_reports_whether_something_happened() {
    let nothing = BoardUpdate::new();
    assert_eq!(nothing.pellets_collected, 0);
    assert_eq!(nothing.power_pellets_collected, 0);
    assert_eq!(nothing.junctions, None);
    assert!(!nothing.happened());
    assert_eq!(nothing.into_option(), None);
    let pellet = BoardUpdate { pellets_collected: 1, ..nothing };
    assert!(pellet.happened());
    assert_eq!(pellet.into_option(), Some(pellet));
    let power = BoardUpdate { power_pellets_collected: 1, ..nothing };
    assert!(power.happened());
    let trail = BoardUpdate { junctions: Some((1, 2)), ..nothing };
    assert!(trail.happened());
    assert_eq!(trail.into_option(), Some(trail));
}

#[test]
fn pickup_under_the_player_trims_its_history() {
    let mut b = board_of(&["=pe"]);
    let mut history: VecDeque<u32> = VecDeque::new();
    history.push_back(7);
    history.push_back(8);
    history.push_back(9);
    let u = b.check_pellets_every_tile(&WorldPoint::new(10, 200), &mut history);
    assert_eq!(u, BoardUpdate { pellets_collected: 1, power_pellets_collected: 0, junctions: None });
    assert_eq!(history, VecDeque::from(vec![7]));
    assert_eq!(b.get_tile(&TilePoint::new(0, 0)), Tile::Empty);

    history.push_back(3);
    let u = b.check_pellets_every_tile(&WorldPoint::new(10, 200), &mut history);
    assert!(!u.happened());
    assert_eq!(history, VecDeque::from(vec![7, 3]));

    let u = b.check_pellets_every_tile(&WorldPoint::new(224, 0), &mut history);
    assert_eq!(u, BoardUpdate { pellets_collected: 0, power_pellets_collected: 1, junctions: None });
    assert_eq!(history, VecDeque::from(vec![7]));

    let mut empty: VecDeque<u32> = VecDeque::new();
    let mut c = board_of(&["="]);
    let u = c.check_pellets_every_tile(&WorldPoint::new(0, 0), &mut empty);
    assert!(u.happened());
    assert!(empty.is_empty());
    let u = c.check_pellets_every_tile(&WorldPoint::new(-5, 0), &mut empty);
    assert!(!u.happened());
}
