use tb_pacman::geometry::{
    floor_div, Direction, Input, ScreenPoint, TilePoint, WorldPoint, MAX_TILE_COORD, SCALE,
    TILE_HEIGHT, TILE_WIDTH,
};
use tb_pacman::tile::Tile;

#[test]
fn tile_size_is_seven_pixels_of_thirty_two_units() {
    assert_eq!(SCALE, 32);
    assert_eq!(TILE_WIDTH, 7 * 32);
    assert_eq!(TILE_HEIGHT, 7 * 32);
    assert_eq!(MAX_TILE_COORD, i32::MAX / 224);
}

#[test]
fn floor_div_rounds_down() {
    assert_eq!(floor_div(0, 224), 0);
    assert_eq!(floor_div(223, 224), 0);
    assert_eq!(floor_div(224, 224), 1);
    assert_eq!(floor_div(-1, 224), -1);
    assert_eq!(floor_div(-224, 224), -1);
    assert_eq!(floor_div(-225, 224), -2);
    assert_eq!(floor_div(i32::MIN, 224), -9_586_981);
    assert_eq!(floor_div(i32::MAX, 224), 9_586_980);
    assert_eq!(floor_div(7, 1), 7);
    assert_eq!(floor_div(-7, 2), -4);
}

#[test]
fn world_to_tile_floors_negative_coordinates() {
    assert_eq!(WorldPoint::new(0, 0).to_tile(), TilePoint::new(0, 0));
    assert_eq!(WorldPoint::new(223, 224).to_tile(), TilePoint::new(0, 1));
    assert_eq!(WorldPoint::new(-1, -1).to_tile(), TilePoint::new(-1, -1));
    assert_eq!(WorldPoint::new(-224, -225).to_tile(), TilePoint::new(-1, -2));
    assert_eq!(WorldPoint::new(2240, 2463).to_tile(), TilePoint::new(10, 10));
}

#[test]
fn tile_to_world_multiplies_by_the_tile_size() {
    assert_eq!(TilePoint::new(3, 2).to_world(), WorldPoint::new(672, 448));
    assert_eq!(TilePoint::new(10, 11).to_world(), WorldPoint::new(2240, 2464));
    assert_eq!(TilePoint::new(-1, 0).to_world(), WorldPoint::new(-224, 0));
    assert_eq!(
        TilePoint::new(MAX_TILE_COORD, -MAX_TILE_COORD).to_world(),
        WorldPoint::new(2_147_483_520, -2_147_483_520)
    );
}

#[test]
fn tile_world_round_trip_gives_the_tile_back() {
    let mut t: i32 = -5;
    while t <= 5 {
        let tile = TilePoint::new(t, -t);
        assert_eq!(tile.to_world().to_tile(), tile);
        t += 1;
    }
}

#[test]
fn world_to_screen_rounds_toward_zero() {
    let p = WorldPoint::new(64, -33).to_screen();
    assert_eq!(p.pixels(), (2, -1));
    assert_eq!(WorldPoint::new(31, -31).to_screen().pixels(), (0, 0));
    assert_eq!(WorldPoint::new(2240, 2464).to_screen().pixels(), (70, 77));
}

#[test]
fn screen_point_hands_out_its_pixels() {
    let p = ScreenPoint::new(3, -4);
    assert_eq!(p.sx, 3);
    assert_eq!(p.sy, -4);
    assert_eq!(p.pixels(), (3, -4));
}

#[test]
fn translate_moves_by_the_offset() {
    assert_eq!(WorldPoint::new(5, 6).translate(-7, 10), WorldPoint::new(-2, 16));
    assert_eq!(TilePoint::new(5, 6).translate(-7, 10), TilePoint::new(-2, 16));
}

#[test]
fn manhattan_distance_adds_both_axes() {
    assert_eq!(TilePoint::new(1, 2).manhattan_dist(&TilePoint::new(4, -2)), 7);
    assert_eq!(TilePoint::new(4, -2).manhattan_dist(&TilePoint::new(1, 2)), 7);
    assert_eq!(TilePoint::new(3, 3).manhattan_dist(&TilePoint::new(3, 3)), 0);
    assert_eq!(
        TilePoint::new(i32::MIN, 0).manhattan_dist(&TilePoint::new(-1, 0)),
        i32::MAX
    );
}

#[test]
fn step_follows_the_direction() {
    let t = TilePoint::new(4, 4);
    assert_eq!(t.step(Direction::Up), TilePoint::new(4, 3));
    assert_eq!(t.step(Direction::Down), TilePoint::new(4, 5));
    assert_eq!(t.step(Direction::Left), TilePoint::new(3, 4));
    assert_eq!(t.step(Direction::Right), TilePoint::new(5, 4));
    assert_eq!(Direction::Up.delta(), (0, -1));
    assert_eq!(Direction::Down.delta(), (0, 1));
    assert_eq!(Direction::Left.delta(), (-1, 0));
    assert_eq!(Direction::Right.delta(), (1, 0));
}

#[test]
fn input_asks_for_left_before_right_before_up_before_down() {
    let idle = Input::default();
    assert_eq!(idle.pressed(), None);
    assert!(!idle.left && !idle.right && !idle.up && !idle.down);
    assert!(!idle.button1 && !idle.button2);
    let all = Input { left: true, right: true, up: true, down: true, ..idle };
    assert_eq!(all.pressed(), Some(Direction::Left));
    let no_left = Input { left: false, ..all };
    assert_eq!(no_left.pressed(), Some(Direction::Right));
    let vertical = Input { up: true, down: true, ..idle };
    assert_eq!(vertical.pressed(), Some(Direction::Up));
    let down = Input { down: true, button1: true, ..idle };
    assert_eq!(down.pressed(), Some(Direction::Down));
}

#[test]
fn tile_codes_map_to_tiles() {
    assert_eq!(Tile::new_from_char('e'), Ok(Tile::Empty));
    assert_eq!(Tile::new_from_char('='), Ok(Tile::Pellet));
    assert_eq!(Tile::new_from_char('p'), Ok(Tile::PowerPellet));
    assert_eq!(Tile::new_from_char('#'), Ok(Tile::Wall));
    assert_eq!(Tile::new_from_char('h'), Ok(Tile::House));
    assert_eq!(Tile::new_from_char('t'), Ok(Tile::Teleport));
    assert_eq!(Tile::new_from_char('x'), Err('x'));
    assert_eq!(Tile::new_from_char(' '), Err(' '));
    assert_eq!(Tile::new_from_char('E'), Err('E'));
}

#[test]
fn walls_and_houses_are_not_walkable() {
    assert!(!Tile::Wall.walkable());
    assert!(!Tile::House.walkable());
    assert!(Tile::Pellet.walkable());
    assert!(Tile::PowerPellet.walkable());
    assert!(Tile::Empty.walkable());
    assert!(Tile::Teleport.walkable());
}

#[test]
fn only_pellets_are_collectable() {
    assert!(Tile::Pellet.is_still_collectable());
    assert!(Tile::PowerPellet.is_still_collectable());
    assert!(!Tile::Empty.is_still_collectable());
    assert!(!Tile::Wall.is_still_collectable());
    assert!(!Tile::House.is_still_collectable());
    assert!(!Tile::Teleport.is_still_collectable());
}
