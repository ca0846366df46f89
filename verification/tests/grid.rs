use plant_vs_zombies::land::{
    clamp_to_i32, round_div_i64, GridPos, WorldPos, FIRST_TILE_X, FIRST_TILE_Y,
    LAND_DISPLAY_OFFSET_X, LAND_DISPLAY_OFFSET_Y, LAND_LEFT_EDGE_X, LAND_TILE_HEIGHT,
    LAND_TILE_WIDTH, LAND_TO_TILE_OFFSET_X, LAND_TO_TILE_OFFSET_Y, WORLD_SCALE,
};

#[test]
fn tile_round_trip_on_the_land() {
    for x in 0..9 {
        for y in 0..5 {
            let world = GridPos::new(x, y).to_world();
            assert_eq!(world.to_tile(), (x, y));
            assert_eq!(WorldPos::tile_centre((x, y)), world);
            assert_eq!(GridPos::from_world(world), GridPos::new(x, y));
        }
    }
}

#[test]
fn tile_round_trip_off_the_land() {
    for tile in [(-1, -1), (11, 2), (-40, 7), (i32::MAX, i32::MIN), (i32::MIN, i32::MAX)] {
        assert_eq!(WorldPos::tile_centre(tile).to_tile(), tile);
        assert_eq!(GridPos::new(tile.0, tile.1).to_tile(), tile);
    }
}

#[test]
fn first_tile_centre_is_offset_plus_half_a_tile() {
    assert_eq!(FIRST_TILE_X, LAND_DISPLAY_OFFSET_X + LAND_TO_TILE_OFFSET_X + LAND_TILE_WIDTH / 2);
    assert_eq!(FIRST_TILE_Y, LAND_DISPLAY_OFFSET_Y + LAND_TO_TILE_OFFSET_Y + LAND_TILE_HEIGHT / 2);
    assert_eq!(FIRST_TILE_X, -335 * WORLD_SCALE);
    assert_eq!(FIRST_TILE_Y, -225 * WORLD_SCALE);
    assert_eq!(LAND_LEFT_EDGE_X, FIRST_TILE_X - LAND_TILE_WIDTH / 2);
}

#[test]
fn world_position_of_a_tile_is_its_centre() {
    // tile (3, 2): 80 * 3 - 335 = -95, 100 * 2 - 225 = -25 world units
    let pos = GridPos::new(3, 2).to_world();
    assert_eq!(pos, WorldPos { x: -95 * 300, y: -25 * 300 });
    assert_eq!(GridPos::new(0, 0).to_world(), WorldPos { x: -100500, y: -67500 });
}

#[test]
fn grid_position_of_a_world_position() {
    let grid = GridPos::from_world(WorldPos { x: 0, y: 0 });
    assert_eq!(grid, GridPos { x: 100500, y: 67500 });
    // 335 / 80 = 4.19 tiles, 225 / 100 = 2.25 tiles
    assert_eq!(grid.to_tile(), (4, 2));
    assert_eq!(grid.to_world(), WorldPos { x: 0, y: 0 });
}

#[test]
fn rounding_goes_to_the_nearest_tile() {
    assert_eq!(GridPos { x: 11999, y: 0 }.to_tile(), (0, 0));
    assert_eq!(GridPos { x: 12000, y: 0 }.to_tile(), (1, 0));
    assert_eq!(GridPos { x: -11999, y: 0 }.to_tile(), (0, 0));
    assert_eq!(GridPos { x: -12000, y: 0 }.to_tile(), (-1, 0));
    assert_eq!(GridPos { x: 0, y: 14999 }.to_tile(), (0, 0));
    assert_eq!(GridPos { x: 0, y: 15000 }.to_tile(), (0, 1));
    assert_eq!(GridPos { x: 0, y: -15000 }.to_tile(), (0, -1));
    assert_eq!(GridPos { x: 35999, y: 44999 }.to_tile(), (1, 1));
    assert_eq!(GridPos { x: 36000, y: 45000 }.to_tile(), (2, 2));
}

#[test]
fn round_gives_the_centre_of_the_tile() {
    assert_eq!(GridPos { x: 30000, y: -20000 }.round(), GridPos { x: 24000, y: -30000 });
    assert_eq!(GridPos { x: 24000, y: 60000 }.round(), GridPos { x: 24000, y: 60000 });
    assert_eq!(GridPos { x: 1, y: -1 }.round(), GridPos::new(0, 0));
}

#[test]
fn round_div_ties_go_away_from_zero() {
    assert_eq!(round_div_i64(5, 10), 1);
    assert_eq!(round_div_i64(-5, 10), -1);
    assert_eq!(round_div_i64(4, 10), 0);
    assert_eq!(round_div_i64(-4, 10), 0);
    assert_eq!(round_div_i64(15, 10), 2);
    assert_eq!(round_div_i64(-15, 10), -2);
    assert_eq!(round_div_i64(7, 3), 2);
    assert_eq!(round_div_i64(8, 3), 3);
    assert_eq!(round_div_i64(-8, 3), -3);
    assert_eq!(round_div_i64(0, 7), 0);
    assert_eq!(round_div_i64(i64::MAX, 1), i64::MAX);
    assert_eq!(round_div_i64(i64::MIN, 1), i64::MIN);
    assert_eq!(round_div_i64(i64::MIN, 2), i64::MIN / 2);
    assert_eq!(round_div_i64(i64::MAX, 2), i64::MAX / 2 + 1);
}

#[test]
fn tile_numbers_stop_at_the_ends_of_i32() {
    assert_eq!(clamp_to_i32(5), 5);
    assert_eq!(clamp_to_i32(i64::MAX), i32::MAX);
    assert_eq!(clamp_to_i32(i64::MIN), i32::MIN);
    assert_eq!(GridPos { x: i64::MAX, y: i64::MIN }.to_tile(), (i32::MAX, i32::MIN));
    assert_eq!(WorldPos { x: i64::MAX, y: i64::MIN }.to_tile(), (i32::MAX, i32::MIN));
    assert_eq!(WorldPos { x: i64::MAX - 100499, y: 0 }.to_tile().0, i32::MAX);
}

#[test]
fn in_land_is_the_nine_by_five_grid() {
    assert!(GridPos::new(0, 0).in_land());
    assert!(GridPos::new(8, 4).in_land());
    assert!(!GridPos::new(9, 4).in_land());
    assert!(!GridPos::new(8, 5).in_land());
    assert!(!GridPos::new(-1, 0).in_land());
    assert!(!GridPos::new(0, -1).in_land());
    assert!(GridPos::new(11, 2).to_world().to_tile() == (11, 2));
    assert!(!GridPos::new(11, 2).to_world().in_land());
    // half a tile inside the right border still counts, a step more does not
    assert!(WorldPos { x: FIRST_TILE_X + 8 * LAND_TILE_WIDTH + 11999, y: FIRST_TILE_Y }.in_land());
    assert!(!WorldPos { x: FIRST_TILE_X + 8 * LAND_TILE_WIDTH + 12000, y: FIRST_TILE_Y }.in_land());
    assert!(WorldPos { x: LAND_LEFT_EDGE_X + 1, y: FIRST_TILE_Y }.in_land());
    assert!(!WorldPos { x: LAND_LEFT_EDGE_X, y: FIRST_TILE_Y }.in_land());
}

#[test]
fn a_grid_position_turns_into_its_tile() {
    let tile: (i32, i32) = GridPos { x: 3 * 24000 + 11999, y: -2 * 30000 - 14999 }.into();
    assert_eq!(tile, (3, -2));
    assert_eq!(<(i32, i32)>::from(GridPos::new(8, 4)), (8, 4));
}
