use plant_vs_zombies::land::{GridPos, WorldPos};
use plant_vs_zombies::plants::peashooter::{
    find_target, is_close, move_bullet, shoot, Bullet, Peashooter, BULLET_DAMAGE, BULLET_LIMIT_X,
    BULLET_RADIUS, BULLET_SPEED,
};
use plant_vs_zombies::plants::wallnut::Wallnut;
use plant_vs_zombies::plants::{Garden, PlantKind};
use plant_vs_zombies::player::Dying;
use plant_vs_zombies::zombies::basic_zombie::BasicZombie;
use plant_vs_zombies::zombies::{Horde, ZombieType};

const UNIT: i64 = 300;

fn row_y(row: i32) -> i64 {
    WorldPos::tile_centre((0, row)).y
}

#[test]
fn the_numbers_of_the_bullet() {
    assert_eq!(BULLET_SPEED, 200);
    assert_eq!(BULLET_LIMIT_X, 814 * UNIT);
    assert_eq!(BULLET_RADIUS, 10 * UNIT);
    assert_eq!(BULLET_DAMAGE, 1000);
}

#[test]
fn near_is_less_than_the_radius() {
    let origin = WorldPos { x: 0, y: 0 };
    assert!(is_close(origin, origin));
    assert!(is_close(origin, WorldPos { x: 2999, y: 0 }));
    assert!(!is_close(origin, WorldPos { x: 3000, y: 0 }));
    assert!(!is_close(origin, WorldPos { x: 0, y: -3000 }));
    assert!(is_close(origin, WorldPos { x: -1800, y: 2399 }));
    assert!(!is_close(origin, WorldPos { x: -1800, y: 2400 }));
    assert!(is_close(WorldPos { x: 2121, y: -2121 }, origin));
    assert!(!is_close(WorldPos { x: 2122, y: -2122 }, origin));
    assert!(!is_close(WorldPos { x: i64::MAX, y: i64::MIN }, WorldPos { x: i64::MIN, y: i64::MAX }));
    assert!(is_close(WorldPos { x: i64::MAX, y: i64::MIN }, WorldPos { x: i64::MAX - 1, y: i64::MIN + 1 }));
}

#[test]
fn projectile_miss_then_hit() {
    // a projectile at x = 100 that moves 50 units a second, a zombie at x = 250
    let mut horde = Horde::new();
    horde.spawn("BasicZombie", 10000, ZombieType::Basic, WorldPos { x: 250 * UNIT, y: row_y(2) }, 0);
    let mut bullets = vec![Bullet { pos: WorldPos { x: 100 * UNIT, y: row_y(2) }, velocity: 15, dying: None }];
    // t = 1 s: the distance is 100
    move_bullet(&mut bullets, &mut horde, 1000);
    assert_eq!(bullets[0].pos.x, 150 * UNIT);
    assert_eq!(bullets[0].dying, None);
    assert_eq!(horde.zombies[0].player.health, 10000);
    // t = 2 s: the distance is 50
    move_bullet(&mut bullets, &mut horde, 1000);
    assert_eq!(bullets[0].pos.x, 200 * UNIT);
    assert_eq!(bullets[0].dying, None);
    assert_eq!(horde.zombies[0].player.health, 10000);
    // t = 2.8 s: the distance is 10, which is not less than the radius
    move_bullet(&mut bullets, &mut horde, 800);
    assert_eq!(bullets[0].pos.x, 240 * UNIT);
    assert_eq!(bullets[0].dying, None);
    assert_eq!(horde.zombies[0].player.health, 10000);
    // a millisecond later the distance is under 10
    move_bullet(&mut bullets, &mut horde, 1);
    assert_eq!(bullets[0].pos.x, 240 * UNIT + 15);
    assert_eq!(bullets[0].dying, Some(Dying));
    assert_eq!(horde.zombies[0].player.health, 10000 - 1000);
    // the bullet is spent: it neither moves nor hits again
    move_bullet(&mut bullets, &mut horde, 1);
    move_bullet(&mut bullets, &mut horde, 100);
    assert_eq!(bullets[0].pos.x, 240 * UNIT + 15);
    assert_eq!(horde.zombies[0].player.health, 9000);
    assert_eq!(horde.zombies[0].player.dying, None);
}

#[test]
fn a_bullet_leaves_the_field_on_the_right() {
    let mut horde = Horde::new();
    let mut bullets = vec![
        Bullet { pos: WorldPos { x: BULLET_LIMIT_X - 201, y: 0 }, velocity: BULLET_SPEED, dying: None },
        Bullet { pos: WorldPos { x: BULLET_LIMIT_X - 200, y: 0 }, velocity: BULLET_SPEED, dying: None },
    ];
    move_bullet(&mut bullets, &mut horde, 1);
    assert_eq!(bullets[0].pos.x, BULLET_LIMIT_X - 1);
    assert_eq!(bullets[0].dying, None);
    assert_eq!(bullets[1].pos.x, BULLET_LIMIT_X);
    assert_eq!(bullets[1].dying, Some(Dying));
}

#[test]
fn a_bullet_at_the_edge_does_not_hit() {
    let mut horde = Horde::new();
    horde.spawn("BasicZombie", 10000, ZombieType::Basic, WorldPos { x: BULLET_LIMIT_X + 10, y: row_y(1) }, 0);
    let mut bullets = vec![Bullet { pos: WorldPos { x: BULLET_LIMIT_X - 1, y: row_y(1) }, velocity: 1, dying: None }];
    move_bullet(&mut bullets, &mut horde, 1);
    assert_eq!(bullets[0].dying, Some(Dying));
    assert_eq!(horde.zombies[0].player.health, 10000);
}

#[test]
fn the_first_zombie_of_the_row_takes_the_hit() {
    let mut horde = Horde::new();
    // the zombie that came first is farther away, but near enough
    horde.spawn("BasicZombie", 10000, ZombieType::Basic, WorldPos { x: 2000, y: row_y(3) }, 0);
    horde.spawn("BasicZombie", 10000, ZombieType::Basic, WorldPos { x: 100, y: row_y(3) }, 0);
    horde.spawn("BasicZombie", 10000, ZombieType::Basic, WorldPos { x: 0, y: row_y(2) }, 0);
    let mut bullets = vec![Bullet { pos: WorldPos { x: -200, y: row_y(3) }, velocity: BULLET_SPEED, dying: None }];
    assert_eq!(find_target(&horde, WorldPos { x: 0, y: row_y(3) }), Some(0));
    assert_eq!(find_target(&horde, WorldPos { x: -1000, y: row_y(3) }), Some(1));
    assert_eq!(find_target(&horde, WorldPos { x: -3000, y: row_y(3) }), None);
    assert_eq!(find_target(&horde, WorldPos { x: 0, y: row_y(7) }), None);
    assert_eq!(find_target(&horde, WorldPos { x: 0, y: row_y(-1) }), None);
    move_bullet(&mut bullets, &mut horde, 1);
    assert_eq!(bullets[0].dying, Some(Dying));
    assert_eq!(horde.zombies[0].player.health, 9000);
    assert_eq!(horde.zombies[1].player.health, 10000);
    assert_eq!(horde.zombies[2].player.health, 10000);
}

#[test]
fn one_bullet_hits_one_zombie_and_a_dead_zombie_is_not_hit() {
    let mut horde = Horde::new();
    horde.spawn("BasicZombie", 1500, ZombieType::Basic, WorldPos { x: 0, y: row_y(0) }, 0);
    horde.spawn("BasicZombie", 10000, ZombieType::Basic, WorldPos { x: 0, y: row_y(0) }, 0);
    let mut bullets = Vec::new();
    for _ in 0..3 {
        bullets.push(Bullet { pos: WorldPos { x: -200, y: row_y(0) }, velocity: BULLET_SPEED, dying: None });
    }
    move_bullet(&mut bullets, &mut horde, 1);
    // the first two bullets kill the first zombie, the third finds the second
    assert_eq!(horde.zombies[0].player.health, -500);
    assert_eq!(horde.zombies[0].player.dying, Some(Dying));
    assert_eq!(horde.zombies[1].player.health, 9000);
    assert_eq!(horde.land.rows[0], vec![1]);
    for bullet in &bullets {
        assert_eq!(bullet.dying, Some(Dying));
    }
}

#[test]
fn a_peashooter_shoots_every_two_seconds_at_a_zombie_on_the_land() {
    let mut garden = Garden::new();
    let mut horde = Horde::new();
    let mut bullets = Vec::new();
    assert_eq!(Peashooter::create(GridPos::new(1, 2), &mut garden, 0), Ok(0));
    assert_eq!(Wallnut::create(GridPos::new(2, 2), &mut garden, 0), Ok(1));
    BasicZombie::create(GridPos::new(8, 2), &mut horde, 0);
    shoot(&mut garden, &mut bullets, &horde, 1999);
    assert!(bullets.is_empty());
    shoot(&mut garden, &mut bullets, &horde, 1);
    assert_eq!(bullets.len(), 1);
    assert_eq!(bullets[0].pos, WorldPos::tile_centre((1, 2)));
    assert_eq!(bullets[0].velocity, BULLET_SPEED);
    assert_eq!(bullets[0].dying, None);
    shoot(&mut garden, &mut bullets, &horde, 1000);
    assert_eq!(bullets.len(), 1);
    shoot(&mut garden, &mut bullets, &horde, 1500);
    assert_eq!(bullets.len(), 2);
    assert!(matches!(garden.plants[0].kind, PlantKind::Peashooter(p) if p.shoot_timer.elapsed == 500));
}

#[test]
fn a_peashooter_does_not_shoot_into_a_clear_row() {
    let mut garden = Garden::new();
    let mut horde = Horde::new();
    let mut bullets = Vec::new();
    assert_eq!(Peashooter::create(GridPos::new(1, 2), &mut garden, 0), Ok(0));
    assert_eq!(Peashooter::create(GridPos::new(1, 7), &mut garden, 0), Ok(1));
    assert_eq!(Peashooter::create(GridPos::new(1, -1), &mut garden, 0), Ok(2));
    shoot(&mut garden, &mut bullets, &horde, 2000);
    assert!(bullets.is_empty());
    // a zombie in another row, and one in the row but beyond the right edge
    BasicZombie::create(GridPos::new(4, 1), &mut horde, 0);
    BasicZombie::create(GridPos::new(4, 0), &mut horde, 0);
    BasicZombie::create(GridPos::new(11, 2), &mut horde, 0);
    shoot(&mut garden, &mut bullets, &horde, 2000);
    assert!(bullets.is_empty());
    // the timer has run all the same
    assert!(matches!(garden.plants[0].kind, PlantKind::Peashooter(p) if p.shoot_timer.finished));
    BasicZombie::create(GridPos::new(0, 2), &mut horde, 0);
    shoot(&mut garden, &mut bullets, &horde, 2000);
    assert_eq!(bullets.len(), 1);
    assert_eq!(bullets[0].pos, WorldPos::tile_centre((1, 2)));
}

#[test]
fn a_dying_peashooter_does_not_shoot() {
    let mut garden = Garden::new();
    let mut horde = Horde::new();
    let mut bullets = Vec::new();
    assert_eq!(Peashooter::create(GridPos::new(1, 2), &mut garden, 0), Ok(0));
    BasicZombie::create(GridPos::new(5, 2), &mut horde, 0);
    assert!(garden.hurt(0, 10000).is_some());
    shoot(&mut garden, &mut bullets, &horde, 2000);
    assert!(bullets.is_empty());
    assert!(matches!(garden.plants[0].kind, PlantKind::Peashooter(p) if p.shoot_timer.elapsed == 0));
}
