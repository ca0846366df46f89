use plant_vs_zombies::game::{remove_dying, Game};
use plant_vs_zombies::land::{WorldPos, LAND_LEFT_EDGE_X};
use plant_vs_zombies::plants::peashooter::Bullet;
use plant_vs_zombies::plants::sunflower::Sun;
use plant_vs_zombies::plants::PlantKind;
use plant_vs_zombies::player::{dead_cleaner, Dying};
use plant_vs_zombies::toolbar::SunCount;
use plant_vs_zombies::zombies::create_zombie::spawn_zombie;
use plant_vs_zombies::zombies::{ZombieState, ZombieType};
use plant_vs_zombies::GameState;

fn centre(x: i32, y: i32) -> WorldPos {
    WorldPos::tile_centre((x, y))
}

#[test]
fn a_new_game_waits_for_its_start() {
    let game = Game::new();
    assert_eq!(game.state, GameState::WaitForStart);
    assert_eq!(game.elapsed, 0);
    assert!(game.garden.plants.is_empty());
    assert!(game.horde.zombies.is_empty());
    assert!(game.bullets.is_empty());
    assert!(game.suns.is_empty());
    assert_eq!(game.sun_count, SunCount(50));
    assert_eq!(game.toolbar.items.len(), 3);
    assert!(game.toolbar.items[0].availability.available());
    assert!(!game.toolbar.items[1].availability.available());
    assert!(game.toolbar.items[2].availability.available());
    assert_eq!(game.create_timer.timer.duration, 10000);
    assert_eq!(game.sun_timer.0.duration, 15000);
}

#[test]
fn nothing_moves_before_the_start() {
    let mut game = Game::new();
    game.tick(20_000, 20_000);
    assert_eq!(game.state, GameState::WaitForStart);
    assert_eq!(game.elapsed, 0);
    assert!(game.suns.is_empty());
    assert_eq!(game.sun_timer.0.elapsed, 0);
    game.start_clicked();
    assert_eq!(game.state, GameState::Running);
    game.start_clicked();
    assert_eq!(game.state, GameState::Running);
    game.tick(15_000, 15_000);
    assert_eq!(game.elapsed, 15_000);
    assert_eq!(game.suns.len(), 1);
    assert!(game.sun_timer.0.finished);
}

#[test]
fn a_purchase_takes_two_clicks() {
    let mut game = Game::new();
    game.start_clicked();
    game.tick(100, 100);
    // a click on the field while no card is held does nothing
    assert_eq!(game.click_field(centre(0, 0)), None);
    assert!(game.garden.plants.is_empty());
    // the peashooter costs 100: the click on its card is ignored
    assert!(!game.click_card(1));
    assert!(game.click_card(0));
    assert!(!game.click_card(2));
    assert_eq!(game.click_field(centre(2, 2)), Some(0));
    assert_eq!(game.sun_count, SunCount(0));
    assert_eq!(game.garden.plants[0].player.spawned_time, 100);
    assert_eq!(game.garden.land.get((2, 2)), Some(0));
    assert!(matches!(game.garden.plants[0].kind, PlantKind::Sunflower(_)));
    assert_eq!(game.toolbar.armed, None);
    assert!(!game.click_card(0));
    assert!(!game.click_card(2));
    assert_eq!(game.click_field(centre(3, 3)), None);
    assert_eq!(game.garden.plants.len(), 1);
}

#[test]
fn an_occupied_tile_costs_nothing() {
    let mut game = Game::new();
    game.start_clicked();
    game.sun_count = SunCount(100);
    game.toolbar.sun_changed(&SunCount(100));
    assert!(game.click_card(2));
    assert_eq!(game.click_field(centre(1, 1)), Some(0));
    assert_eq!(game.sun_count, SunCount(50));
    assert!(game.click_card(0));
    assert_eq!(game.click_field(centre(1, 1)), None);
    assert_eq!(game.sun_count, SunCount(50));
    assert_eq!(game.garden.plants.len(), 1);
    assert_eq!(game.garden.land.get((1, 1)), Some(0));
    assert_eq!(game.toolbar.armed, None);
    assert!(game.click_card(0));
    assert_eq!(game.click_field(centre(1, 2)), Some(1));
    assert_eq!(game.sun_count, SunCount(0));
}

#[test]
fn suns_are_made_collected_and_spent() {
    let mut game = Game::new();
    game.start_clicked();
    assert!(game.click_card(0));
    assert_eq!(game.click_field(centre(0, 4)), Some(0));
    let mut now = 0;
    for _ in 0..15 {
        now += 1000;
        game.tick(now, 1000);
    }
    // one sun from the sunflower and one from the sky
    assert_eq!(game.suns.len(), 2);
    let from_flower = game.suns.iter().position(|sun| sun.move_up).unwrap();
    assert_eq!(game.suns[from_flower].pos, centre(0, 4));
    assert!(game.click_sun(from_flower));
    assert!(!game.click_sun(from_flower));
    assert!(game.click_sun(1 - from_flower));
    assert_eq!(game.sun_count, SunCount(100));
    assert!(game.toolbar.items[1].availability.available());
    game.tick(now + 16, 16);
    assert!(game.suns.is_empty());
    assert!(game.click_card(1));
    assert_eq!(game.click_field(centre(1, 4)), Some(1));
    assert_eq!(game.sun_count, SunCount(0));
    // the card of the sunflower has cooled down meanwhile, that of the peashooter has not
    assert!(game.toolbar.items[0].availability.cooldown_finished);
    assert!(!game.toolbar.items[1].availability.cooldown_finished);
    game.tick(now + 10_016, 10_000);
    assert!(game.toolbar.items[1].availability.cooldown_finished);
}

#[test]
fn a_peashooter_kills_a_zombie() {
    let mut game = Game::new();
    game.start_clicked();
    game.sun_count = SunCount(100);
    game.toolbar.sun_changed(&SunCount(100));
    assert!(game.click_card(1));
    assert_eq!(game.click_field(centre(0, 2)), Some(0));
    spawn_zombie(&mut game.horde, ZombieType::Basic, 2, 0);
    let mut now = 0;
    let mut shots = 0;
    let mut least = 10000;
    while !game.horde.zombies.is_empty() {
        assert!(now < 44_000);
        now += 10;
        let bullets = game.bullets.len();
        game.tick(now, 10);
        if game.bullets.len() > bullets {
            shots += 1;
        }
        assert_eq!(game.state, GameState::Running);
        assert!(game.bullets.iter().all(|bullet| bullet.dying.is_none()));
        assert!(game.horde.zombies.iter().all(|zombie| zombie.player.dying.is_none()));
        if let Some(zombie) = game.horde.zombies.first() {
            assert!(zombie.player.health <= least);
            assert_eq!((least - zombie.player.health) % 1000, 0);
            least = zombie.player.health;
            assert_eq!(zombie.common.state, ZombieState::Walking);
        }
    }
    // ten hits of 10 points each
    assert_eq!(least, 1000);
    assert!(shots >= 10);
    assert!(game.horde.land.rows[2].is_empty());
    assert_eq!(game.garden.plants.len(), 1);
    assert_eq!(game.garden.plants[0].player.health, 10000);
}

#[test]
fn a_zombie_eats_its_way_through() {
    let mut game = Game::new();
    game.start_clicked();
    assert!(game.click_card(2));
    assert_eq!(game.click_field(centre(8, 0)), Some(0));
    spawn_zombie(&mut game.horde, ZombieType::Conehead, 0, 0);
    let mut now = 0;
    let mut ate = false;
    while game.state == GameState::Running {
        assert!(now < 44_000 * 8);
        now += 100;
        // the clock stays in the warm-up, so that no other zombie comes
        game.tick(now % 44_000, 100);
        if let Some(plant) = game.garden.plants.first() {
            assert!(plant.player.health > 0);
            assert_eq!(game.garden.land.get((8, 0)), Some(0));
            ate = ate || plant.player.health < 25000;
        } else {
            assert!(ate);
            assert_eq!(game.garden.land.get((8, 0)), None);
        }
    }
    assert!(game.garden.plants.is_empty());
    assert_eq!(game.state, GameState::End { win: false });
    assert!(game.horde.zombies[0].pos.x < LAND_LEFT_EDGE_X);
    assert!(game.horde.zombies[0].pos.x >= LAND_LEFT_EDGE_X - 300);
    // the game is over: nothing moves any more
    let x = game.horde.zombies[0].pos.x;
    game.tick(1000, 1000);
    assert_eq!(game.horde.zombies[0].pos.x, x);
    game.start_clicked();
    game.finish(true);
    assert_eq!(game.state, GameState::End { win: false });
}

#[test]
fn the_game_is_won_by_lasting_ten_minutes() {
    let mut game = Game::new();
    game.start_clicked();
    game.tick(600_999, 16);
    assert_eq!(game.state, GameState::Running);
    game.tick(601_000, 1);
    assert_eq!(game.state, GameState::End { win: true });
    let suns = game.suns.len();
    game.tick(700_000, 15_000);
    assert_eq!(game.suns.len(), suns);
    assert_eq!(game.elapsed, 601_000);
}

#[test]
fn the_game_can_be_ended_from_outside() {
    let mut game = Game::new();
    game.finish(false);
    assert_eq!(game.state, GameState::WaitForStart);
    game.start_clicked();
    game.finish(false);
    assert_eq!(game.state, GameState::End { win: false });
    game.finish(true);
    assert_eq!(game.state, GameState::End { win: false });
}

#[test]
fn a_long_game_keeps_its_books() {
    let mut game = Game::new();
    game.start_clicked();
    let mut now = 0u64;
    let mut seen = 0u64;
    for round in 0..5000u64 {
        now += 50;
        game.tick(now, 50);
        if game.state != GameState::Running {
            break;
        }
        // collect what there is, and plant where there is room
        while let Some(index) = game.suns.iter().position(|sun| sun.dying.is_none()) {
            assert!(game.click_sun(index));
        }
        let card = (round % 3) as usize;
        if game.click_card(card) {
            let tile = ((round / 3 % 4) as i32, (round / 12 % 5) as i32);
            let before = game.sun_count.0;
            let empty = game.garden.land.get(tile).is_none();
            let planted = game.click_field(centre(tile.0, tile.1));
            assert_eq!(planted.is_some(), empty);
            let price = game.toolbar.items[card].plant.price;
            assert_eq!(game.sun_count.0, if empty { before - price } else { before });
        }
        assert!(game.sun_count.0 >= 0);
        // every live plant is the occupant of its tile, and no tile has two
        for plant in &game.garden.plants {
            assert!(plant.player.health > 0);
            assert_eq!(game.garden.land.get(plant.common.tile), Some(plant.id));
        }
        let occupied = game.garden.land.tiles.values().filter(|plant| plant.is_some()).count();
        assert_eq!(occupied, game.garden.plants.len());
        // every zombie is in the record of its row, once
        let recorded: usize = game.horde.land.rows.iter().map(|row| row.len()).sum();
        assert_eq!(recorded, game.horde.zombies.len());
        for zombie in &game.horde.zombies {
            assert!(zombie.player.health > 0);
            let row = zombie.pos.to_tile().1 as usize;
            assert_eq!(game.horde.land.rows[row].iter().filter(|&&id| id == zombie.id).count(), 1);
        }
        seen = seen.max(game.horde.next_id);
    }
    assert!(seen > 0);
    assert!(now > 45_000);
}

#[test]
fn the_dead_and_the_dying_are_dropped() {
    let mut game = Game::new();
    game.start_clicked();
    spawn_zombie(&mut game.horde, ZombieType::Basic, 1, 0);
    spawn_zombie(&mut game.horde, ZombieType::Jumping, 1, 0);
    assert!(game.horde.hurt(0, 10000).is_some());
    dead_cleaner(&mut game.garden, &mut game.horde);
    assert_eq!(game.horde.zombies.len(), 1);
    assert_eq!(game.horde.zombies[0].id, 1);
    assert_eq!(game.horde.land.rows[1], vec![1]);
    let mut bullets = vec![
        Bullet { pos: centre(0, 0), velocity: 1, dying: Some(Dying) },
        Bullet { pos: centre(1, 0), velocity: 2, dying: None },
        Bullet { pos: centre(2, 0), velocity: 3, dying: Some(Dying) },
        Bullet { pos: centre(3, 0), velocity: 4, dying: None },
    ];
    let mut suns = vec![
        Sun { pos: centre(0, 0), move_up: true, dying: None },
        Sun { pos: centre(1, 0), move_up: false, dying: Some(Dying) },
    ];
    remove_dying(&mut bullets, &mut suns);
    assert_eq!(bullets.len(), 2);
    assert_eq!(bullets[0].velocity, 2);
    assert_eq!(bullets[1].velocity, 4);
    assert_eq!(suns.len(), 1);
    assert!(suns[0].move_up);
}
