use plant_vs_zombies::land::WorldPos;
use plant_vs_zombies::timer::{Timer, TimerMode};
use plant_vs_zombies::zombies::create_zombie::{
    create_zombie_randomly, next_interval, setup, spawn_zombie, unlocked_zombies, INITIAL_INTERVAL,
    MINIMUM_INTERVAL, SPAWN_COLUMN, WARM_UP_SECONDS, WIN_SECONDS,
};
use plant_vs_zombies::zombies::{Horde, ZombieState, ZombieType};
use plant_vs_zombies::GameState;

#[test]
fn the_scheduler_starts_at_ten_seconds() {
    assert_eq!(
        setup().timer,
        Timer { duration: 10000, elapsed: 0, mode: TimerMode::Repeating, finished: false }
    );
    assert_eq!(INITIAL_INTERVAL, 10000);
    assert_eq!(MINIMUM_INTERVAL, 1000);
    assert_eq!(WARM_UP_SECONDS, 45);
    assert_eq!(WIN_SECONDS, 600);
    assert_eq!(SPAWN_COLUMN, 11);
}

#[test]
fn the_interval_follows_the_ramp() {
    // 10 s / (t / 50 s + 1) ^ 0.3, in whole hundredths of a second
    assert_eq!(next_interval(0), 10000);
    assert_eq!(next_interval(999), 10000);
    assert_eq!(next_interval(1000), 9940);
    assert_eq!(next_interval(45000), 8240);
    assert_eq!(next_interval(50000), 8120);
    assert_eq!(next_interval(100000), 7190);
    assert_eq!(next_interval(600000), 4630);
    assert_eq!(next_interval(3600000), 2760);
}

#[test]
fn the_interval_stops_at_the_minimum() {
    assert_eq!(next_interval(107_672_000), 1000);
    assert_eq!(next_interval(200_000_000), 1000);
    assert_eq!(next_interval(1_048_575_999), 1000);
    assert_eq!(next_interval(1_048_576_000), 1000);
    assert_eq!(next_interval(u64::MAX), 1000);
}

#[test]
fn spawn_ramp() {
    let mut last = next_interval(0);
    let mut elapsed = 0u64;
    while elapsed < 800_000 {
        elapsed += 777;
        let interval = next_interval(elapsed);
        assert!(interval <= last);
        assert!(interval >= MINIMUM_INTERVAL);
        assert!(interval <= INITIAL_INTERVAL);
        last = interval;
    }
    let mut last = next_interval(45_000);
    for step in 0..64 {
        let interval = next_interval(45_000u64 << step.min(40));
        assert!(interval <= last);
        assert!(interval >= MINIMUM_INTERVAL);
        last = interval;
    }
    assert_eq!(last, MINIMUM_INTERVAL);
}

#[test]
fn the_scheduler_picks_from_three_kinds() {
    assert_eq!(unlocked_zombies(), vec![ZombieType::Basic, ZombieType::Conehead, ZombieType::Jumping]);
}

#[test]
fn a_scheduled_zombie_appears_right_of_the_land() {
    let mut horde = Horde::new();
    assert_eq!(spawn_zombie(&mut horde, ZombieType::Basic, 0, 100), 0);
    assert_eq!(spawn_zombie(&mut horde, ZombieType::Conehead, 4, 200), 1);
    assert_eq!(spawn_zombie(&mut horde, ZombieType::Jumping, 4, 300), 2);
    assert_eq!(horde.zombies[0].pos, WorldPos { x: 11 * 24000 - 100500, y: -67500 });
    assert_eq!(horde.zombies[1].pos, WorldPos::tile_centre((11, 4)));
    assert_eq!(horde.zombies[2].pos, WorldPos::tile_centre((11, 4)));
    assert_eq!(horde.zombies[0].player.name, "BasicZombie");
    assert_eq!(horde.zombies[1].player.name, "Conehead Zombie");
    assert_eq!(horde.zombies[2].player.name, "Jumping Zombie");
    assert_eq!(horde.zombies[0].player.health, 10000);
    assert_eq!(horde.zombies[1].player.health, 20000);
    assert_eq!(horde.zombies[2].player.health, 10000);
    assert_eq!(horde.zombies[1].player.spawned_time, 200);
    assert_eq!(horde.zombies[2].kind, ZombieType::Jumping);
    assert_eq!(horde.land.rows[0], vec![0]);
    assert_eq!(horde.land.rows[4], vec![1, 2]);
    assert!(!horde.zombies[0].pos.in_land());
}

#[test]
fn no_zombie_comes_during_the_warm_up() {
    let mut horde = Horde::new();
    let mut timer = setup();
    let mut state = GameState::Running;
    create_zombie_randomly(&mut horde, &mut timer, &mut state, 44_999, 44_999);
    assert!(horde.zombies.is_empty());
    assert_eq!(timer.timer, setup().timer);
    assert_eq!(state, GameState::Running);
    create_zombie_randomly(&mut horde, &mut timer, &mut state, 45_000, 1);
    assert!(horde.zombies.is_empty());
    assert_eq!(timer.timer.elapsed, 1);
    assert_eq!(timer.timer.duration, 10000);
}

#[test]
fn a_zombie_comes_when_the_time_is_up() {
    let mut horde = Horde::new();
    let mut timer = setup();
    let mut state = GameState::Running;
    create_zombie_randomly(&mut horde, &mut timer, &mut state, 45_000, 9_999);
    assert!(horde.zombies.is_empty());
    create_zombie_randomly(&mut horde, &mut timer, &mut state, 45_001, 3);
    assert_eq!(horde.zombies.len(), 1);
    assert_eq!(timer.timer, Timer { duration: 8240, elapsed: 2, mode: TimerMode::Repeating, finished: true });
    assert_eq!(state, GameState::Running);
    create_zombie_randomly(&mut horde, &mut timer, &mut state, 50_000, 8_237);
    assert_eq!(horde.zombies.len(), 1);
    assert_eq!(timer.timer, Timer { duration: 8240, elapsed: 8239, mode: TimerMode::Repeating, finished: false });
    create_zombie_randomly(&mut horde, &mut timer, &mut state, 100_000, 1);
    assert_eq!(horde.zombies.len(), 2);
    assert_eq!(timer.timer, Timer { duration: 7190, elapsed: 0, mode: TimerMode::Repeating, finished: true });
}

#[test]
fn random_zombies_are_of_the_three_kinds_and_in_the_five_rows() {
    let mut horde = Horde::new();
    let mut timer = setup();
    let mut state = GameState::Running;
    let mut kinds = [0usize; 3];
    let mut rows = [0usize; 5];
    for round in 0..400u64 {
        create_zombie_randomly(&mut horde, &mut timer, &mut state, 45_000 + round, 10_000);
        assert_eq!(horde.zombies.len() as u64, round + 1);
        let zombie = horde.zombies[round as usize];
        assert_eq!(zombie.id, round);
        assert_eq!(zombie.player.spawned_time, 45_000 + round);
        assert_eq!(zombie.player.dying, None);
        assert_eq!(zombie.common.state, ZombieState::Walking);
        let tile = zombie.pos.to_tile();
        assert_eq!(tile.0, 11);
        assert!(0 <= tile.1 && tile.1 < 5);
        assert_eq!(zombie.pos, WorldPos::tile_centre(tile));
        assert_eq!(horde.land.rows[tile.1 as usize].last(), Some(&round));
        rows[tile.1 as usize] += 1;
        match zombie.kind {
            ZombieType::Basic => {
                assert_eq!(zombie.player.name, "BasicZombie");
                assert_eq!(zombie.player.health, 10000);
                kinds[0] += 1;
            }
            ZombieType::Conehead => {
                assert_eq!(zombie.player.name, "Conehead Zombie");
                assert_eq!(zombie.player.health, 20000);
                kinds[1] += 1;
            }
            ZombieType::Jumping => {
                assert_eq!(zombie.player.name, "Jumping Zombie");
                assert_eq!(zombie.player.health, 10000);
                kinds[2] += 1;
            }
        }
    }
    assert!(kinds.iter().all(|&count| count > 0));
    assert!(rows.iter().all(|&count| count > 0));
    assert_eq!(rows.iter().sum::<usize>(), 400);
}

#[test]
fn the_game_is_won_after_ten_minutes() {
    let mut horde = Horde::new();
    let mut timer = setup();
    let mut state = GameState::Running;
    create_zombie_randomly(&mut horde, &mut timer, &mut state, 600_999, 16);
    assert_eq!(state, GameState::Running);
    create_zombie_randomly(&mut horde, &mut timer, &mut state, 601_000, 16);
    assert_eq!(state, GameState::End { win: true });
    assert_eq!(timer.timer.elapsed, 32);
}

#[test]
fn a_game_that_has_ended_stays_as_it_ended() {
    let mut horde = Horde::new();
    let mut timer = setup();
    let mut state = GameState::End { win: false };
    create_zombie_randomly(&mut horde, &mut timer, &mut state, 700_000, 16);
    assert_eq!(state, GameState::End { win: false });
    let mut waiting = GameState::WaitForStart;
    create_zombie_randomly(&mut horde, &mut timer, &mut waiting, 700_000, 16);
    assert_eq!(waiting, GameState::End { win: true });
}

#[test]
fn the_ramp_is_the_power_curve() {
    // ten seconds over (t / 50 + 1) to the power of 0.3, cut to hundredths of a second
    for seconds in 0..3000u64 {
        let curve = 1000.0 / (seconds as f64 / 50.0 + 1.0).powf(0.3);
        let interval = next_interval(seconds * 1000 + seconds % 1000);
        assert_eq!(interval % 10, 0);
        let hundredths = (interval / 10) as f64;
        assert!(hundredths <= curve + 1e-6);
        assert!(hundredths + 1.0 > curve - 1e-6);
    }
}
