use plant_vs_zombies::player::{DieEvent, Dying, PlayerCommon, DEFAULT_HEALTH, HEALTH_SCALE};

#[test]
fn a_new_combatant_is_alive_and_in_full_health() {
    let player = PlayerCommon::new("Peashooter", 10000, 42);
    assert_eq!(player.name, "Peashooter");
    assert_eq!(player.health, 10000);
    assert_eq!(player.spawned_time, 42);
    assert_eq!(player.dying, None);
}

#[test]
fn the_default_combatant_has_a_hundred_points() {
    let player = PlayerCommon::default();
    assert_eq!(player.name, "Default");
    assert_eq!(player.health, DEFAULT_HEALTH);
    assert_eq!(player.health, 100 * HEALTH_SCALE);
    assert_eq!(player.dying, None);
}

#[test]
fn damage_adds_up() {
    let mut player = PlayerCommon::new("Wallnut", 25000, 0);
    let amounts = [1000u32, 16, 0, 5000, 33, 7];
    let mut sum = 0i64;
    for amount in amounts {
        assert_eq!(player.damage(amount), None);
        sum += amount as i64;
        assert_eq!(player.health, 25000 - sum);
        assert_eq!(player.dying, None);
    }
    assert_eq!(player.health, 25000 - 6056);
}

#[test]
fn the_blow_that_reaches_zero_kills() {
    let mut player = PlayerCommon::new("BasicZombie", 10000, 0);
    assert_eq!(player.damage(9999), None);
    assert_eq!(player.dying, None);
    assert_eq!(player.damage(1), Some(DieEvent));
    assert_eq!(player.health, 0);
    assert_eq!(player.dying, Some(Dying));
}

#[test]
fn the_die_event_is_raised_once() {
    let mut player = PlayerCommon::new("BasicZombie", 10000, 0);
    assert_eq!(player.damage(4000), None);
    assert_eq!(player.damage(7000), Some(DieEvent));
    assert_eq!(player.health, -1000);
    assert_eq!(player.damage(500), None);
    assert_eq!(player.health, -1500);
    assert_eq!(player.dying, Some(Dying));
    assert_eq!(player.damage(0), None);
    assert_eq!(player.health, -1500);
    assert_eq!(player.dying, Some(Dying));
}

#[test]
fn a_combatant_is_dying_exactly_when_the_running_sum_reached_its_health() {
    for amounts in [vec![10u32, 20, 30], vec![59, 1], vec![60], vec![100, 0, 0], vec![0, 0], vec![30, 29]] {
        let mut player = PlayerCommon::new("x", 60, 0);
        let mut sum = 0i64;
        let mut reached = false;
        let mut events = 0;
        for amount in amounts {
            if player.damage(amount).is_some() {
                events += 1;
            }
            sum += amount as i64;
            reached = reached || sum >= 60;
            assert_eq!(player.health, 60 - sum);
            assert_eq!(player.dying.is_some(), reached);
        }
        assert_eq!(events, if reached { 1 } else { 0 });
    }
}
