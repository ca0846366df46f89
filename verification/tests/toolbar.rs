use plant_vs_zombies::land::{GridPos, WorldPos};
use plant_vs_zombies::plants::wallnut::Wallnut;
use plant_vs_zombies::plants::{Garden, PlantKind};
use plant_vs_zombies::timer::{Timer, TimerMode};
use plant_vs_zombies::toolbar::{
    setup_suncount, PlantAvailabilityState, PlantType, SunCount, Toolbar, INITIAL_SUNS,
};

fn shop(suns: i32) -> (Toolbar, SunCount) {
    let mut toolbar = Toolbar::setup();
    let balance = SunCount(suns);
    toolbar.sun_changed(&balance);
    (toolbar, balance)
}

#[test]
fn the_game_starts_with_fifty_suns() {
    assert_eq!(setup_suncount(), SunCount(50));
    assert_eq!(INITIAL_SUNS, 50);
}

#[test]
fn available_needs_both_the_cooldown_and_the_suns() {
    for cooldown_finished in [false, true] {
        for sun_enough in [false, true] {
            let state = PlantAvailabilityState { cooldown_finished, sun_enough };
            assert_eq!(state.available(), cooldown_finished && sun_enough);
        }
    }
}

#[test]
fn the_toolbar_has_three_cards() {
    let toolbar = Toolbar::setup();
    assert_eq!(toolbar.armed, None);
    assert_eq!(toolbar.items.len(), 3);
    let expected = [(50, 5000, PlantType::Sunflower), (100, 10000, PlantType::Peashooter), (50, 5000, PlantType::Wallnut)];
    for (item, (price, cooldown, kind)) in toolbar.items.iter().zip(expected) {
        assert_eq!(item.plant.price, price);
        assert_eq!(item.kind, kind);
        assert_eq!(
            item.plant.cooldown,
            Timer { duration: cooldown, elapsed: cooldown, mode: TimerMode::Once, finished: false }
        );
        assert_eq!(item.availability, PlantAvailabilityState { cooldown_finished: true, sun_enough: false });
        assert!(!item.availability.available());
    }
}

#[test]
fn a_card_is_added_at_the_right() {
    let mut toolbar = Toolbar::new();
    assert!(toolbar.items.is_empty());
    toolbar.add_toolbar_item(25, 3, PlantType::Wallnut);
    toolbar.add_toolbar_item(75, 0, PlantType::Sunflower);
    assert_eq!(toolbar.items.len(), 2);
    assert_eq!(toolbar.items[0].plant.price, 25);
    assert_eq!(toolbar.items[0].plant.cooldown.duration, 3000);
    assert_eq!(toolbar.items[1].plant.price, 75);
    assert_eq!(toolbar.items[1].plant.cooldown.duration, 0);
    assert_eq!(toolbar.items[1].kind, PlantType::Sunflower);
    let mut big = Toolbar::new();
    big.add_toolbar_item(i32::MAX, u32::MAX, PlantType::Peashooter);
    assert_eq!(big.items[0].plant.cooldown.duration, 4_294_967_295_000);
}

#[test]
fn the_cards_follow_the_balance() {
    let (mut toolbar, _) = shop(50);
    assert!(toolbar.items[0].availability.sun_enough);
    assert!(!toolbar.items[1].availability.sun_enough);
    assert!(toolbar.items[2].availability.sun_enough);
    toolbar.sun_changed(&SunCount(49));
    assert!(toolbar.items.iter().all(|item| !item.availability.sun_enough));
    toolbar.sun_changed(&SunCount(100));
    assert!(toolbar.items.iter().all(|item| item.availability.available()));
}

#[test]
fn the_cooldown_runs_down() {
    let (mut toolbar, _) = shop(500);
    toolbar.items[0].plant.cooldown.reset();
    toolbar.items[1].plant.cooldown.reset();
    toolbar.update_cooldown_secs(4999);
    assert!(!toolbar.items[0].availability.cooldown_finished);
    assert!(!toolbar.items[1].availability.cooldown_finished);
    assert!(toolbar.items[2].availability.cooldown_finished);
    assert_eq!(toolbar.items[0].plant.cooldown.remaining(), 1);
    assert_eq!(toolbar.items[1].plant.cooldown.remaining(), 5001);
    toolbar.update_cooldown_secs(1);
    assert!(toolbar.items[0].availability.cooldown_finished);
    assert!(!toolbar.items[1].availability.cooldown_finished);
    toolbar.update_cooldown_secs(5000);
    assert!(toolbar.items.iter().all(|item| item.availability.available()));
    assert_eq!(toolbar.items[1].plant.cooldown.remaining(), 0);
}

#[test]
fn a_click_on_a_card_that_is_not_available_is_ignored() {
    let (mut toolbar, _) = shop(50);
    assert!(!toolbar.arm(1));
    assert_eq!(toolbar.armed, None);
    toolbar.items[0].availability.cooldown_finished = false;
    assert!(!toolbar.arm(0));
    assert_eq!(toolbar.armed, None);
    assert!(toolbar.arm(2));
    assert_eq!(toolbar.armed, Some(2));
    // a card is held: no other is taken up
    toolbar.items[0].availability.cooldown_finished = true;
    assert!(!toolbar.arm(0));
    assert_eq!(toolbar.armed, Some(2));
}

#[test]
fn placement_on_an_empty_tile() {
    let (mut toolbar, mut balance) = shop(175);
    let mut garden = Garden::new();
    assert!(toolbar.arm(1));
    let click = WorldPos { x: WorldPos::tile_centre((3, 1)).x + 9000, y: WorldPos::tile_centre((3, 1)).y - 14000 };
    assert_eq!(toolbar.place(&mut garden, &mut balance, click, 777), Some(0));
    assert_eq!(balance, SunCount(75));
    assert_eq!(toolbar.armed, None);
    assert_eq!(garden.plants.len(), 1);
    assert_eq!(garden.plants[0].id, 0);
    assert_eq!(garden.plants[0].common.tile, (3, 1));
    assert_eq!(garden.plants[0].player.name, "Peashooter");
    assert_eq!(garden.plants[0].player.health, 10000);
    assert_eq!(garden.plants[0].player.spawned_time, 777);
    assert!(matches!(garden.plants[0].kind, PlantKind::Peashooter(_)));
    // exactly that tile is occupied
    let occupied: Vec<(i32, i32)> =
        garden.land.tiles.iter().filter(|(_, plant)| plant.is_some()).map(|(tile, _)| *tile).collect();
    assert_eq!(occupied, vec![(3, 1)]);
    assert_eq!(garden.land.get((3, 1)), Some(0));
    // the cooldown of the card starts over, and the cards know the new balance
    assert_eq!(
        toolbar.items[1].plant.cooldown,
        Timer { duration: 10000, elapsed: 0, mode: TimerMode::Once, finished: false }
    );
    assert_eq!(toolbar.items[1].availability, PlantAvailabilityState { cooldown_finished: false, sun_enough: false });
    assert_eq!(toolbar.items[0].availability, PlantAvailabilityState { cooldown_finished: true, sun_enough: true });
    assert_eq!(toolbar.items[2].availability, PlantAvailabilityState { cooldown_finished: true, sun_enough: true });
    assert!(!toolbar.arm(1));
}

#[test]
fn placement_on_an_occupied_tile() {
    let (mut toolbar, mut balance) = shop(50);
    let mut garden = Garden::new();
    assert_eq!(Wallnut::create(GridPos::new(3, 1), &mut garden, 0), Ok(0));
    assert!(toolbar.arm(0));
    let before = toolbar.items.clone();
    assert_eq!(toolbar.place(&mut garden, &mut balance, WorldPos::tile_centre((3, 1)), 5), None);
    // neither the balance nor the lawn has changed; the card is laid down
    assert_eq!(balance, SunCount(50));
    assert_eq!(garden.plants.len(), 1);
    assert_eq!(garden.plants[0].player.name, "Wallnut");
    assert_eq!(garden.land.get((3, 1)), Some(0));
    assert_eq!(garden.next_id, 1);
    assert_eq!(toolbar.armed, None);
    for (item, old) in toolbar.items.iter().zip(before) {
        assert_eq!(item.plant.cooldown, old.plant.cooldown);
        assert_eq!(item.availability, old.availability);
    }
    // the card can be taken up again at once
    assert!(toolbar.arm(0));
    assert_eq!(toolbar.place(&mut garden, &mut balance, WorldPos::tile_centre((4, 1)), 6), Some(1));
    assert_eq!(balance, SunCount(0));
    assert!(matches!(garden.plants[1].kind, PlantKind::Sunflower(_)));
}

#[test]
fn each_card_plants_its_own_kind() {
    let (mut toolbar, mut balance) = shop(1000);
    let mut garden = Garden::new();
    let expected = [("Sunflower", 10000, 50), ("Peashooter", 10000, 100), ("Wallnut", 25000, 50)];
    let mut suns = 1000;
    for (card, (name, health, price)) in expected.into_iter().enumerate() {
        assert!(toolbar.arm(card));
        let planted = toolbar.place(&mut garden, &mut balance, WorldPos::tile_centre((card as i32, 0)), 0);
        assert_eq!(planted, Some(card as u64));
        suns -= price;
        assert_eq!(balance, SunCount(suns));
        assert_eq!(garden.plants[card].player.name, name);
        assert_eq!(garden.plants[card].player.health, health);
    }
}
