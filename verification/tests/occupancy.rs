use plant_vs_zombies::land::{GridPos, LandPlants, OccupancyError};
use plant_vs_zombies::plants::peashooter::Peashooter;
use plant_vs_zombies::plants::sunflower::Sunflower;
use plant_vs_zombies::plants::wallnut::Wallnut;
use plant_vs_zombies::plants::{Garden, PlantKind};

#[test]
fn a_fresh_index_has_every_tile_of_the_land_and_all_are_empty() {
    let land = LandPlants::default();
    assert_eq!(land.tiles.len(), 45);
    for x in 0..9 {
        for y in 0..5 {
            assert_eq!(land.tiles.get(&(x, y)), Some(&None));
            assert!(land.is_empty(GridPos::new(x, y)));
            assert_eq!(land.get((x, y)), None);
        }
    }
    assert_eq!(land.tiles.get(&(9, 0)), None);
    assert!(land.is_empty(GridPos::new(9, 0)));
    assert!(land.is_empty(GridPos::new(-3, 17)));
}

#[test]
fn add_stores_the_plant_on_the_nearest_tile() {
    let mut land = LandPlants::default();
    assert_eq!(land.add(GridPos { x: 2 * 24000 + 11000, y: 30000 - 14000 }, 7), Ok(()));
    assert_eq!(land.get((2, 1)), Some(7));
    assert!(!land.is_empty(GridPos::new(2, 1)));
    assert!(!land.is_empty(GridPos { x: 2 * 24000 - 11999, y: 30000 + 14999 }));
    assert!(land.is_empty(GridPos::new(3, 1)));
    assert!(land.is_empty(GridPos::new(2, 0)));
    assert_eq!(land.tiles.len(), 45);
}

#[test]
fn add_on_an_occupied_tile_is_reported_and_stored() {
    let mut land = LandPlants::default();
    assert_eq!(land.add(GridPos::new(4, 4), 1), Ok(()));
    assert_eq!(land.add(GridPos::new(4, 4), 2), Err(OccupancyError::TileOccupied));
    assert_eq!(land.get((4, 4)), Some(2));
}

#[test]
fn remove_clears_the_tile() {
    let mut land = LandPlants::default();
    assert_eq!(land.add(GridPos::new(0, 3), 9), Ok(()));
    assert_eq!(land.remove(GridPos::new(0, 3)), Ok(()));
    assert_eq!(land.get((0, 3)), None);
    assert!(land.is_empty(GridPos::new(0, 3)));
    assert_eq!(land.tiles.get(&(0, 3)), Some(&None));
}

#[test]
fn remove_from_an_empty_tile_is_reported() {
    let mut land = LandPlants::default();
    assert_eq!(land.remove(GridPos::new(1, 1)), Err(OccupancyError::TileEmpty));
    assert_eq!(land.remove(GridPos::new(20, 20)), Err(OccupancyError::TileEmpty));
    assert!(land.is_empty(GridPos::new(20, 20)));
    assert_eq!(land.tiles.get(&(20, 20)), Some(&None));
}

#[test]
fn a_tile_outside_the_land_can_be_planted() {
    let mut land = LandPlants::default();
    assert_eq!(land.add(GridPos::new(-2, 9), 5), Ok(()));
    assert_eq!(land.get((-2, 9)), Some(5));
    assert_eq!(land.tiles.len(), 46);
}

#[test]
fn planting_enters_the_plant_in_the_index() {
    let mut garden = Garden::new();
    assert_eq!(Peashooter::create(GridPos::new(1, 2), &mut garden, 17), Ok(0));
    assert_eq!(Sunflower::create(GridPos::new(0, 2), &mut garden, 18), Ok(1));
    assert_eq!(Wallnut::create(GridPos::new(2, 2), &mut garden, 19), Ok(2));
    assert_eq!(garden.plants.len(), 3);
    assert_eq!(garden.next_id, 3);
    assert_eq!(garden.land.get((1, 2)), Some(0));
    assert_eq!(garden.land.get((0, 2)), Some(1));
    assert_eq!(garden.land.get((2, 2)), Some(2));
    assert_eq!(garden.plants[0].player.name, "Peashooter");
    assert_eq!(garden.plants[0].player.health, 10000);
    assert_eq!(garden.plants[0].player.spawned_time, 17);
    assert_eq!(garden.plants[0].common.tile, (1, 2));
    assert!(matches!(garden.plants[0].kind, PlantKind::Peashooter(p) if p.shoot_timer.duration == 2000));
    assert_eq!(garden.plants[1].player.name, "Sunflower");
    assert_eq!(garden.plants[1].player.health, 10000);
    assert!(matches!(garden.plants[1].kind, PlantKind::Sunflower(s) if s.produce_timer.duration == 15000));
    assert_eq!(garden.plants[2].player.name, "Wallnut");
    assert_eq!(garden.plants[2].player.health, 25000);
    assert!(matches!(garden.plants[2].kind, PlantKind::Wallnut(_)));
    assert_eq!(garden.find(2), Some(2));
    assert_eq!(garden.find(3), None);
}

#[test]
fn no_tile_ever_has_two_plants() {
    let mut garden = Garden::new();
    assert_eq!(Wallnut::create(GridPos::new(3, 3), &mut garden, 0), Ok(0));
    assert_eq!(
        Peashooter::create(GridPos { x: 3 * 24000 + 5, y: 3 * 30000 - 5 }, &mut garden, 0),
        Err(OccupancyError::TileOccupied)
    );
    assert_eq!(Sunflower::create(GridPos::new(3, 3), &mut garden, 0), Err(OccupancyError::TileOccupied));
    assert_eq!(garden.plants.len(), 1);
    assert_eq!(garden.next_id, 1);
    assert_eq!(garden.land.get((3, 3)), Some(0));
    // the plant dies: the tile is free at once, the record stays until the dead are cleared
    assert!(garden.hurt(0, 25000).is_some());
    assert_eq!(garden.land.get((3, 3)), None);
    assert_eq!(garden.plants.len(), 1);
    assert!(garden.plants[0].player.dying.is_some());
    assert_eq!(Sunflower::create(GridPos::new(3, 3), &mut garden, 5), Ok(1));
    assert_eq!(garden.land.get((3, 3)), Some(1));
    let alive_on_tile = garden
        .plants
        .iter()
        .filter(|plant| plant.player.dying.is_none() && plant.common.tile == (3, 3))
        .count();
    assert_eq!(alive_on_tile, 1);
    garden.clear_dead();
    assert_eq!(garden.plants.len(), 1);
    assert_eq!(garden.plants[0].id, 1);
    assert_eq!(garden.land.get((3, 3)), Some(1));
}

#[test]
fn a_blow_that_does_not_kill_leaves_the_index_alone() {
    let mut garden = Garden::new();
    assert_eq!(Wallnut::create(GridPos::new(0, 0), &mut garden, 0), Ok(0));
    assert!(garden.hurt(0, 24999).is_none());
    assert_eq!(garden.plants[0].player.health, 1);
    assert_eq!(garden.land.get((0, 0)), Some(0));
    assert!(garden.bite(0, 1).is_some());
    assert_eq!(garden.plants[0].player.health, 0);
    assert_eq!(garden.land.get((0, 0)), None);
}
