//! The toolbar: the balance of suns, the cards of the plants that can be
//! bought, and the two clicks that put a plant on the lawn.

use crate::land::{lemma_tile_round_trip, GridPos, WorldPos};
use crate::plants::peashooter::{Peashooter, PEASHOOTER_HEALTH, SHOOT_INTERVAL};
use crate::plants::sunflower::{Sunflower, PRODUCE_INTERVAL, SUNFLOWER_HEALTH};
use crate::plants::wallnut::{Wallnut, WALLNUT_HEALTH};
use crate::plants::{Garden, Plant, PlantCommon, PlantKind};
use crate::player::PlayerCommon;
use crate::timer::{Timer, TimerMode};
use vstd::prelude::*;

verus! {

/// The balance at the start of a game.
pub const INITIAL_SUNS: i32 = 50;

/// How many suns the player has: the money that plants are bought with.
#[derive(Clone, Copy, Debug, PartialEq, Eq, Structural)]
pub struct SunCount(pub i32);

/// The balance at the start of a game.
pub fn setup_suncount() -> (count: SunCount)
    ensures
        count.0 == INITIAL_SUNS,
{
    SunCount(INITIAL_SUNS)
}

/// The plants that the toolbar sells.
#[derive(Clone, Copy, Debug, PartialEq, Eq, Structural)]
pub enum PlantType {
    Sunflower,
    Peashooter,
    Wallnut,
}

/// A card of the toolbar: what its plant costs, and the time that has to
/// pass before the card can be used again.
#[derive(Clone, Copy, Debug)]
pub struct ToolbarPlant {
    pub price: i32,
    pub cooldown: Timer,
}

/// Whether a card can be used.
///
/// A plant is available when:
/// - Cooldown timer is finished
/// - You have enough suns
#[derive(Clone, Copy, Debug, PartialEq, Eq, Structural)]
pub struct PlantAvailabilityState {
    pub cooldown_finished: bool,
    pub sun_enough: bool,
}

impl PlantAvailabilityState {
    /// Whether the card can be used.
    pub fn available(&self) -> (usable: bool)
        ensures
            usable == (self.cooldown_finished && self.sun_enough),
    {
        self.cooldown_finished && self.sun_enough
    }
}

/// A card with all that belongs to it.
#[derive(Clone, Copy, Debug)]
pub struct ToolbarItem {
    pub plant: ToolbarPlant,
    pub availability: PlantAvailabilityState,
    pub kind: PlantType,
}

/// The cards, and the one that the player holds.
///
/// A first click, on a card that is available, takes the card up: the
/// toolbar is armed. The next click, wherever it falls, tries to put the
/// plant there and lays the card down again.
pub struct Toolbar {
    pub items: Vec<ToolbarItem>,
    /// The card that the player holds, if any.
    pub armed: Option<usize>,
}

/// A card as it is put on the toolbar: its cooldown has run out already, and
/// whether the suns are enough is not known yet.
pub open spec fn fresh_item(price: i32, cooldown_time: u32, kind: PlantType) -> ToolbarItem {
    ToolbarItem {
        plant: ToolbarPlant {
            price,
            cooldown: Timer {
                duration: (cooldown_time * 1000) as u64,
                elapsed: (cooldown_time * 1000) as u64,
                mode: TimerMode::Once,
                finished: false,
            },
        },
        availability: PlantAvailabilityState { cooldown_finished: true, sun_enough: false },
        kind,
    }
}

/// A card after the balance changed to `suns`.
pub open spec fn repriced(item: ToolbarItem, suns: i32) -> ToolbarItem {
    ToolbarItem {
        availability: PlantAvailabilityState { sun_enough: suns >= item.plant.price, ..item.availability },
        ..item
    }
}

/// A card after a tick of `delta` milliseconds: the cooldown is moved on,
/// and the card knows whether it has run out.
pub open spec fn cooled(item: ToolbarItem, delta: u32) -> ToolbarItem {
    ToolbarItem {
        plant: ToolbarPlant { cooldown: item.plant.cooldown.ticked(delta), ..item.plant },
        availability: PlantAvailabilityState {
            cooldown_finished: item.plant.cooldown.ticked(delta).finished,
            ..item.availability
        },
        ..item
    }
}

/// A card after its plant was bought, with `suns` left: the cooldown starts
/// over.
pub open spec fn spent(item: ToolbarItem, suns: i32) -> ToolbarItem {
    ToolbarItem {
        plant: ToolbarPlant {
            cooldown: Timer { elapsed: 0, finished: false, ..item.plant.cooldown },
            ..item.plant
        },
        availability: PlantAvailabilityState {
            cooldown_finished: false,
            sun_enough: suns >= item.plant.price,
        },
        ..item
    }
}

/// The plant that a card of a kind puts on a tile at the time `now`.
pub open spec fn seedling(kind: PlantType, tile: (i32, i32), id: u64, now: u64) -> Plant {
    Plant {
        id,
        player: PlayerCommon {
            name: match kind {
                PlantType::Sunflower => "Sunflower",
                PlantType::Peashooter => "Peashooter",
                PlantType::Wallnut => "Wallnut",
            },
            health: match kind {
                PlantType::Sunflower => SUNFLOWER_HEALTH,
                PlantType::Peashooter => PEASHOOTER_HEALTH,
                PlantType::Wallnut => WALLNUT_HEALTH,
            },
            spawned_time: now,
            dying: None,
        },
        common: PlantCommon { tile },
        kind: match kind {
            PlantType::Sunflower => PlantKind::Sunflower(
                Sunflower {
                    produce_timer: Timer {
                        duration: PRODUCE_INTERVAL,
                        elapsed: 0,
                        mode: TimerMode::Repeating,
                        finished: false,
                    },
                },
            ),
            PlantType::Peashooter => PlantKind::Peashooter(
                Peashooter {
                    shoot_timer: Timer {
                        duration: SHOOT_INTERVAL,
                        elapsed: 0,
                        mode: TimerMode::Repeating,
                        finished: false,
                    },
                },
            ),
            PlantType::Wallnut => PlantKind::Wallnut(Wallnut),
        },
    }
}

impl Toolbar {
    /// The card that is held, if any, is one of the cards.
    pub open spec fn wf(self) -> bool {
        self.armed is Some ==> self.armed.unwrap() < self.items.len()
    }

    /// Whether every card knows whether `suns` are enough for it.
    pub open spec fn priced(self, suns: i32) -> bool {
        forall|i: int|
            0 <= i < self.items.len() ==> (#[trigger] self.items[i]).availability.sun_enough == (suns
                >= self.items[i].plant.price)
    }

    /// A toolbar without cards.
    pub fn new() -> (toolbar: Toolbar)
        ensures
            toolbar.items@.len() == 0,
            toolbar.armed is None,
    {
        Toolbar { items: Vec::new(), armed: None }
    }

    /// The toolbar of the game: a sunflower for 50 suns that can be bought
    /// every 5 seconds, a peashooter for 100 every 10 seconds, and a
    /// wall-nut for 50 every 5 seconds.
    pub fn setup() -> (toolbar: Toolbar)
        ensures
            toolbar.armed is None,
            toolbar.items@ == seq![
                fresh_item(50, 5, PlantType::Sunflower),
                fresh_item(100, 10, PlantType::Peashooter),
                fresh_item(50, 5, PlantType::Wallnut),
            ],
    {
        let mut toolbar = Toolbar::new();
        toolbar.add_toolbar_item(50, 5, PlantType::Sunflower);
        toolbar.add_toolbar_item(100, 10, PlantType::Peashooter);
        toolbar.add_toolbar_item(50, 5, PlantType::Wallnut);
        assert(toolbar.items@ =~= seq![
            fresh_item(50, 5, PlantType::Sunflower),
            fresh_item(100, 10, PlantType::Peashooter),
            fresh_item(50, 5, PlantType::Wallnut),
        ]);
        toolbar
    }

    /// Puts a card on the toolbar, to the right of those that are there.
    /// `cooldown_time` is in seconds.
    pub fn add_toolbar_item(&mut self, price: i32, cooldown_time: u32, kind: PlantType)
        ensures
            final(self).items@ == old(self).items@.push(fresh_item(price, cooldown_time, kind)),
            final(self).armed == old(self).armed,
    {
        let duration: u64 = (cooldown_time as u64) * 1000;
        let mut cooldown = Timer::new(duration, TimerMode::Once);
        cooldown.set_elapsed(duration);
        self.items.push(
            ToolbarItem {
                plant: ToolbarPlant { price, cooldown },
                availability: PlantAvailabilityState { cooldown_finished: true, sun_enough: false },
                kind,
            },
        );
    }

    /// Tells every card whether the balance is enough for it.
    pub fn sun_changed(&mut self, sun_count: &SunCount)
        ensures
            final(self).items@.len() == old(self).items@.len(),
            forall|i: int|
                0 <= i < old(self).items@.len() ==> #[trigger] final(self).items[i] == repriced(
                    old(self).items[i],
                    sun_count.0,
                ),
            final(self).armed == old(self).armed,
            final(self).priced(sun_count.0),
    {
        let current_suns = sun_count.0;
        let count = self.items.len();
        let mut i: usize = 0;
        while i < count
            invariant
                i <= count,
                count == self.items.len(),
                count == old(self).items.len(),
                current_suns == sun_count.0,
                forall|k: int|
                    0 <= k < i ==> #[trigger] self.items[k] == repriced(old(self).items[k], current_suns),
                forall|k: int| i <= k < count ==> self.items[k] == old(self).items[k],
                self.armed == old(self).armed,
            decreases count - i,
        {
            let mut item = self.items[i];
            item.availability.sun_enough = current_suns >= item.plant.price;
            self.items.set(i, item);
            i = i + 1;
        }
    }

    /// Moves the cooldown of every card on.
    pub fn update_cooldown_secs(&mut self, delta: u32)
        ensures
            final(self).items@.len() == old(self).items@.len(),
            forall|i: int|
                0 <= i < old(self).items@.len() ==> #[trigger] final(self).items[i] == cooled(
                    old(self).items[i],
                    delta,
                ),
            final(self).armed == old(self).armed,
    {
        let count = self.items.len();
        let mut i: usize = 0;
        while i < count
            invariant
                i <= count,
                count == self.items.len(),
                count == old(self).items.len(),
                forall|k: int| 0 <= k < i ==> #[trigger] self.items[k] == cooled(old(self).items[k], delta),
                forall|k: int| i <= k < count ==> self.items[k] == old(self).items[k],
                self.armed == old(self).armed,
            decreases count - i,
        {
            let mut item = self.items[i];
            item.plant.cooldown.tick(delta);
            item.availability.cooldown_finished = item.plant.cooldown.finished();
            self.items.set(i, item);
            i = i + 1;
        }
    }

    /// The first click, on the card `index`: the card is taken up if it is
    /// available and no card is held. Otherwise the click is ignored.
    pub fn arm(&mut self, index: usize) -> (armed: bool)
        requires
            index < old(self).items.len(),
        ensures
            armed == (old(self).armed is None && old(self).items[index as int].availability.cooldown_finished
                && old(self).items[index as int].availability.sun_enough),
            final(self).items@ == old(self).items@,
            final(self).armed == (if armed {
                Some(index)
            } else {
                old(self).armed
            }),
    {
        if self.armed.is_none() && self.items[index].availability.available() {
            self.armed = Some(index);
            true
        } else {
            false
        }
    }

    /// The second click, at `pos`: the plant of the card that is held is put
    /// on the tile there if the tile is empty, and the card is laid down
    /// either way.
    ///
    /// On an empty tile the price is taken from the balance, the plant
    /// stands on exactly that tile, and the cooldown of the card starts
    /// over. On a tile that has a plant, neither the balance nor the lawn
    /// changes.
    pub fn place(&mut self, garden: &mut Garden, sun_count: &mut SunCount, pos: WorldPos, now: u64) -> (planted: Option<u64>)
        requires
            old(self).armed is Some,
            old(self).wf(),
            old(garden).wf(),
            old(garden).next_id < u64::MAX,
            i32::MIN <= old(sun_count).0 - old(self).items[old(self).armed.unwrap() as int].plant.price
                <= i32::MAX,
        ensures
            final(self).wf(),
            final(garden).wf(),
            final(self).armed is None,
            final(self).items@.len() == old(self).items@.len(),
            old(garden).land.occupant(pos.tile()) is Some ==> {
                &&& planted is None
                &&& final(sun_count).0 == old(sun_count).0
                &&& final(garden).plants@ == old(garden).plants@
                &&& final(garden).land@ == old(garden).land@
                &&& final(garden).next_id == old(garden).next_id
                &&& final(self).items@ == old(self).items@
            },
            old(garden).land.occupant(pos.tile()) is None ==> {
                &&& planted == Some(old(garden).next_id)
                &&& final(sun_count).0 == old(sun_count).0 - old(self).items[old(self).armed.unwrap() as int].plant.price
                &&& final(garden).plants@ == old(garden).plants@.push(
                    seedling(
                        old(self).items[old(self).armed.unwrap() as int].kind,
                        pos.tile(),
                        old(garden).next_id,
                        now,
                    ),
                )
                &&& final(garden).land@ == old(garden).land@.insert(pos.tile(), Some(old(garden).next_id))
                &&& final(garden).next_id == old(garden).next_id + 1
                &&& forall|i: int|
                    0 <= i < old(self).items@.len() ==> #[trigger] final(self).items[i] == (if i == old(
                        self,
                    ).armed.unwrap() {
                        spent(old(self).items[i], final(sun_count).0)
                    } else {
                        repriced(old(self).items[i], final(sun_count).0)
                    })
            },
    {
        let index = self.armed.unwrap();
        self.armed = None;
        let tile = pos.to_tile();
        let grid = GridPos::new(tile.0, tile.1);
        proof {
            lemma_tile_round_trip(tile);
        }
        if !garden.land.is_empty(grid) {
            return None;
        }
        let mut item = self.items[index];
        let planted = match item.kind {
            PlantType::Sunflower => Sunflower::create(grid, garden, now),
            PlantType::Peashooter => Peashooter::create(grid, garden, now),
            PlantType::Wallnut => Wallnut::create(grid, garden, now),
        };
        sun_count.0 = sun_count.0 - item.plant.price;
        item.plant.cooldown.reset();
        item.availability.cooldown_finished = false;
        self.items.set(index, item);
        let ghost halfway = self.items@;
        self.sun_changed(sun_count);
        proof {
            assert forall|i: int| 0 <= i < old(self).items@.len() implies #[trigger] self.items[i] == (if i
                == index {
                spent(old(self).items[i], sun_count.0)
            } else {
                repriced(old(self).items[i], sun_count.0)
            }) by {
                assert(self.items[i] == repriced(halfway[i], sun_count.0));
            }
        }
        match planted {
            Ok(id) => Some(id),
            Err(_) => None,
        }
    }
}

} // verus!
