//! Plants: the records of the plants that stand on the lawn, kept together
//! with the index of their tiles.

use crate::land::{occupant_of, GridPos, LandPlants, OccupancyError};
use crate::player::{DieEvent, PlayerCommon};
use vstd::prelude::*;

pub mod peashooter;
pub mod sunflower;
pub mod wallnut;

verus! {

/// What the variants of plant differ in.
#[derive(Clone, Copy, Debug)]
pub enum PlantKind {
    Peashooter(peashooter::Peashooter),
    Sunflower(sunflower::Sunflower),
    Wallnut(wallnut::Wallnut),
}

/// What every plant has: the tile it was put on, which it never leaves.
#[derive(Clone, Copy, Debug)]
pub struct PlantCommon {
    pub tile: (i32, i32),
}

/// A plant on the lawn.
#[derive(Clone, Copy, Debug)]
pub struct Plant {
    pub id: u64,
    pub player: PlayerCommon,
    pub common: PlantCommon,
    pub kind: PlantKind,
}

/// No blow is heavier than this, so no plant or zombie that was alive before
/// a blow has less health than minus this after it.
pub const MAX_BLOW: i64 = 0xffff_ffff;

impl Plant {
    /// A plant whose mark and health agree: it is alive exactly as long as it
    /// has health left, and it died of one blow.
    pub open spec fn wf(self) -> bool {
        &&& self.player.dying is None <==> self.player.health > 0
        &&& self.player.health >= -MAX_BLOW
    }
}

/// The plants of a game and the index of the tiles they stand on.
pub struct Garden {
    pub plants: Vec<Plant>,
    pub land: LandPlants,
    /// The identity that the next plant gets.
    pub next_id: u64,
}

impl Garden {
    /// Whether some plant, alive or dying, has this identity.
    pub open spec fn has_id(self, id: u64) -> bool {
        exists|i: int| 0 <= i < self.plants.len() && #[trigger] self.plants[i].id == id
    }

    /// Whether a live plant with this identity stands on this tile.
    pub open spec fn stands(self, id: u64, tile: (i32, i32)) -> bool {
        stands_in(self.plants@, id, tile)
    }

    /// The records and the index agree: see [`agree`].
    ///
    /// Every live plant is the occupant of its tile, every occupant of a
    /// tile is a live plant that stands there, and no two plants share an
    /// identity. It follows that no two live plants share a tile.
    pub open spec fn wf(self) -> bool {
        agree(self@)
    }

    /// A garden without plants.
    pub fn new() -> (garden: Garden)
        ensures
            garden.wf(),
            garden.plants@.len() == 0,
            garden.land.bare(),
            garden.next_id == 0,
    {
        let land = LandPlants::default();
        assert forall|tile: (i32, i32)| (#[trigger] occupant_of(land@, tile)) is None by {
            assert(land.occupant(tile) is None);
        }
        Garden { plants: Vec::new(), land, next_id: 0 }
    }

    /// Where the plant with this identity is kept: the first, if there are
    /// several.
    pub fn find(&self, id: u64) -> (found: Option<usize>)
        ensures
            match found {
                Some(i) => i < self.plants.len() && self.plants[i as int].id == id && forall|k: int|
                    0 <= k < i ==> (#[trigger] self.plants[k]).id != id,
                None => !self.has_id(id),
            },
    {
        let mut i: usize = 0;
        while i < self.plants.len()
            invariant
                i <= self.plants.len(),
                forall|k: int| 0 <= k < i ==> (#[trigger] self.plants[k]).id != id,
            decreases self.plants.len() - i,
        {
            if self.plants[i].id == id {
                return Some(i);
            }
            i = i + 1;
        }
        None
    }

    /// Puts a new plant on the tile of `pos` and enters it in the index, in
    /// one step. On a tile that has a plant nothing is changed, and the call
    /// reports [`OccupancyError::TileOccupied`].
    pub fn plant(&mut self, name: &'static str, health: i64, kind: PlantKind, pos: GridPos, now: u64) -> (planted: Result<u64, OccupancyError>)
        requires
            old(self).wf(),
            old(self).next_id < u64::MAX,
            0 < health,
        ensures
            final(self).wf(),
            final(self)@ == tended(
                old(self)@,
                GardenOp::Add { name, health, kind, tile: pos.tile(), now },
            ),
            planted == (if old(self).land.occupant(pos.tile()) is None {
                Ok::<u64, OccupancyError>(old(self).next_id)
            } else {
                Err::<u64, OccupancyError>(OccupancyError::TileOccupied)
            }),
    {
        if !self.land.is_empty(pos) {
            return Err(OccupancyError::TileOccupied);
        }
        let id = self.next_id;
        let tile = pos.to_tile();
        let record = Plant {
            id,
            player: PlayerCommon::new(name, health, now),
            common: PlantCommon { tile },
            kind,
        };
        let _ = self.land.add(pos, id);
        self.plants.push(record);
        self.next_id = id + 1;
        proof {
            lemma_tending_keeps_agreement(
                old(self)@,
                GardenOp::Add { name, health, kind, tile: pos.tile(), now },
            );
        }
        Ok(id)
    }

    /// Deals a blow to a live plant. A plant that dies of it leaves the index
    /// at once; its record stays, marked as dying, until the dead are
    /// cleared away.
    pub fn hurt(&mut self, index: usize, amount: u32) -> (event: Option<DieEvent>)
        requires
            old(self).wf(),
            index < old(self).plants.len(),
            old(self).plants[index as int].player.dying is None,
        ensures
            final(self).wf(),
            final(self).plants@ == old(self).plants@.update(
                index as int,
                Plant {
                    player: old(self).plants[index as int].player.damaged(amount),
                    ..old(self).plants[index as int]
                },
            ),
            event is Some <==> old(self).plants[index as int].player.health <= amount,
            event is Some ==> final(self).land@ == old(self).land@.insert(
                old(self).plants[index as int].common.tile,
                None,
            ),
            event is None ==> final(self).land@ == old(self).land@,
            final(self).next_id == old(self).next_id,
    {
        let mut record = self.plants[index];
        let event = record.player.damage(amount);
        self.plants.set(index, record);
        let tile = record.common.tile;
        if event.is_some() {
            let _ = self.land.remove(GridPos::new(tile.0, tile.1));
        }
        proof {
            crate::land::lemma_tile_round_trip(tile);
            let target = old(self).plants[index as int].id;
            assert(old(self).plants[index as int].wf());
            assert(occupant_of(old(self)@.tiles, tile) == Some(target));
            assert(index_of_plant(old(self).plants@, target) == index);
            assert(self@ == tended(old(self)@, GardenOp::Bite { target, amount }));
            lemma_tending_keeps_agreement(old(self)@, GardenOp::Bite { target, amount });
        }
        event
    }
}

/// Where the record with this identity is kept.
pub open spec fn index_of_plant(plants: Seq<Plant>, id: u64) -> int {
    choose|j: int| 0 <= j < plants.len() && #[trigger] plants[j].id == id
}

/// The plants and the table of tiles after the plant `target` took a blow of
/// `amount`: its health is lowered, and if none is left it is marked as dying
/// and its tile is empty.
pub open spec fn bitten(
    plants: Seq<Plant>,
    tiles: Map<(i32, i32), Option<u64>>,
    target: u64,
    amount: u32,
) -> (Seq<Plant>, Map<(i32, i32), Option<u64>>) {
    let j = index_of_plant(plants, target);
    (
        plants.update(j, Plant { player: plants[j].player.damaged(amount), ..plants[j] }),
        if plants[j].player.health <= amount {
            tiles.insert(plants[j].common.tile, None)
        } else {
            tiles
        },
    )
}

impl Garden {
    /// Whether this plant is the occupant of some tile.
    pub open spec fn occupies(self, id: u64) -> bool {
        exists|tile: (i32, i32)| #[trigger] self.land.occupant(tile) == Some(id)
    }

    /// Deals a blow to the plant that the index has under the identity
    /// `target`: see [`Garden::hurt`].
    pub fn bite(&mut self, target: u64, amount: u32) -> (event: Option<DieEvent>)
        requires
            old(self).wf(),
            old(self).occupies(target),
        ensures
            final(self).wf(),
            (final(self).plants@, final(self).land@) == bitten(
                old(self).plants@,
                old(self).land@,
                target,
                amount,
            ),
            final(self).next_id == old(self).next_id,
            event is Some <==> old(self).plants[index_of_plant(old(self).plants@, target)].player.health
                <= amount,
            final(self)@ == tended(old(self)@, GardenOp::Bite { target, amount }),
    {
        proof {
            let tile = choose|tile: (i32, i32)| #[trigger] self.land.occupant(tile) == Some(target);
            assert(occupant_of(self@.tiles, tile) is Some);
            assert(stands_in(self@.plants, occupant_of(self@.tiles, tile).unwrap(), tile));
        }
        match self.find(target) {
            Some(index) => {
                assert(index as int == index_of_plant(self.plants@, target));
                self.hurt(index, amount)
            },
            None => None,
        }
    }
}

impl Garden {
    /// Replaces what a plant has of its own kind: its timers.
    pub fn set_kind(&mut self, index: usize, kind: PlantKind)
        requires
            old(self).wf(),
            index < old(self).plants.len(),
        ensures
            final(self).wf(),
            final(self).plants@ == old(self).plants@.update(
                index as int,
                Plant { kind, ..old(self).plants[index as int] },
            ),
            final(self).land == old(self).land,
            final(self).next_id == old(self).next_id,
            final(self)@ == tended(old(self)@, GardenOp::Tend { index: index as int, kind }),
    {
        let mut record = self.plants[index];
        record.kind = kind;
        self.plants.set(index, record);
        proof {
            lemma_tending_keeps_agreement(old(self)@, GardenOp::Tend { index: index as int, kind });
        }
    }
}

/// The plants that are not dying, in their order.
pub open spec fn living(plants: Seq<Plant>) -> Seq<Plant>
    decreases plants.len(),
{
    if plants.len() == 0 {
        Seq::empty()
    } else if plants.last().player.dying is None {
        living(plants.drop_last()).push(plants.last())
    } else {
        living(plants.drop_last())
    }
}

impl Garden {
    /// Drops the records of the plants that are dying. The index had given
    /// them up when they died.
    pub fn clear_dead(&mut self)
        requires
            old(self).wf(),
        ensures
            final(self).wf(),
            final(self).plants@ == living(old(self).plants@),
            forall|i: int|
                0 <= i < final(self).plants.len() ==> (#[trigger] final(self).plants[i]).player.dying is None,
            forall|i: int|
                0 <= i < final(self).plants.len() ==> old(self).plants@.contains(
                    #[trigger] final(self).plants[i],
                ),
            final(self).land == old(self).land,
            final(self).next_id == old(self).next_id,
            final(self)@ == tended(old(self)@, GardenOp::ClearDead),
    {
        let mut kept: Vec<Plant> = Vec::new();
        let count = self.plants.len();
        let mut i: usize = 0;
        while i < count
            invariant
                i <= count,
                count == self.plants.len(),
                *self == *old(self),
                kept@ == living(self.plants@.take(i as int)),
            decreases count - i,
        {
            let plant = self.plants[i];
            assert(self.plants@.take(i + 1).drop_last() =~= self.plants@.take(i as int));
            assert(self.plants@.take(i + 1).last() == plant);
            if plant.player.dying.is_none() {
                kept.push(plant);
            }
            i = i + 1;
        }
        assert(self.plants@.take(count as int) =~= self.plants@);
        self.plants = kept;
        proof {
            lemma_living_are_the_live(old(self).plants@);
            lemma_tending_keeps_agreement(old(self)@, GardenOp::ClearDead);
        }
    }
}

/// A garden as plain values.
pub struct Beds {
    pub plants: Seq<Plant>,
    pub tiles: Map<(i32, i32), Option<u64>>,
    pub next_id: u64,
}

impl View for Garden {
    type V = Beds;

    open spec fn view(&self) -> Beds {
        Beds { plants: self.plants@, tiles: self.land@, next_id: self.next_id }
    }
}

/// Whether a live plant with this identity stands on this tile.
pub open spec fn stands_in(plants: Seq<Plant>, id: u64, tile: (i32, i32)) -> bool {
    exists|i: int|
        0 <= i < plants.len() && #[trigger] plants[i].id == id && plants[i].common.tile == tile
            && plants[i].player.dying is None
}

/// The records and the table of tiles agree: what [`Garden::wf`] says, of
/// plain values.
pub open spec fn agree(beds: Beds) -> bool {
    &&& forall|i: int| 0 <= i < beds.plants.len() ==> (#[trigger] beds.plants[i]).wf()
    &&& forall|i: int|
        0 <= i < beds.plants.len() && (#[trigger] beds.plants[i]).player.dying is None ==> occupant_of(
            beds.tiles,
            beds.plants[i].common.tile,
        ) == Some(beds.plants[i].id)
    &&& forall|tile: (i32, i32)| (#[trigger] occupant_of(beds.tiles, tile)) is Some ==> stands_in(
            beds.plants,
            occupant_of(beds.tiles, tile).unwrap(),
            tile,
        )
    &&& forall|i: int, j: int|
        0 <= i < j < beds.plants.len() ==> (#[trigger] beds.plants[i]).id != (#[trigger] beds.plants[j]).id
    &&& forall|i: int| 0 <= i < beds.plants.len() ==> (#[trigger] beds.plants[i]).id < beds.next_id
}

/// What can be done to the plants of a garden.
pub enum GardenOp {
    /// A plant is put on a tile: see [`Garden::plant`].
    Add { name: &'static str, health: i64, kind: PlantKind, tile: (i32, i32), now: u64 },
    /// The plant with an identity takes a blow: see [`Garden::bite`].
    Bite { target: u64, amount: u32 },
    /// The plant kept at a place gets new timers: see [`Garden::set_kind`].
    Tend { index: int, kind: PlantKind },
    /// The dead are cleared away: see [`Garden::clear_dead`].
    ClearDead,
}

/// The garden after one operation.
///
/// A plant is added only to an empty tile (and only with health, and while
/// identities are left). A blow is dealt only to a plant that the index has.
pub open spec fn tended(beds: Beds, op: GardenOp) -> Beds {
    match op {
        GardenOp::Add { name, health, kind, tile, now } => if occupant_of(beds.tiles, tile) is None
            && health > 0 && beds.next_id < u64::MAX {
            Beds {
                plants: beds.plants.push(
                    Plant {
                        id: beds.next_id,
                        player: PlayerCommon { name, health, spawned_time: now, dying: None },
                        common: PlantCommon { tile },
                        kind,
                    },
                ),
                tiles: beds.tiles.insert(tile, Some(beds.next_id)),
                next_id: (beds.next_id + 1) as u64,
            }
        } else {
            beds
        },
        GardenOp::Bite { target, amount } => if exists|tile: (i32, i32)| #[trigger]
            occupant_of(beds.tiles, tile) == Some(target) {
            Beds {
                plants: bitten(beds.plants, beds.tiles, target, amount).0,
                tiles: bitten(beds.plants, beds.tiles, target, amount).1,
                ..beds
            }
        } else {
            beds
        },
        GardenOp::Tend { index, kind } => if 0 <= index < beds.plants.len() {
            Beds { plants: beds.plants.update(index, Plant { kind, ..beds.plants[index] }), ..beds }
        } else {
            beds
        },
        GardenOp::ClearDead => Beds { plants: living(beds.plants), ..beds },
    }
}

/// The garden after a series of operations, in order.
pub open spec fn tended_all(beds: Beds, ops: Seq<GardenOp>) -> Beds
    decreases ops.len(),
{
    if ops.len() == 0 {
        beds
    } else {
        tended(tended_all(beds, ops.drop_last()), ops.last())
    }
}

/// The plants that are not dying are the plants that pass the test, in
/// their order: each of them is a plant that was there, and each live plant
/// that was there is among them.
pub proof fn lemma_living_are_the_live(plants: Seq<Plant>)
    ensures
        forall|k: int| 0 <= k < living(plants).len() ==> (#[trigger] living(plants)[k]).player.dying is None,
        forall|k: int|
            0 <= k < living(plants).len() ==> exists|j: int|
                0 <= j < plants.len() && #[trigger] plants[j] == #[trigger] living(plants)[k],
        forall|j: int|
            0 <= j < plants.len() && (#[trigger] plants[j]).player.dying is None ==> living(plants).contains(
                plants[j],
            ),
        forall|a: int, b: int|
            0 <= a < b < living(plants).len() ==> exists|i: int, j: int|
                0 <= i < j < plants.len() && #[trigger] plants[i] == #[trigger] living(plants)[a]
                    && #[trigger] plants[j] == #[trigger] living(plants)[b],
    decreases plants.len(),
{
    if plants.len() > 0 {
        let front = plants.drop_last();
        let last = plants.last();
        lemma_living_are_the_live(front);
        let kept = living(plants);
        let before = living(front);
        assert forall|k: int| 0 <= k < kept.len() implies exists|j: int|
            0 <= j < plants.len() && #[trigger] plants[j] == #[trigger] kept[k] by {
            if k < before.len() {
                assert(kept[k] == before[k]);
                let j = choose|j: int| 0 <= j < front.len() && #[trigger] front[j] == #[trigger] before[k];
                assert(plants[j] == kept[k]);
            } else {
                assert(plants[plants.len() - 1] == kept[k]);
            }
        }
        assert forall|j: int|
            0 <= j < plants.len() && (#[trigger] plants[j]).player.dying is None implies kept.contains(
            plants[j],
        ) by {
            if j < front.len() {
                assert(front[j] == plants[j]);
                assert(before.contains(front[j]));
                let k = choose|k: int| 0 <= k < before.len() && before[k] == front[j];
                assert(kept[k] == plants[j]);
            } else {
                assert(kept[kept.len() - 1] == plants[j]);
            }
        }
        assert forall|a: int, b: int| 0 <= a < b < kept.len() implies exists|i: int, j: int|
            0 <= i < j < plants.len() && #[trigger] plants[i] == #[trigger] kept[a] && #[trigger] plants[j]
                == #[trigger] kept[b] by {
            if b < before.len() {
                let (i, j) = choose|i: int, j: int|
                    0 <= i < j < front.len() && #[trigger] front[i] == #[trigger] before[a]
                        && #[trigger] front[j] == #[trigger] before[b];
                assert(plants[i] == kept[a] && plants[j] == kept[b]);
            } else {
                let i = choose|i: int| 0 <= i < front.len() && #[trigger] front[i] == #[trigger] before[a];
                assert(plants[i] == kept[a] && plants[plants.len() - 1] == kept[b]);
            }
        }
    }
}

/// One operation leaves the records and the table of tiles in agreement.
pub proof fn lemma_tending_keeps_agreement(beds: Beds, op: GardenOp)
    requires
        agree(beds),
    ensures
        agree(tended(beds, op)),
{
    let after = tended(beds, op);
    match op {
        GardenOp::Add { name, health, kind, tile, now } => {
            if occupant_of(beds.tiles, tile) is None && health > 0 && beds.next_id < u64::MAX {
                let last = beds.plants.len() as int;
                assert forall|t: (i32, i32)| (#[trigger] occupant_of(after.tiles, t)) is Some implies stands_in(
                    after.plants,
                    occupant_of(after.tiles, t).unwrap(),
                    t,
                ) by {
                    if t == tile {
                        assert(after.plants[last].id == beds.next_id);
                    } else {
                        assert(occupant_of(beds.tiles, t) == occupant_of(after.tiles, t));
                        let i = choose|i: int|
                            0 <= i < beds.plants.len() && #[trigger] beds.plants[i].id == occupant_of(
                                beds.tiles,
                                t,
                            ).unwrap() && beds.plants[i].common.tile == t && beds.plants[i].player.dying is None;
                        assert(after.plants[i] == beds.plants[i]);
                    }
                }
                assert forall|i: int|
                    0 <= i < after.plants.len() && (#[trigger] after.plants[i]).player.dying is None implies occupant_of(
                    after.tiles,
                    after.plants[i].common.tile,
                ) == Some(after.plants[i].id) by {
                    if i < last {
                        assert(after.plants[i] == beds.plants[i]);
                        assert(beds.plants[i].common.tile != tile);
                    }
                }
            }
        },
        GardenOp::Bite { target, amount } => {
            if exists|t: (i32, i32)| #[trigger] occupant_of(beds.tiles, t) == Some(target) {
                let spot = choose|t: (i32, i32)| #[trigger] occupant_of(beds.tiles, t) == Some(target);
                assert(stands_in(beds.plants, occupant_of(beds.tiles, spot).unwrap(), spot));
                let index = index_of_plant(beds.plants, target);
                let tile = beds.plants[index].common.tile;
                assert(beds.plants[index].wf());
                assert forall|t: (i32, i32)| (#[trigger] occupant_of(after.tiles, t)) is Some implies stands_in(
                    after.plants,
                    occupant_of(after.tiles, t).unwrap(),
                    t,
                ) by {
                    assert(occupant_of(beds.tiles, t) == occupant_of(after.tiles, t));
                    let i = choose|i: int|
                        0 <= i < beds.plants.len() && #[trigger] beds.plants[i].id == occupant_of(
                            beds.tiles,
                            t,
                        ).unwrap() && beds.plants[i].common.tile == t && beds.plants[i].player.dying is None;
                    if i == index {
                        assert(after.plants[i].id == beds.plants[i].id);
                    } else {
                        assert(after.plants[i] == beds.plants[i]);
                    }
                }
                assert forall|i: int|
                    0 <= i < after.plants.len() && (#[trigger] after.plants[i]).player.dying is None implies occupant_of(
                    after.tiles,
                    after.plants[i].common.tile,
                ) == Some(after.plants[i].id) by {
                    if i != index {
                        assert(after.plants[i] == beds.plants[i]);
                        if beds.plants[i].common.tile == tile {
                            assert(beds.plants[i].id == beds.plants[index].id);
                        }
                    }
                }
            }
        },
        GardenOp::Tend { index, kind } => {
            if 0 <= index < beds.plants.len() {
                assert forall|t: (i32, i32)| (#[trigger] occupant_of(after.tiles, t)) is Some implies stands_in(
                    after.plants,
                    occupant_of(after.tiles, t).unwrap(),
                    t,
                ) by {
                    let i = choose|i: int|
                        0 <= i < beds.plants.len() && #[trigger] beds.plants[i].id == occupant_of(
                            beds.tiles,
                            t,
                        ).unwrap() && beds.plants[i].common.tile == t && beds.plants[i].player.dying is None;
                    assert(after.plants[i].id == beds.plants[i].id);
                }
            }
        },
        GardenOp::ClearDead => {
            lemma_living_are_the_live(beds.plants);
            assert forall|t: (i32, i32)| (#[trigger] occupant_of(after.tiles, t)) is Some implies stands_in(
                after.plants,
                occupant_of(after.tiles, t).unwrap(),
                t,
            ) by {
                let j = choose|j: int|
                    0 <= j < beds.plants.len() && #[trigger] beds.plants[j].id == occupant_of(
                        beds.tiles,
                        t,
                    ).unwrap() && beds.plants[j].common.tile == t && beds.plants[j].player.dying is None;
                assert(after.plants.contains(beds.plants[j]));
                let k = choose|k: int| 0 <= k < after.plants.len() && after.plants[k] == beds.plants[j];
                assert(after.plants[k].id == beds.plants[j].id);
            }
            assert forall|k: int| 0 <= k < after.plants.len() implies (#[trigger] after.plants[k]).wf()
                && after.plants[k].id < after.next_id && (after.plants[k].player.dying is None
                ==> occupant_of(after.tiles, after.plants[k].common.tile) == Some(after.plants[k].id)) by {
                let j = choose|j: int|
                    0 <= j < beds.plants.len() && #[trigger] beds.plants[j] == #[trigger] after.plants[k];
                assert(beds.plants[j].wf());
            }
            assert forall|a: int, b: int| 0 <= a < b < after.plants.len() implies (
            #[trigger] after.plants[a]).id != (#[trigger] after.plants[b]).id by {
                let (i, j) = choose|i: int, j: int|
                    0 <= i < j < beds.plants.len() && #[trigger] beds.plants[i] == #[trigger] after.plants[a]
                        && #[trigger] beds.plants[j] == #[trigger] after.plants[b];
                assert(beds.plants[i].id != beds.plants[j].id);
            }
        },
    }
}

/// Occupancy is exclusive: where the records and the table of tiles agree,
/// two live plants never stand on one tile.
pub proof fn lemma_one_plant_per_tile(beds: Beds, i: int, j: int)
    requires
        agree(beds),
        0 <= i < beds.plants.len(),
        0 <= j < beds.plants.len(),
        beds.plants[i].player.dying is None,
        beds.plants[j].player.dying is None,
        beds.plants[i].common.tile == beds.plants[j].common.tile,
    ensures
        i == j,
{
}

/// Occupancy stays exclusive: whatever is done to a garden, in whatever
/// order, its records and its table of tiles agree at every point, so at no
/// point do two live plants stand on one tile.
pub proof fn lemma_gardening_keeps_one_plant_per_tile(beds: Beds, ops: Seq<GardenOp>)
    requires
        agree(beds),
    ensures
        agree(tended_all(beds, ops)),
        forall|i: int, j: int|
            0 <= i < j < tended_all(beds, ops).plants.len() && (#[trigger] tended_all(
                beds,
                ops,
            ).plants[i]).player.dying is None && (#[trigger] tended_all(beds, ops).plants[j]).player.dying is None
                ==> tended_all(beds, ops).plants[i].common.tile != tended_all(beds, ops).plants[j].common.tile,
    decreases ops.len(),
{
    if ops.len() > 0 {
        lemma_gardening_keeps_one_plant_per_tile(beds, ops.drop_last());
        lemma_tending_keeps_agreement(tended_all(beds, ops.drop_last()), ops.last());
    }
    let after = tended_all(beds, ops);
    assert forall|i: int, j: int|
        0 <= i < j < after.plants.len() && (#[trigger] after.plants[i]).player.dying is None && (
        #[trigger] after.plants[j]).player.dying is None implies after.plants[i].common.tile
        != after.plants[j].common.tile by {
        if after.plants[i].common.tile == after.plants[j].common.tile {
            lemma_one_plant_per_tile(after, i, j);
        }
    }
}

} // verus!
