//! The wall-nut: a plant that does nothing but stand in the way.

use crate::land::{GridPos, OccupancyError};
use crate::plants::{tended, Garden, GardenOp, Plant, PlantKind};
use vstd::prelude::*;

verus! {

/// Health of a wall-nut: 250 points.
pub const WALLNUT_HEALTH: i64 = 25000;

/// What a wall-nut has of its own: nothing.
#[derive(Clone, Copy, Debug)]
pub struct Wallnut;

impl Wallnut {
    /// Plants a wall-nut on the tile of `pos`.
    pub fn create(pos: GridPos, garden: &mut Garden, now: u64) -> (planted: Result<u64, OccupancyError>)
        requires
            old(garden).wf(),
            old(garden).next_id < u64::MAX,
        ensures
            final(garden).wf(),
            final(garden)@ == tended(
                old(garden)@,
                GardenOp::Add {
                    name: "Wallnut",
                    health: WALLNUT_HEALTH,
                    kind: PlantKind::Wallnut(Wallnut),
                    tile: pos.tile(),
                    now,
                },
            ),
            planted == (if old(garden).land.occupant(pos.tile()) is None {
                Ok::<u64, OccupancyError>(old(garden).next_id)
            } else {
                Err::<u64, OccupancyError>(OccupancyError::TileOccupied)
            }),
    {
        garden.plant("Wallnut", WALLNUT_HEALTH, PlantKind::Wallnut(Wallnut), pos, now)
    }
}

} // verus!
