//! The basic zombie.

use crate::land::{lemma_tile_round_trip, GridPos, WorldPos, LAND_ROWS};
use crate::player::PlayerCommon;
use crate::zombies::{joined, Horde, Zombie, ZombieCommon, ZombieState, ZombieType};
use vstd::prelude::*;

verus! {

/// Health of a basic zombie: 100 points.
pub const BASIC_ZOMBIE_HEALTH: i64 = 10000;

/// The basic zombie: it walks and eats, nothing more.
#[derive(Clone, Copy, Debug)]
pub struct BasicZombie;

impl BasicZombie {
    /// Puts a basic zombie on the centre of the tile of `pos`.
    pub fn create(pos: GridPos, horde: &mut Horde, now: u64) -> (id: u64)
        requires
            old(horde).wf(),
            old(horde).next_id < u64::MAX,
            0 <= pos.tile().1 < LAND_ROWS,
        ensures
            final(horde).wf(),
            id == old(horde).next_id,
            joined(
                *old(horde),
                *final(horde),
                Zombie {
                    id,
                    player: PlayerCommon {
                        name: "BasicZombie",
                        health: BASIC_ZOMBIE_HEALTH,
                        spawned_time: now,
                        dying: None,
                    },
                    common: ZombieCommon { state: ZombieState::Walking },
                    kind: ZombieType::Basic,
                    pos: WorldPos::centre_of(pos.tile()),
                },
            ),
    {
        let place = WorldPos::tile_centre(pos.to_tile());
        horde.spawn("BasicZombie", BASIC_ZOMBIE_HEALTH, ZombieType::Basic, place, now)
    }
}

} // verus!
