//! The conehead zombie.

use crate::land::{GridPos, WorldPos, FIRST_TILE_X, FIRST_TILE_Y, LAND_ROWS};
use crate::player::PlayerCommon;
use crate::zombies::{joined, Horde, Zombie, ZombieCommon, ZombieState, ZombieType};
use vstd::prelude::*;

verus! {

/// Health of a conehead zombie: 200 points.
pub const CONEHEAD_ZOMBIE_HEALTH: i64 = 20000;

/// The conehead zombie: a zombie with twice the health.
#[derive(Clone, Copy, Debug)]
pub struct ConeheadZombie;

impl ConeheadZombie {
    /// Puts a conehead zombie at `pos`.
    pub fn create(pos: GridPos, horde: &mut Horde, now: u64) -> (id: u64)
        requires
            old(horde).wf(),
            old(horde).next_id < u64::MAX,
            0 <= pos.tile().1 < LAND_ROWS,
            i64::MIN <= pos.x + FIRST_TILE_X,
            i64::MIN <= pos.y + FIRST_TILE_Y,
        ensures
            final(horde).wf(),
            id == old(horde).next_id,
            joined(
                *old(horde),
                *final(horde),
                Zombie {
                    id,
                    player: PlayerCommon {
                        name: "Conehead Zombie",
                        health: CONEHEAD_ZOMBIE_HEALTH,
                        spawned_time: now,
                        dying: None,
                    },
                    common: ZombieCommon { state: ZombieState::Walking },
                    kind: ZombieType::Conehead,
                    pos: WorldPos { x: (pos.x + FIRST_TILE_X) as i64, y: (pos.y + FIRST_TILE_Y) as i64 },
                },
            ),
    {
        let place = pos.to_world();
        assert(place.tile() == pos.tile());
        horde.spawn("Conehead Zombie", CONEHEAD_ZOMBIE_HEALTH, ZombieType::Conehead, place, now)
    }
}

} // verus!
