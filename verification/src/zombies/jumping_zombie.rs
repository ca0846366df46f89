//! The jumping zombie, which can jump over the first plant it meets.

use crate::land::{
    lemma_tile_round_trip, occupant_of, GridPos, LandPlants, WorldPos, FIRST_TILE_X, FIRST_TILE_Y,
    LAND_COLUMNS, LAND_ROWS,
};
use crate::player::PlayerCommon;
use crate::zombies::{joined, Horde, Zombie, ZombieCommon, ZombieState, ZombieType};
use vstd::prelude::*;

verus! {

/// Health of a jumping zombie: 100 points.
pub const JUMPING_ZOMBIE_HEALTH: i64 = 10000;

/// The jumping zombie.
#[derive(Clone, Copy, Debug)]
pub struct JumpingZombie;

impl JumpingZombie {
    /// Puts a jumping zombie at `pos`.
    pub fn create(pos: GridPos, horde: &mut Horde, now: u64) -> (id: u64)
        requires
            old(horde).wf(),
            old(horde).next_id < u64::MAX,
            0 <= pos.tile().1 < LAND_ROWS,
            i64::MIN <= pos.x + FIRST_TILE_X,
            i64::MIN <= pos.y + FIRST_TILE_Y,
        ensures
            final(horde).wf(),
            id == old(horde).next_id,
            joined(
                *old(horde),
                *final(horde),
                Zombie {
                    id,
                    player: PlayerCommon {
                        name: "Jumping Zombie",
                        health: JUMPING_ZOMBIE_HEALTH,
                        spawned_time: now,
                        dying: None,
                    },
                    common: ZombieCommon { state: ZombieState::Walking },
                    kind: ZombieType::Jumping,
                    pos: WorldPos { x: (pos.x + FIRST_TILE_X) as i64, y: (pos.y + FIRST_TILE_Y) as i64 },
                },
            ),
    {
        let place = pos.to_world();
        assert(place.tile() == pos.tile());
        horde.spawn("Jumping Zombie", JUMPING_ZOMBIE_HEALTH, ZombieType::Jumping, place, now)
    }
}

/// Whether no plant stands to the right of `tile` in its row, as far as the
/// land goes.
pub open spec fn clear_to_the_right(tiles: Map<(i32, i32), Option<u64>>, tile: (i32, i32)) -> bool {
    forall|x: i32| tile.0 < x < LAND_COLUMNS ==> (#[trigger] occupant_of(tiles, (x, tile.1))) is None
}

/// Whether a zombie jumps: it is alive, of the jumping kind, and eating, and
/// the plant it eats is the first that it has met.
pub open spec fn jumps(zombie: Zombie, tiles: Map<(i32, i32), Option<u64>>) -> bool {
    &&& zombie.player.dying is None
    &&& zombie.kind == ZombieType::Jumping
    &&& zombie.common.state == ZombieState::Eating
    &&& clear_to_the_right(tiles, zombie.pos.tile())
}

/// A zombie after the jump, if it jumps: on the centre of the next tile to
/// the left.
pub open spec fn jumped(zombie: Zombie, tiles: Map<(i32, i32), Option<u64>>) -> Zombie {
    if jumps(zombie, tiles) {
        Zombie {
            pos: WorldPos::centre_of(((zombie.pos.tile().0 - 1) as i32, zombie.pos.tile().1)),
            ..zombie
        }
    } else {
        zombie
    }
}

/// Whether no plant stands to the right of `tile` in its row.
pub fn is_first_plant(land_plants: &LandPlants, tile: (i32, i32)) -> (first: bool)
    ensures
        first == clear_to_the_right(land_plants@, tile),
{
    if tile.0 >= LAND_COLUMNS - 1 {
        return true;
    }
    let mut x: i32 = tile.0 + 1;
    while x < LAND_COLUMNS
        invariant
            tile.0 < x <= LAND_COLUMNS,
            forall|n: i32|
                tile.0 < n < x ==> (#[trigger] occupant_of(land_plants@, (n, tile.1))) is None,
        decreases LAND_COLUMNS - x,
    {
        if land_plants.get((x, tile.1)).is_some() {
            assert(occupant_of(land_plants@, (x, tile.1)) is Some);
            return false;
        }
        x = x + 1;
    }
    true
}

/// For jumping zombie, it can jump over the first plant it meets: while it
/// eats a plant and no plant stands to its right, it is put one tile to the
/// left, past the plant.
pub fn jump_over_first_plant(horde: &mut Horde, land_plants: &LandPlants)
    requires
        old(horde).wf(),
        forall|i: int|
            0 <= i < old(horde).zombies.len() && jumps(#[trigger] old(horde).zombies[i], land_plants@)
                ==> old(horde).zombies[i].pos.tile().0 > i32::MIN,
    ensures
        final(horde).wf(),
        final(horde).zombies@.len() == old(horde).zombies@.len(),
        forall|i: int|
            0 <= i < old(horde).zombies.len() ==> #[trigger] final(horde).zombies[i] == jumped(
                old(horde).zombies[i],
                land_plants@,
            ),
        final(horde).land == old(horde).land,
        final(horde).next_id == old(horde).next_id,
{
    let count = horde.zombies.len();
    let mut i: usize = 0;
    while i < count
        invariant
            i <= count,
            count == horde.zombies.len(),
            count == old(horde).zombies.len(),
            horde.wf(),
            forall|k: int|
                0 <= k < i ==> #[trigger] horde.zombies[k] == jumped(old(horde).zombies[k], land_plants@),
            forall|k: int| i <= k < count ==> horde.zombies[k] == old(horde).zombies[k],
            forall|k: int|
                0 <= k < count && jumps(#[trigger] old(horde).zombies[k], land_plants@) ==> old(
                    horde,
                ).zombies[k].pos.tile().0 > i32::MIN,
            horde.land == old(horde).land,
            horde.next_id == old(horde).next_id,
        decreases count - i,
    {
        let zombie = horde.zombies[i];
        let jumping = match zombie.kind {
            ZombieType::Jumping => true,
            _ => false,
        };
        let eating = match zombie.common.state {
            ZombieState::Eating => true,
            _ => false,
        };
        if zombie.player.dying.is_none() && jumping && eating {
            let tile = zombie.pos.to_tile();
            if is_first_plant(land_plants, tile) {
                let target = (tile.0 - 1, tile.1);
                proof {
                    lemma_tile_round_trip(target);
                }
                horde.shift(i, ZombieState::Eating, WorldPos::tile_centre(target));
            }
        }
        i = i + 1;
    }
}

} // verus!
