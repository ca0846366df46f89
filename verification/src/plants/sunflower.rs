//! The sunflower, which makes suns, and the suns themselves.

use crate::land::{
    GridPos, OccupancyError, WorldPos, FIRST_TILE_X, FIRST_TILE_Y,
};
use crate::plants::{tended, Garden, GardenOp, Plant, PlantKind};
use crate::player::Dying;
use crate::timer::{Timer, TimerMode};
use crate::toolbar::SunCount;
use vstd::prelude::*;

verus! {

/// Health of a sunflower: 100 points.
pub const SUNFLOWER_HEALTH: i64 = 10000;

/// Time between two suns of a sunflower, in milliseconds.
pub const PRODUCE_INTERVAL: u64 = 15000;

/// Time between two suns from the sky, in milliseconds.
pub const SKY_SUN_INTERVAL: u64 = 15000;

/// How far a sun drifts in a millisecond, in steps: one world unit in 100
/// milliseconds.
pub const SUN_SPEED: i64 = 3;

/// A sun that has come this far up or down has left the field: 640 world
/// units.
pub const SUN_LIMIT_Y: i64 = 192000;

/// What a collected sun adds to the balance.
pub const SUN_VALUE: i32 = 50;

/// Width of the land, in steps: nine tiles.
pub const LAND_WIDTH: i64 = 216000;

/// Height above the centre of tile (0, 0) at which a sun from the sky
/// appears, in steps: seven tiles, two rows above the land.
pub const SKY_SUN_HEIGHT: i64 = 210000;

/// What a sunflower has of its own.
#[derive(Clone, Copy, Debug)]
pub struct Sunflower {
    pub produce_timer: Timer,
}

impl Sunflower {
    /// Plants a sunflower on the tile of `pos`.
    pub fn create(pos: GridPos, garden: &mut Garden, now: u64) -> (planted: Result<u64, OccupancyError>)
        requires
            old(garden).wf(),
            old(garden).next_id < u64::MAX,
        ensures
            final(garden).wf(),
            final(garden)@ == tended(
                old(garden)@,
                GardenOp::Add {
                    name: "Sunflower",
                    health: SUNFLOWER_HEALTH,
                    kind: PlantKind::Sunflower(
                        Sunflower { produce_timer: Timer::new(PRODUCE_INTERVAL, TimerMode::Repeating) },
                    ),
                    tile: pos.tile(),
                    now,
                },
            ),
            planted == (if old(garden).land.occupant(pos.tile()) is None {
                Ok::<u64, OccupancyError>(old(garden).next_id)
            } else {
                Err::<u64, OccupancyError>(OccupancyError::TileOccupied)
            }),
    {
        let kind = PlantKind::Sunflower(
            Sunflower { produce_timer: Timer::new(PRODUCE_INTERVAL, TimerMode::Repeating) },
        );
        garden.plant("Sunflower", SUNFLOWER_HEALTH, kind, pos, now)
    }
}

/// A sun: money that drifts over the field until it is collected.
#[derive(Clone, Copy, Debug)]
pub struct Sun {
    pub pos: WorldPos,
    /// A sun of a sunflower floats up, a sun from the sky falls down.
    pub move_up: bool,
    /// Set when the sun has been collected or has left the field.
    pub dying: Option<Dying>,
}

/// A plant after its sunflower's timer, if it has one and is alive, was
/// moved on by `delta`.
pub open spec fn ripened(plant: Plant, delta: u32) -> Plant {
    match plant.kind {
        PlantKind::Sunflower(flower) => if plant.player.dying is None {
            Plant {
                kind: PlantKind::Sunflower(Sunflower { produce_timer: flower.produce_timer.ticked(delta) }),
                ..plant
            }
        } else {
            plant
        },
        _ => plant,
    }
}

/// Whether a plant makes a sun in a tick of `delta`: it is a live sunflower
/// whose timer runs out in this tick.
pub open spec fn produces(plant: Plant, delta: u32) -> bool {
    match plant.kind {
        PlantKind::Sunflower(flower) => plant.player.dying is None && flower.produce_timer.ticked(
            delta,
        ).finished,
        _ => false,
    }
}

/// The sun that a plant makes: it starts where the plant stands and floats
/// up.
pub open spec fn sun_of(plant: Plant) -> Sun {
    Sun { pos: WorldPos::centre_of(plant.common.tile), move_up: true, dying: None }
}

/// The suns that the first `n` plants make in a tick of `delta`, in the order
/// of the plants.
pub open spec fn harvest(plants: Seq<Plant>, n: nat, delta: u32) -> Seq<Sun>
    decreases n,
{
    if n == 0 {
        Seq::empty()
    } else if produces(plants[n - 1], delta) {
        harvest(plants, (n - 1) as nat, delta).push(sun_of(plants[n - 1]))
    } else {
        harvest(plants, (n - 1) as nat, delta)
    }
}

/// Lets the sunflowers make suns: the timer of each live sunflower is moved
/// on, and one whose time is up makes a sun.
pub fn sunflow_gen_sun(garden: &mut Garden, suns: &mut Vec<Sun>, delta: u32)
    requires
        old(garden).wf(),
    ensures
        final(garden).wf(),
        final(garden).plants@.len() == old(garden).plants@.len(),
        forall|i: int|
            0 <= i < old(garden).plants@.len() ==> #[trigger] final(garden).plants[i] == ripened(
                old(garden).plants[i],
                delta,
            ),
        final(garden).land == old(garden).land,
        final(garden).next_id == old(garden).next_id,
        final(suns)@ == old(suns)@ + harvest(old(garden).plants@, old(garden).plants@.len(), delta),
{
    let count = garden.plants.len();
    let mut i: usize = 0;
    while i < count
        invariant
            i <= count,
            count == garden.plants.len(),
            count == old(garden).plants.len(),
            garden.wf(),
            forall|k: int|
                0 <= k < i ==> #[trigger] garden.plants[k] == ripened(old(garden).plants[k], delta),
            forall|k: int| i <= k < count ==> garden.plants[k] == old(garden).plants[k],
            garden.land == old(garden).land,
            garden.next_id == old(garden).next_id,
            suns@ == old(suns)@ + harvest(old(garden).plants@, i as nat, delta),
        decreases count - i,
    {
        let plant = garden.plants[i];
        match plant.kind {
            PlantKind::Sunflower(flower) => {
                if plant.player.dying.is_none() {
                    let mut timer = flower.produce_timer;
                    timer.tick(delta);
                    garden.set_kind(i, PlantKind::Sunflower(Sunflower { produce_timer: timer }));
                    if timer.finished() {
                        suns.push(
                            Sun {
                                pos: WorldPos::tile_centre(plant.common.tile),
                                move_up: true,
                                dying: None,
                            },
                        );
                    }
                }
            },
            _ => {},
        }
        i = i + 1;
    }
}

/// A sun after a tick of `delta`: a dying one stays as it is; a live one
/// drifts up or down, and is marked as dying if that takes it out of the
/// field.
pub open spec fn drifted(sun: Sun, delta: u32) -> Sun {
    let y = if sun.move_up {
        sun.pos.y + SUN_SPEED * delta
    } else {
        sun.pos.y - SUN_SPEED * delta
    };
    if sun.dying is Some {
        sun
    } else {
        Sun {
            pos: WorldPos { x: sun.pos.x, y: y as i64 },
            move_up: sun.move_up,
            dying: if y >= SUN_LIMIT_Y || y <= -SUN_LIMIT_Y {
                Some(Dying)
            } else {
                None
            },
        }
    }
}

/// Moves the suns: see [`drifted`].
pub fn move_sun(suns: &mut Vec<Sun>, delta: u32)
    requires
        forall|i: int|
            0 <= i < old(suns).len() ==> i64::MIN <= (#[trigger] old(suns)[i]).pos.y - SUN_SPEED * delta
                && old(suns)[i].pos.y + SUN_SPEED * delta <= i64::MAX,
    ensures
        final(suns).len() == old(suns).len(),
        forall|i: int| 0 <= i < old(suns).len() ==> #[trigger] final(suns)[i] == drifted(old(suns)[i], delta),
{
    let count = suns.len();
    let mut i: usize = 0;
    while i < count
        invariant
            i <= count,
            count == suns.len(),
            count == old(suns).len(),
            forall|k: int| 0 <= k < i ==> #[trigger] suns[k] == drifted(old(suns)[k], delta),
            forall|k: int| i <= k < count ==> suns[k] == old(suns)[k],
            forall|k: int|
                0 <= k < count ==> i64::MIN <= (#[trigger] old(suns)[k]).pos.y - SUN_SPEED * delta && old(
                    suns,
                )[k].pos.y + SUN_SPEED * delta <= i64::MAX,
        decreases count - i,
    {
        let sun = suns[i];
        if sun.dying.is_none() {
            let speed: i64 = SUN_SPEED;
            assert(speed * delta <= 3 * 0xffff_ffff) by (nonlinear_arith)
                requires
                    speed == 3,
                    delta <= 0xffff_ffff,
            ;
            let step: i64 = speed * (delta as i64);
            let y: i64 = if sun.move_up {
                sun.pos.y + step
            } else {
                sun.pos.y - step
            };
            let dying = if y >= SUN_LIMIT_Y || y <= -SUN_LIMIT_Y {
                Some(Dying)
            } else {
                None
            };
            suns.set(i, Sun { pos: WorldPos { x: sun.pos.x, y }, move_up: sun.move_up, dying });
        }
        i = i + 1;
    }
}

/// Collects a sun: a live sun is marked as dying and its value is added to
/// the balance. A sun that is dying already is worth nothing.
pub fn collect_sun(suns: &mut Vec<Sun>, index: usize, sun_count: &mut SunCount) -> (collected: bool)
    requires
        index < old(suns).len(),
        old(sun_count).0 + SUN_VALUE <= i32::MAX,
    ensures
        collected == (old(suns)[index as int].dying is None),
        collected ==> final(suns)@ == old(suns)@.update(
            index as int,
            Sun { dying: Some(Dying), ..old(suns)[index as int] },
        ) && final(sun_count).0 == old(sun_count).0 + SUN_VALUE,
        !collected ==> final(suns)@ == old(suns)@ && final(sun_count).0 == old(sun_count).0,
{
    let sun = suns[index];
    if sun.dying.is_some() {
        return false;
    }
    suns.set(index, Sun { pos: sun.pos, move_up: sun.move_up, dying: Some(Dying) });
    sun_count.0 = sun_count.0 + SUN_VALUE;
    true
}

/// The timer of the suns from the sky.
#[derive(Clone, Copy, Debug)]
pub struct GlobalSunTimer(pub Timer);

/// The timer of the suns from the sky, at the start of a game.
pub fn init_global_sun_res() -> (timer: GlobalSunTimer)
    ensures
        timer.0 == (Timer {
            duration: SKY_SUN_INTERVAL,
            elapsed: 0,
            mode: TimerMode::Repeating,
            finished: false,
        }),
{
    GlobalSunTimer(Timer::new(SKY_SUN_INTERVAL, TimerMode::Repeating))
}

/// Calls `fastrand::i64` on the range from zero up to, and without, `limit`.
/// Taken on trust: the result is a number of that range. Which one it is
/// depends on chance, so nothing more is said of it.
#[verifier::external_body]
fn random_below(limit: i64) -> (number: i64)
    requires
        0 < limit,
    ensures
        0 <= number < limit,
{
    fastrand::i64(0..limit)
}

/// The sun from the sky that appears `offset` steps to the right of the
/// centre of tile (0, 0): it is above the land and falls down.
pub open spec fn sky_sun(offset: i64) -> Sun {
    Sun {
        pos: WorldPos { x: (offset + FIRST_TILE_X) as i64, y: (SKY_SUN_HEIGHT + FIRST_TILE_Y) as i64 },
        move_up: false,
        dying: None,
    }
}

/// Lets a sun appear in the sky, `offset` steps to the right of the centre
/// of tile (0, 0).
pub fn drop_sun(suns: &mut Vec<Sun>, offset: i64)
    requires
        0 <= offset < LAND_WIDTH,
    ensures
        final(suns)@ == old(suns)@.push(sky_sun(offset)),
{
    let pos = (GridPos { x: offset, y: SKY_SUN_HEIGHT }).to_world();
    suns.push(Sun { pos, move_up: false, dying: None });
}

/// What one step of the suns from the sky does: the timer is moved on, and
/// when its time is up a sun appears above the land, somewhere over its
/// width.
pub open spec fn sky_sun_step(before: Seq<Sun>, after: Seq<Sun>, timer_before: Timer, timer_after: Timer, delta: u32) -> bool {
    &&& timer_after == timer_before.ticked(delta)
    &&& !timer_after.finished ==> after == before
    &&& timer_after.finished ==> exists|offset: i64|
        0 <= offset < LAND_WIDTH && after == before.push(#[trigger] sky_sun(offset))
}

/// One step of the suns from the sky: see [`sky_sun_step`]. The place of a
/// new sun is picked at random.
pub fn gen_sun_from_sky(suns: &mut Vec<Sun>, gstimer: &mut GlobalSunTimer, delta: u32)
    ensures
        sky_sun_step(old(suns)@, final(suns)@, old(gstimer).0, final(gstimer).0, delta),
{
    gstimer.0.tick(delta);
    if gstimer.0.finished() {
        let offset = random_below(LAND_WIDTH);
        drop_sun(suns, offset);
    }
}

/// Every sun that a sunflower makes starts on the centre of a tile, alive,
/// and floats up.
pub proof fn lemma_harvest_starts_at_plants(plants: Seq<Plant>, n: nat, delta: u32)
    requires
        n <= plants.len(),
    ensures
        forall|k: int|
            0 <= k < harvest(plants, n, delta).len() ==> exists|tile: (i32, i32)|
                #[trigger] harvest(plants, n, delta)[k] == (Sun {
                    pos: #[trigger] WorldPos::centre_of(tile),
                    move_up: true,
                    dying: None,
                }),
    decreases n,
{
    if n > 0 {
        lemma_harvest_starts_at_plants(plants, (n - 1) as nat, delta);
        let before = harvest(plants, (n - 1) as nat, delta);
        let all = harvest(plants, n, delta);
        assert forall|k: int| 0 <= k < all.len() implies exists|tile: (i32, i32)|
            #[trigger] all[k] == (Sun {
                pos: #[trigger] WorldPos::centre_of(tile),
                move_up: true,
                dying: None,
            }) by {
            if k < before.len() {
                assert(all[k] == before[k]);
            } else {
                assert(all[k] == sun_of(plants[n - 1]));
                assert(all[k] == (Sun {
                    pos: WorldPos::centre_of(plants[n - 1].common.tile),
                    move_up: true,
                    dying: None,
                }));
            }
        }
    }
}

} // verus!
