//! The peashooter: a plant that shoots at the zombies of its row.

use crate::land::{GridPos, OccupancyError, WorldPos, LAND_ROWS};
use crate::plants::{tended, Garden, GardenOp, Plant, PlantKind};
use crate::player::Dying;
use crate::timer::{Timer, TimerMode};
use crate::zombies::{find_zombie, index_of_zombie, row_clear, row_of, struck, Horde, Zombie};
use vstd::prelude::*;

verus! {

/// Health of a peashooter: 100 points.
pub const PEASHOOTER_HEALTH: i64 = 10000;

/// Time between two shots, in milliseconds.
pub const SHOOT_INTERVAL: u64 = 2000;

/// How far a bullet flies in a millisecond, in steps: one world unit in a
/// millisecond and a half.
pub const BULLET_SPEED: u16 = 200;

/// A bullet that has come this far to the right has left the field: 814
/// world units.
pub const BULLET_LIMIT_X: i64 = 244200;

/// A bullet hits a zombie that is nearer to it than this: 10 world units.
pub const BULLET_RADIUS: i64 = 3000;

/// What a hit takes from a zombie's health: 10 points.
pub const BULLET_DAMAGE: u32 = 1000;

/// What a peashooter has of its own.
#[derive(Clone, Copy, Debug)]
pub struct Peashooter {
    pub shoot_timer: Timer,
}

impl Peashooter {
    /// Plants a peashooter on the tile of `pos`.
    pub fn create(pos: GridPos, garden: &mut Garden, now: u64) -> (planted: Result<u64, OccupancyError>)
        requires
            old(garden).wf(),
            old(garden).next_id < u64::MAX,
        ensures
            final(garden).wf(),
            final(garden)@ == tended(
                old(garden)@,
                GardenOp::Add {
                    name: "Peashooter",
                    health: PEASHOOTER_HEALTH,
                    kind: PlantKind::Peashooter(
                        Peashooter { shoot_timer: Timer::new(SHOOT_INTERVAL, TimerMode::Repeating) },
                    ),
                    tile: pos.tile(),
                    now,
                },
            ),
            planted == (if old(garden).land.occupant(pos.tile()) is None {
                Ok::<u64, OccupancyError>(old(garden).next_id)
            } else {
                Err::<u64, OccupancyError>(OccupancyError::TileOccupied)
            }),
    {
        let kind = PlantKind::Peashooter(
            Peashooter { shoot_timer: Timer::new(SHOOT_INTERVAL, TimerMode::Repeating) },
        );
        garden.plant("Peashooter", PEASHOOTER_HEALTH, kind, pos, now)
    }
}

/// A pea in flight.
#[derive(Clone, Copy, Debug)]
pub struct Bullet {
    pub pos: WorldPos,
    /// Steps to the right per millisecond.
    pub velocity: u16,
    /// Set when the bullet has hit a zombie or left the field.
    pub dying: Option<Dying>,
}

/// A plant after its peashooter's timer, if it has one and is alive, was
/// moved on by `delta`.
pub open spec fn reloaded(plant: Plant, delta: u32) -> Plant {
    match plant.kind {
        PlantKind::Peashooter(shooter) => if plant.player.dying is None {
            Plant {
                kind: PlantKind::Peashooter(Peashooter { shoot_timer: shooter.shoot_timer.ticked(delta) }),
                ..plant
            }
        } else {
            plant
        },
        _ => plant,
    }
}

/// Whether a plant shoots in a tick of `delta`: it is a live peashooter
/// whose timer runs out in this tick, and a zombie of its row is on the land.
pub open spec fn fires(plant: Plant, delta: u32, rows: Seq<Seq<u64>>, zombies: Seq<Zombie>) -> bool {
    match plant.kind {
        PlantKind::Peashooter(shooter) => plant.player.dying is None && shooter.shoot_timer.ticked(
            delta,
        ).finished && !row_clear(row_of(rows, plant.common.tile.1 as int), zombies),
        _ => false,
    }
}

/// The bullet that a plant shoots: it starts where the plant stands.
pub open spec fn bullet_of(plant: Plant) -> Bullet {
    Bullet { pos: WorldPos::centre_of(plant.common.tile), velocity: BULLET_SPEED, dying: None }
}

/// The bullets that the first `n` plants shoot in a tick of `delta`, in the
/// order of the plants.
pub open spec fn shots(plants: Seq<Plant>, n: nat, delta: u32, rows: Seq<Seq<u64>>, zombies: Seq<Zombie>) -> Seq<Bullet>
    decreases n,
{
    if n == 0 {
        Seq::empty()
    } else if fires(plants[n - 1], delta, rows, zombies) {
        shots(plants, (n - 1) as nat, delta, rows, zombies).push(bullet_of(plants[n - 1]))
    } else {
        shots(plants, (n - 1) as nat, delta, rows, zombies)
    }
}

/// Lets the peashooters shoot: the timer of each live peashooter is moved
/// on, and one whose time is up shoots a bullet if a zombie of its row is on
/// the land.
pub fn shoot(garden: &mut Garden, bullets: &mut Vec<Bullet>, horde: &Horde, delta: u32)
    requires
        old(garden).wf(),
        horde.wf(),
    ensures
        final(garden).wf(),
        final(garden).plants@.len() == old(garden).plants@.len(),
        forall|i: int|
            0 <= i < old(garden).plants@.len() ==> #[trigger] final(garden).plants[i] == reloaded(
                old(garden).plants[i],
                delta,
            ),
        final(garden).land == old(garden).land,
        final(garden).next_id == old(garden).next_id,
        final(bullets)@ == old(bullets)@ + shots(
            old(garden).plants@,
            old(garden).plants@.len(),
            delta,
            horde.land@,
            horde.zombies@,
        ),
{
    let count = garden.plants.len();
    let mut i: usize = 0;
    while i < count
        invariant
            i <= count,
            count == garden.plants.len(),
            count == old(garden).plants.len(),
            garden.wf(),
            horde.wf(),
            forall|k: int|
                0 <= k < i ==> #[trigger] garden.plants[k] == reloaded(old(garden).plants[k], delta),
            forall|k: int| i <= k < count ==> garden.plants[k] == old(garden).plants[k],
            garden.land == old(garden).land,
            garden.next_id == old(garden).next_id,
            bullets@ == old(bullets)@ + shots(
                old(garden).plants@,
                i as nat,
                delta,
                horde.land@,
                horde.zombies@,
            ),
        decreases count - i,
    {
        let plant = garden.plants[i];
        match plant.kind {
            PlantKind::Peashooter(shooter) => {
                if plant.player.dying.is_none() {
                    let mut timer = shooter.shoot_timer;
                    timer.tick(delta);
                    garden.set_kind(i, PlantKind::Peashooter(Peashooter { shoot_timer: timer }));
                    if timer.finished() {
                        let row = plant.common.tile.1;
                        assert(horde.land.row(row as int) == row_of(horde.land@, row as int));
                        let clear = if row < 0 {
                            true
                        } else {
                            proof {
                                assert forall|k: int|
                                    0 <= k < horde.land.row(row as int).len() implies crate::zombies::listed(
                                    horde.zombies@,
                                    #[trigger] horde.land.row(row as int)[k],
                                ) by {
                                    assert(horde.enrolled(horde.land.row(row as int)[k], row as int));
                                }
                            }
                            horde.land.is_empty(row as usize, &horde.zombies)
                        };
                        if !clear {
                            bullets.push(
                                Bullet {
                                    pos: WorldPos::tile_centre(plant.common.tile),
                                    velocity: BULLET_SPEED,
                                    dying: None,
                                },
                            );
                        }
                    }
                }
            },
            _ => {},
        }
        i = i + 1;
    }
}

/// Whether two points are nearer to each other than [`BULLET_RADIUS`].
pub open spec fn close(a: WorldPos, b: WorldPos) -> bool {
    (a.x - b.x) * (a.x - b.x) + (a.y - b.y) * (a.y - b.y) < BULLET_RADIUS * BULLET_RADIUS
}

/// Executable [`close`].
pub fn is_close(a: WorldPos, b: WorldPos) -> (near: bool)
    ensures
        near == close(a, b),
{
    let dx: i128 = a.x as i128 - b.x as i128;
    let dy: i128 = a.y as i128 - b.y as i128;
    let radius: i128 = BULLET_RADIUS as i128;
    if dx >= radius || dx <= -radius || dy >= radius || dy <= -radius {
        assert(dx * dx >= 3000 * 3000 || dy * dy >= 3000 * 3000) by (nonlinear_arith)
            requires
                dx >= 3000 || dx <= -3000 || dy >= 3000 || dy <= -3000,
        ;
        assert(dx * dx >= 0 && dy * dy >= 0) by (nonlinear_arith);
        false
    } else {
        assert(0 <= dx * dx <= 3000 * 3000 && 0 <= dy * dy <= 3000 * 3000) by (nonlinear_arith)
            requires
                -3000 < dx < 3000,
                -3000 < dy < 3000,
        ;
        dx * dx + dy * dy < radius * radius
    }
}

/// Whether the zombie recorded at place `k` of a row is the first of the row
/// that is near `pos`.
pub open spec fn hit_at(list: Seq<u64>, zombies: Seq<Zombie>, pos: WorldPos, k: int) -> bool {
    &&& 0 <= k < list.len()
    &&& close(pos, zombies[index_of_zombie(zombies, list[k])].pos)
    &&& forall|j: int|
        0 <= j < k ==> !close(pos, zombies[index_of_zombie(zombies, #[trigger] list[j])].pos)
}

/// The place in a row of the zombie that a bullet at `pos` hits: the first
/// that is near. None if no zombie of the row is near.
pub open spec fn target_of(list: Seq<u64>, zombies: Seq<Zombie>, pos: WorldPos) -> Option<int> {
    if exists|k: int| hit_at(list, zombies, pos, k) {
        Some(choose|k: int| hit_at(list, zombies, pos, k))
    } else {
        None
    }
}

/// Where the record of the zombie is kept that a bullet at `pos` hits: the
/// first zombie of the bullet's row that is near. None if no zombie of the
/// row is near.
pub open spec fn victim(rows: Seq<Seq<u64>>, zombies: Seq<Zombie>, pos: WorldPos) -> Option<int> {
    let list = row_of(rows, pos.tile().1 as int);
    match target_of(list, zombies, pos) {
        Some(k) => Some(index_of_zombie(zombies, list[k])),
        None => None,
    }
}

/// What the bullets' flights read and change: the bullets, the zombies, and
/// the records of the rows.
pub struct Range {
    pub bullets: Seq<Bullet>,
    pub zombies: Seq<Zombie>,
    pub rows: Seq<Seq<u64>>,
}

/// Where a bullet is after `delta` milliseconds of flight.
pub open spec fn flown(bullet: Bullet, delta: u32) -> WorldPos {
    WorldPos { x: (bullet.pos.x + bullet.velocity * delta) as i64, y: bullet.pos.y }
}

/// The range after bullet `i` flew for `delta` milliseconds.
///
/// A dying bullet does nothing. A live one moves to the right. If that takes
/// it out of the field, it is marked as dying. If not, the zombies of its
/// row are tried in the order of their records: the first that is near takes
/// a blow of [`BULLET_DAMAGE`], which ends the bullet too; the others are
/// not touched.
pub open spec fn after_flight(range: Range, i: int, delta: u32) -> Range {
    let bullet = range.bullets[i];
    let pos = flown(bullet, delta);
    if bullet.dying is Some {
        range
    } else if pos.x >= BULLET_LIMIT_X {
        Range {
            bullets: range.bullets.update(i, Bullet { pos, dying: Some(Dying), ..bullet }),
            ..range
        }
    } else {
        match victim(range.rows, range.zombies, pos) {
            Some(index) => {
                let (zombies, rows) = struck(range.zombies, range.rows, index, BULLET_DAMAGE);
                Range {
                    bullets: range.bullets.update(i, Bullet { pos, dying: Some(Dying), ..bullet }),
                    zombies,
                    rows,
                }
            },
            None => Range { bullets: range.bullets.update(i, Bullet { pos, ..bullet }), ..range },
        }
    }
}

/// The range after the first `n` bullets flew, in order.
pub open spec fn after_flights(range: Range, n: nat, delta: u32) -> Range
    decreases n,
{
    if n == 0 {
        range
    } else {
        after_flight(after_flights(range, (n - 1) as nat, delta), n - 1, delta)
    }
}

/// Finds the zombie that a bullet at `pos` hits: where its record is kept.
pub fn find_target(horde: &Horde, pos: WorldPos) -> (target: Option<usize>)
    requires
        horde.wf(),
    ensures
        match target {
            Some(index) => victim(horde.land@, horde.zombies@, pos) == Some(index as int) && index
                < horde.zombies.len() && horde.zombies[index as int].player.dying is None,
            None => victim(horde.land@, horde.zombies@, pos) is None,
        },
{
    let row = pos.to_tile().1;
    if row < 0 || row as usize >= horde.land.rows.len() {
        return None;
    }
    let list = &horde.land.rows[row as usize];
    assert(list@ == row_of(horde.land@, row as int));
    assert(list@ == horde.land.row(row as int));
    let mut k: usize = 0;
    while k < list.len()
        invariant
            k <= list.len(),
            horde.wf(),
            0 <= row < LAND_ROWS,
            row == pos.tile().1,
            list@ == row_of(horde.land@, row as int),
            list@ == horde.land.row(row as int),
            forall|j: int|
                0 <= j < k ==> !close(pos, horde.zombies[index_of_zombie(horde.zombies@, #[trigger] list[j])].pos),
        decreases list.len() - k,
    {
        let id = list[k];
        assert(horde.enrolled(horde.land.row(row as int)[k as int], row as int));
        match find_zombie(&horde.zombies, id) {
            Some(index) => {
                assert(index == index_of_zombie(horde.zombies@, id));
                if is_close(pos, horde.zombies[index].pos) {
                    assert(hit_at(list@, horde.zombies@, pos, k as int));
                    assert forall|n: int| hit_at(list@, horde.zombies@, pos, n) implies n == k by {
                        if n < k {
                            assert(!close(pos, horde.zombies[index_of_zombie(horde.zombies@, list[n])].pos));
                        }
                    }
                    let ghost chosen = choose|n: int| hit_at(list@, horde.zombies@, pos, n);
                    assert(hit_at(list@, horde.zombies@, pos, chosen));
                    assert(chosen == k);
                    assert(target_of(list@, horde.zombies@, pos) == Some(k as int));
                    assert(pos.tile().1 == row);
                    let ghost alive = choose|n: int|
                        0 <= n < horde.zombies.len() && #[trigger] horde.zombies[n].id == id
                            && horde.zombies[n].player.dying is None && horde.zombies[n].row() == row;
                    assert(alive == index);
                    return Some(index);
                }
            },
            None => {},
        }
        k = k + 1;
    }
    None
}

/// Moves the bullets and lets them hit: each bullet flies in its turn, in
/// the order of the records (see [`after_flight`]). A zombie that dies of a
/// hit leaves the index at once, so no later bullet hits it.
pub fn move_bullet(bullets: &mut Vec<Bullet>, horde: &mut Horde, delta: u32)
    requires
        old(horde).wf(),
        forall|i: int|
            0 <= i < old(bullets).len() ==> (#[trigger] old(bullets)[i]).pos.x + old(bullets)[i].velocity
                * delta <= i64::MAX,
    ensures
        final(horde).wf(),
        (Range { bullets: final(bullets)@, zombies: final(horde).zombies@, rows: final(horde).land@ })
            == after_flights(
            Range { bullets: old(bullets)@, zombies: old(horde).zombies@, rows: old(horde).land@ },
            old(bullets)@.len(),
            delta,
        ),
        final(horde).next_id == old(horde).next_id,
        final(bullets)@.len() == old(bullets)@.len(),
        forall|i: int|
            0 <= i < final(bullets)@.len() && (#[trigger] final(bullets)[i]).dying is None
                && old(bullets)[i].dying is None ==> final(bullets)[i].pos.x < BULLET_LIMIT_X,
        final(horde).zombies@.len() == old(horde).zombies@.len(),
        forall|i: int|
            0 <= i < old(horde).zombies@.len() ==> (#[trigger] final(horde).zombies[i]).pos
                == old(horde).zombies[i].pos && (final(horde).zombies[i].player.dying is None
                ==> old(horde).zombies[i].player.dying is None),
{
    let ghost start = Range { bullets: bullets@, zombies: horde.zombies@, rows: horde.land@ };
    let count = bullets.len();
    let mut i: usize = 0;
    while i < count
        invariant
            i <= count,
            count == bullets.len(),
            count == start.bullets.len(),
            horde.wf(),
            (Range { bullets: bullets@, zombies: horde.zombies@, rows: horde.land@ }) == after_flights(
                start,
                i as nat,
                delta,
            ),
            forall|k: int| i <= k < count ==> bullets[k] == start.bullets[k],
            forall|k: int|
                0 <= k < count ==> (#[trigger] start.bullets[k]).pos.x + start.bullets[k].velocity * delta
                    <= i64::MAX,
            forall|k: int|
                0 <= k < i && (#[trigger] bullets[k]).dying is None ==> bullets[k].pos.x < BULLET_LIMIT_X
                    || start.bullets[k].dying is Some,
            horde.zombies@.len() == start.zombies.len(),
            forall|k: int|
                0 <= k < start.zombies.len() ==> (#[trigger] horde.zombies[k]).pos == start.zombies[k].pos
                    && (horde.zombies[k].player.dying is None ==> start.zombies[k].player.dying is None),
            horde.next_id == old(horde).next_id,
        decreases count - i,
    {
        let bullet = bullets[i];
        assert(bullet == start.bullets[i as int]);
        if bullet.dying.is_none() {
            assert(bullet.velocity * delta >= 0) by (nonlinear_arith)
                requires
                    bullet.velocity >= 0,
                    delta >= 0,
            ;
            assert(bullet.velocity * delta <= 0xffff * 0xffff_ffff) by (nonlinear_arith)
                requires
                    0 <= bullet.velocity <= 0xffff,
                    0 <= delta <= 0xffff_ffff,
            ;
            let step: i64 = (bullet.velocity as i64) * (delta as i64);
            let pos = WorldPos { x: bullet.pos.x + step, y: bullet.pos.y };
            assert(pos == flown(bullet, delta));
            if pos.x >= BULLET_LIMIT_X {
                bullets.set(i, Bullet { pos, velocity: bullet.velocity, dying: Some(Dying) });
            } else {
                match find_target(horde, pos) {
                    Some(index) => {
                        let _ = horde.hurt(index, BULLET_DAMAGE);
                        bullets.set(i, Bullet { pos, velocity: bullet.velocity, dying: Some(Dying) });
                    },
                    None => {
                        bullets.set(i, Bullet { pos, velocity: bullet.velocity, dying: None });
                    },
                }
            }
        }
        i = i + 1;
    }
}

/// Every bullet that is shot starts on the centre of a tile, alive.
pub proof fn lemma_shots_start_at_plants(plants: Seq<Plant>, n: nat, delta: u32, rows: Seq<Seq<u64>>, zombies: Seq<Zombie>)
    requires
        n <= plants.len(),
    ensures
        forall|k: int|
            0 <= k < shots(plants, n, delta, rows, zombies).len() ==> exists|tile: (i32, i32)|
                #[trigger] shots(plants, n, delta, rows, zombies)[k] == (Bullet {
                    pos: #[trigger] WorldPos::centre_of(tile),
                    velocity: BULLET_SPEED,
                    dying: None,
                }),
    decreases n,
{
    if n > 0 {
        lemma_shots_start_at_plants(plants, (n - 1) as nat, delta, rows, zombies);
        let before = shots(plants, (n - 1) as nat, delta, rows, zombies);
        let all = shots(plants, n, delta, rows, zombies);
        assert forall|k: int| 0 <= k < all.len() implies exists|tile: (i32, i32)|
            #[trigger] all[k] == (Bullet {
                pos: #[trigger] WorldPos::centre_of(tile),
                velocity: BULLET_SPEED,
                dying: None,
            }) by {
            if k < before.len() {
                assert(all[k] == before[k]);
            } else {
                assert(all[k] == bullet_of(plants[n - 1]));
                assert(all[k] == (Bullet {
                    pos: WorldPos::centre_of(plants[n - 1].common.tile),
                    velocity: BULLET_SPEED,
                    dying: None,
                }));
            }
        }
    }
}

} // verus!
