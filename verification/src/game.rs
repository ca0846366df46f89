//! The game as a whole: every part of the simulation in one value, the
//! events that come from outside, and the tick that moves it all on.

use crate::land::{
    clamp_i32, lemma_round_div_is_nearest, lemma_tile_round_trip, round_div, WorldPos, FIRST_TILE_X,
    LAND_LEFT_EDGE_X, LAND_TILE_WIDTH,
};
use crate::plants::peashooter::{
    after_flights, lemma_shots_start_at_plants, move_bullet, reloaded, shoot, shots, Bullet, Range,
    BULLET_LIMIT_X,
};
use crate::plants::sunflower::{
    collect_sun, drifted, gen_sun_from_sky, harvest, init_global_sun_res,
    lemma_harvest_starts_at_plants, move_sun, ripened, sky_sun_step, sunflow_gen_sun, GlobalSunTimer,
    Sun, SKY_SUN_INTERVAL, SUN_VALUE,
};
use crate::plants::{Garden, Plant};
use crate::player::dead_cleaner;
use crate::timer::{Timer, TimerMode};
use crate::toolbar::{
    cooled, fresh_item, repriced, setup_suncount, PlantType, SunCount, Toolbar, ToolbarItem,
    INITIAL_SUNS,
};
use crate::zombies::create_zombie::{
    create_zombie_randomly, same_horde, scheduled, ZombieCreateTimer, INITIAL_INTERVAL,
};
use crate::zombies::jumping_zombie::{jump_over_first_plant, jumped};
use crate::zombies::{after_turns, move_zombies, overrun_by, Field, Horde, Zombie, ZOMBIE_SPEED};
use crate::GameState;
use vstd::prelude::*;

verus! {

/// The bullets that are not dying, in their order.
pub open spec fn flying(bullets: Seq<Bullet>) -> Seq<Bullet>
    decreases bullets.len(),
{
    if bullets.len() == 0 {
        Seq::empty()
    } else if bullets.last().dying is None {
        flying(bullets.drop_last()).push(bullets.last())
    } else {
        flying(bullets.drop_last())
    }
}

/// The suns that are not dying, in their order.
pub open spec fn shining(suns: Seq<Sun>) -> Seq<Sun>
    decreases suns.len(),
{
    if suns.len() == 0 {
        Seq::empty()
    } else if suns.last().dying is None {
        shining(suns.drop_last()).push(suns.last())
    } else {
        shining(suns.drop_last())
    }
}

/// Drops the bullets and suns that are marked as dying.
pub fn remove_dying(bullets: &mut Vec<Bullet>, suns: &mut Vec<Sun>)
    ensures
        final(bullets)@ == flying(old(bullets)@),
        final(suns)@ == shining(old(suns)@),
        forall|i: int|
            0 <= i < final(bullets).len() ==> (#[trigger] final(bullets)[i]).dying is None && old(bullets)@.contains(final(bullets)[i]),
        forall|i: int|
            0 <= i < final(suns).len() ==> (#[trigger] final(suns)[i]).dying is None && old(suns)@.contains(
                final(suns)[i],
            ),
{
    let mut kept_bullets: Vec<Bullet> = Vec::new();
    let mut i: usize = 0;
    while i < bullets.len()
        invariant
            i <= bullets.len(),
            *bullets == *old(bullets),
            kept_bullets@ == flying(bullets@.take(i as int)),
            forall|k: int|
                0 <= k < kept_bullets.len() ==> (#[trigger] kept_bullets[k]).dying is None
                    && bullets@.contains(kept_bullets[k]),
        decreases bullets.len() - i,
    {
        let bullet = bullets[i];
        assert(bullets@.take(i + 1).drop_last() =~= bullets@.take(i as int));
        assert(bullets@.take(i + 1).last() == bullet);
        if bullet.dying.is_none() {
            kept_bullets.push(bullet);
            assert(bullets@[i as int] == bullet);
        }
        i = i + 1;
    }
    assert(bullets@.take(bullets.len() as int) =~= bullets@);
    *bullets = kept_bullets;
    let mut kept_suns: Vec<Sun> = Vec::new();
    let mut j: usize = 0;
    while j < suns.len()
        invariant
            j <= suns.len(),
            *suns == *old(suns),
            kept_suns@ == shining(suns@.take(j as int)),
            forall|k: int|
                0 <= k < kept_suns.len() ==> (#[trigger] kept_suns[k]).dying is None && suns@.contains(
                    kept_suns[k],
                ),
        decreases suns.len() - j,
    {
        let sun = suns[j];
        assert(suns@.take(j + 1).drop_last() =~= suns@.take(j as int));
        assert(suns@.take(j + 1).last() == sun);
        if sun.dying.is_none() {
            kept_suns.push(sun);
            assert(suns@[j as int] == sun);
        }
        j = j + 1;
    }
    assert(suns@.take(suns.len() as int) =~= suns@);
    *suns = kept_suns;
}

/// No coordinate of a bullet or a sun at rest is farther from zero than this.
pub const COORD_LIMIT: i64 = 0x4000_0000_0000_0000;

/// No zombie is farther to the left than this.
pub const ZOMBIE_FLOOR_X: i64 = -0x100_0000_0000;

/// A whole game.
pub struct Game {
    pub state: GameState,
    /// Milliseconds of game time at the last tick.
    pub elapsed: u64,
    pub garden: Garden,
    pub horde: Horde,
    pub bullets: Vec<Bullet>,
    pub suns: Vec<Sun>,
    pub sun_count: SunCount,
    pub toolbar: Toolbar,
    pub create_timer: ZombieCreateTimer,
    pub sun_timer: GlobalSunTimer,
}

impl Game {
    /// What holds of a game between two ticks.
    ///
    /// The parts are well formed each; no plant, zombie or bullet is dying
    /// (the dead are cleared away at the end of each tick); until the game
    /// has ended no zombie has passed the left edge of the land; the cards
    /// know whether the balance is enough for them, and the card that is
    /// held, if any, can be paid for.
    pub open spec fn wf(self) -> bool {
        &&& self.garden.wf()
        &&& self.horde.wf()
        &&& self.toolbar.wf()
        &&& forall|i: int|
            0 <= i < self.garden.plants.len() ==> (#[trigger] self.garden.plants[i]).player.dying is None
        &&& forall|i: int|
            0 <= i < self.horde.zombies.len() ==> {
                &&& (#[trigger] self.horde.zombies[i]).player.dying is None
                &&& self.horde.zombies[i].pos.x >= ZOMBIE_FLOOR_X
                &&& !(self.state is End) ==> self.horde.zombies[i].pos.x >= LAND_LEFT_EDGE_X
            }
        &&& forall|i: int|
            0 <= i < self.bullets.len() ==> (#[trigger] self.bullets[i]).dying is None
                && self.bullets[i].pos.x <= COORD_LIMIT
        &&& forall|i: int|
            0 <= i < self.suns.len() ==> -COORD_LIMIT <= (#[trigger] self.suns[i]).pos.y <= COORD_LIMIT
        &&& forall|i: int|
            0 <= i < self.toolbar.items.len() ==> (#[trigger] self.toolbar.items[i]).plant.price >= 0
        &&& self.toolbar.priced(self.sun_count.0)
        &&& self.toolbar.armed is Some ==> self.toolbar.items[self.toolbar.armed.unwrap() as int].plant.price
            <= self.sun_count.0
    }

    /// A game that waits for its start: an empty lawn, the toolbar with its
    /// three cards, and the first suns.
    pub fn new() -> (game: Game)
        ensures
            game.wf(),
            game.state == GameState::WaitForStart,
            game.elapsed == 0,
            game.garden.plants@.len() == 0,
            game.garden.land.bare(),
            game.garden.next_id == 0,
            game.horde.zombies@.len() == 0,
            forall|r: int| game.horde.land.row(r).len() == 0,
            game.horde.next_id == 0,
            game.bullets@.len() == 0,
            game.suns@.len() == 0,
            game.sun_count.0 == INITIAL_SUNS,
            game.toolbar.armed is None,
            game.toolbar.items@ == seq![
                repriced(fresh_item(50, 5, PlantType::Sunflower), INITIAL_SUNS),
                repriced(fresh_item(100, 10, PlantType::Peashooter), INITIAL_SUNS),
                repriced(fresh_item(50, 5, PlantType::Wallnut), INITIAL_SUNS),
            ],
            game.create_timer.timer == Timer::spec_new(INITIAL_INTERVAL, TimerMode::Repeating),
            game.sun_timer.0 == Timer::spec_new(SKY_SUN_INTERVAL, TimerMode::Repeating),
    {
        let sun_count = setup_suncount();
        let mut toolbar = Toolbar::setup();
        toolbar.sun_changed(&sun_count);
        assert(toolbar.items@ =~= seq![
            repriced(fresh_item(50, 5, PlantType::Sunflower), INITIAL_SUNS),
            repriced(fresh_item(100, 10, PlantType::Peashooter), INITIAL_SUNS),
            repriced(fresh_item(50, 5, PlantType::Wallnut), INITIAL_SUNS),
        ]);
        Game {
            state: GameState::WaitForStart,
            elapsed: 0,
            garden: Garden::new(),
            horde: Horde::new(),
            bullets: Vec::new(),
            suns: Vec::new(),
            sun_count,
            toolbar,
            create_timer: crate::zombies::create_zombie::setup(),
            sun_timer: init_global_sun_res(),
        }
    }

    /// The click on the start button: a game that waits for its start is
    /// running from now on.
    pub fn start_clicked(&mut self)
        requires
            old(self).wf(),
        ensures
            final(self).wf(),
            final(self).state == (if old(self).state == GameState::WaitForStart {
                GameState::Running
            } else {
                old(self).state
            }),
            final(self).elapsed == old(self).elapsed,
            final(self).garden == old(self).garden,
            final(self).horde == old(self).horde,
            final(self).bullets == old(self).bullets,
            final(self).suns == old(self).suns,
            final(self).sun_count == old(self).sun_count,
            final(self).toolbar == old(self).toolbar,
            final(self).create_timer == old(self).create_timer,
            final(self).sun_timer == old(self).sun_timer,
    {
        match self.state {
            GameState::WaitForStart => {
                self.state = GameState::Running;
            },
            _ => {},
        }
    }

    /// The first click of a purchase, on the card `index` of the toolbar:
    /// see [`Toolbar::arm`].
    pub fn click_card(&mut self, index: usize) -> (armed: bool)
        requires
            old(self).wf(),
            index < old(self).toolbar.items.len(),
        ensures
            final(self).wf(),
            armed == (old(self).toolbar.armed is None && old(self).toolbar.items[index as int].availability.cooldown_finished
                && old(self).sun_count.0 >= old(self).toolbar.items[index as int].plant.price),
            final(self).toolbar.items@ == old(self).toolbar.items@,
            final(self).toolbar.armed == (if armed {
                Some(index)
            } else {
                old(self).toolbar.armed
            }),
            final(self).state == old(self).state,
            final(self).elapsed == old(self).elapsed,
            final(self).garden == old(self).garden,
            final(self).horde == old(self).horde,
            final(self).bullets == old(self).bullets,
            final(self).suns == old(self).suns,
            final(self).sun_count == old(self).sun_count,
            final(self).create_timer == old(self).create_timer,
            final(self).sun_timer == old(self).sun_timer,
    {
        self.toolbar.arm(index)
    }

    /// The second click of a purchase, at `pos`: see [`Toolbar::place`]. A
    /// click while no card is held does nothing.
    pub fn click_field(&mut self, pos: WorldPos) -> (planted: Option<u64>)
        requires
            old(self).wf(),
            old(self).garden.next_id < u64::MAX,
        ensures
            final(self).wf(),
            final(self).toolbar.armed is None,
            old(self).toolbar.armed is None || old(self).garden.land.occupant(pos.tile()) is Some ==> {
                &&& planted is None
                &&& final(self).sun_count == old(self).sun_count
                &&& final(self).garden.plants@ == old(self).garden.plants@
                &&& final(self).garden.land@ == old(self).garden.land@
                &&& final(self).toolbar.items@ == old(self).toolbar.items@
            },
            old(self).toolbar.armed is Some && old(self).garden.land.occupant(pos.tile()) is None ==> {
                &&& planted == Some(old(self).garden.next_id)
                &&& final(self).sun_count.0 == old(self).sun_count.0 - old(self).toolbar.items[old(self).toolbar.armed.unwrap() as int].plant.price
                &&& final(self).garden.plants@ == old(self).garden.plants@.push(
                    crate::toolbar::seedling(
                        old(self).toolbar.items[old(self).toolbar.armed.unwrap() as int].kind,
                        pos.tile(),
                        old(self).garden.next_id,
                        old(self).elapsed,
                    ),
                )
                &&& final(self).garden.land@ == old(self).garden.land@.insert(
                    pos.tile(),
                    Some(old(self).garden.next_id),
                )
            },
            final(self).state == old(self).state,
            final(self).elapsed == old(self).elapsed,
            final(self).horde == old(self).horde,
            final(self).bullets == old(self).bullets,
            final(self).suns == old(self).suns,
            final(self).create_timer == old(self).create_timer,
            final(self).sun_timer == old(self).sun_timer,
    {
        if self.toolbar.armed.is_none() {
            return None;
        }
        let planted = self.toolbar.place(&mut self.garden, &mut self.sun_count, pos, self.elapsed);
        proof {
            assert forall|i: int| 0 <= i < self.toolbar.items.len() implies (
            #[trigger] self.toolbar.items[i]).plant.price >= 0 by {
                assert(old(self).toolbar.items[i].plant.price >= 0);
            }
        }
        planted
    }

    /// The click on the sun `index`: see [`collect_sun`].
    pub fn click_sun(&mut self, index: usize) -> (collected: bool)
        requires
            old(self).wf(),
            index < old(self).suns.len(),
            old(self).sun_count.0 + SUN_VALUE <= i32::MAX,
        ensures
            final(self).wf(),
            collected == (old(self).suns[index as int].dying is None),
            final(self).sun_count.0 == (if collected {
                old(self).sun_count.0 + SUN_VALUE
            } else {
                old(self).sun_count.0 as int
            }),
            final(self).suns@.len() == old(self).suns@.len(),
            forall|i: int|
                0 <= i < old(self).suns@.len() ==> #[trigger] final(self).suns[i] == (if collected && i
                    == index {
                    Sun { dying: Some(crate::player::Dying), ..old(self).suns[i] }
                } else {
                    old(self).suns[i]
                }),
            final(self).toolbar.items@.len() == old(self).toolbar.items@.len(),
            forall|i: int|
                0 <= i < old(self).toolbar.items@.len() ==> #[trigger] final(self).toolbar.items[i]
                    == crate::toolbar::repriced(old(self).toolbar.items[i], final(self).sun_count.0),
            final(self).toolbar.armed == old(self).toolbar.armed,
            final(self).state == old(self).state,
            final(self).elapsed == old(self).elapsed,
            final(self).garden == old(self).garden,
            final(self).horde == old(self).horde,
            final(self).bullets == old(self).bullets,
            final(self).create_timer == old(self).create_timer,
            final(self).sun_timer == old(self).sun_timer,
    {
        let collected = collect_sun(&mut self.suns, index, &mut self.sun_count);
        self.toolbar.sun_changed(&self.sun_count);
        proof {
            assert forall|i: int| 0 <= i < self.toolbar.items.len() implies (
            #[trigger] self.toolbar.items[i]).plant.price >= 0 by {
                assert(old(self).toolbar.items[i].plant.price >= 0);
            }
        }
        collected
    }
}

/// What a tick reads and changes, as plain values.
pub struct Scene {
    pub state: GameState,
    pub plants: Seq<Plant>,
    pub tiles: Map<(i32, i32), Option<u64>>,
    pub zombies: Seq<Zombie>,
    pub rows: Seq<Seq<u64>>,
    pub bullets: Seq<Bullet>,
    pub suns: Seq<Sun>,
    pub items: Seq<ToolbarItem>,
}

impl View for Game {
    type V = Scene;

    open spec fn view(&self) -> Scene {
        Scene {
            state: self.state,
            plants: self.garden.plants@,
            tiles: self.garden.land@,
            zombies: self.horde.zombies@,
            rows: self.horde.land@,
            bullets: self.bullets@,
            suns: self.suns@,
            items: self.toolbar.items@,
        }
    }
}

/// The scene after `delta` milliseconds of play.
///
/// The systems run in a fixed order, each on what the one before it left:
/// the zombies walk or eat; the jumping zombies jump; the game is lost if a
/// zombie has passed the left edge of the land; the suns drift; the
/// sunflowers make suns; the peashooters shoot; the bullets fly and hit; the
/// cooldowns of the cards run; and at the end whatever is dying is dropped.
pub open spec fn advanced(scene: Scene, delta: u32) -> Scene {
    let moved = after_turns(
        Field { zombies: scene.zombies, plants: scene.plants, tiles: scene.tiles },
        scene.zombies.len(),
        delta,
    );
    let zombies = moved.zombies.map_values(|zombie: Zombie| jumped(zombie, moved.tiles));
    let state = if !(scene.state is End) && overrun_by(zombies) {
        GameState::End { win: false }
    } else {
        scene.state
    };
    let suns = scene.suns.map_values(|sun: Sun| drifted(sun, delta)) + harvest(
        moved.plants,
        moved.plants.len(),
        delta,
    );
    let ripe = moved.plants.map_values(|plant: Plant| ripened(plant, delta));
    let bullets = scene.bullets + shots(ripe, ripe.len(), delta, scene.rows, zombies);
    let plants = ripe.map_values(|plant: Plant| reloaded(plant, delta));
    let shot = after_flights(Range { bullets, zombies, rows: scene.rows }, bullets.len(), delta);
    Scene {
        state,
        plants: crate::plants::living(plants),
        tiles: moved.tiles,
        zombies: crate::zombies::living(shot.zombies),
        rows: shot.rows,
        bullets: flying(shot.bullets),
        suns: shining(suns),
        items: scene.items.map_values(|item: ToolbarItem| cooled(item, delta)),
    }
}

/// A zombie that was on the land a tick ago is in a tile whose number fits,
/// and a jump from there does not take it below the floor.
proof fn lemma_zombie_stays_above_floor(pos: WorldPos)
    requires
        pos.x >= LAND_LEFT_EDGE_X - ZOMBIE_SPEED * 0xffff_ffff,
    ensures
        pos.tile().0 > -1_000_000,
        WorldPos::centre_of(((pos.tile().0 - 1) as i32, pos.tile().1)).x >= ZOMBIE_FLOOR_X,
        pos.x >= ZOMBIE_FLOOR_X,
{
    let a = pos.x - FIRST_TILE_X;
    let q = round_div(a, LAND_TILE_WIDTH as int);
    lemma_round_div_is_nearest(a, LAND_TILE_WIDTH as int);
    if q <= -1_000_000 {
        assert(q * 24000 <= -1_000_000 * 24000) by (nonlinear_arith)
            requires
                q <= -1_000_000,
        ;
    }
    let t = clamp_i32(q);
    assert(t > -1_000_000);
    assert((t - 1) * 24000 >= -1_000_001 * 24000) by (nonlinear_arith)
        requires
            t > -1_000_000,
    ;
}

/// The centre of a tile is within the limit for coordinates.
proof fn lemma_centre_within_limit(tile: (i32, i32))
    ensures
        -COORD_LIMIT <= WorldPos::centre_of(tile).x <= COORD_LIMIT,
        -COORD_LIMIT <= WorldPos::centre_of(tile).y <= COORD_LIMIT,
{
    assert(-0x8000_0000 * 24000 <= tile.0 * 24000 <= 0x7fff_ffff * 24000) by (nonlinear_arith)
        requires
            -0x8000_0000 <= tile.0 <= 0x7fff_ffff,
    ;
    assert(-0x8000_0000 * 30000 <= tile.1 * 30000 <= 0x7fff_ffff * 30000) by (nonlinear_arith)
        requires
            -0x8000_0000 <= tile.1 <= 0x7fff_ffff,
    ;
}

/// The zombies' part of a tick: they walk or eat, the jumping ones jump, and
/// the game is lost if one of them has passed the left edge of the land.
pub fn march(horde: &mut Horde, garden: &mut Garden, state: &mut GameState, delta: u32)
    requires
        old(horde).wf(),
        old(garden).wf(),
        forall|i: int|
            0 <= i < old(horde).zombies.len() ==> (#[trigger] old(horde).zombies[i]).pos.x
                >= LAND_LEFT_EDGE_X,
    ensures
        final(horde).wf(),
        final(garden).wf(),
        final(garden).plants@ == after_turns(
            Field { zombies: old(horde).zombies@, plants: old(garden).plants@, tiles: old(garden).land@ },
            old(horde).zombies@.len(),
            delta,
        ).plants,
        final(garden).land@ == after_turns(
            Field { zombies: old(horde).zombies@, plants: old(garden).plants@, tiles: old(garden).land@ },
            old(horde).zombies@.len(),
            delta,
        ).tiles,
        final(horde).zombies@ == after_turns(
            Field { zombies: old(horde).zombies@, plants: old(garden).plants@, tiles: old(garden).land@ },
            old(horde).zombies@.len(),
            delta,
        ).zombies.map_values(|zombie: Zombie| jumped(zombie, final(garden).land@)),
        *final(state) == (if !(*old(state) is End) && overrun_by(final(horde).zombies@) {
            GameState::End { win: false }
        } else {
            *old(state)
        }),
        final(horde).land == old(horde).land,
        final(horde).next_id == old(horde).next_id,
        final(garden).next_id == old(garden).next_id,
        forall|i: int|
            0 <= i < final(horde).zombies.len() ==> (#[trigger] final(horde).zombies[i]).pos.x
                >= ZOMBIE_FLOOR_X,
{
    move_zombies(horde, garden, delta);
    let ghost moved = horde.zombies@;
    proof {
        assert forall|i: int| 0 <= i < horde.zombies.len() implies (#[trigger] horde.zombies[i]).pos.tile().0
            > i32::MIN by {
            assert(old(horde).zombies[i].pos.x >= LAND_LEFT_EDGE_X);
            assert(ZOMBIE_SPEED * delta <= ZOMBIE_SPEED * 0xffff_ffff) by (nonlinear_arith)
                requires
                    delta <= 0xffff_ffff,
            ;
            lemma_zombie_stays_above_floor(horde.zombies[i].pos);
        }
    }
    jump_over_first_plant(horde, &garden.land);
    proof {
        assert(horde.zombies@ =~= moved.map_values(|zombie: Zombie| jumped(zombie, garden.land@)));
        assert forall|i: int| 0 <= i < horde.zombies.len() implies (#[trigger] horde.zombies[i]).pos.x
            >= ZOMBIE_FLOOR_X by {
            assert(old(horde).zombies[i].pos.x >= LAND_LEFT_EDGE_X);
            assert(ZOMBIE_SPEED * delta <= ZOMBIE_SPEED * 0xffff_ffff) by (nonlinear_arith)
                requires
                    delta <= 0xffff_ffff,
            ;
            lemma_zombie_stays_above_floor(moved[i].pos);
            assert(horde.zombies[i] == jumped(moved[i], garden.land@));
        }
    }
    let ended = match *state {
        GameState::End { win: _ } => true,
        _ => false,
    };
    if !ended && horde.overrun() {
        *state = GameState::End { win: false };
    }
}

/// The plants' part of a tick: the suns drift, the sunflowers make suns, and
/// the peashooters shoot.
pub fn grow(garden: &mut Garden, suns: &mut Vec<Sun>, bullets: &mut Vec<Bullet>, horde: &Horde, delta: u32)
    requires
        old(garden).wf(),
        horde.wf(),
        forall|i: int|
            0 <= i < old(suns).len() ==> -COORD_LIMIT <= (#[trigger] old(suns)[i]).pos.y <= COORD_LIMIT,
        forall|i: int|
            0 <= i < old(bullets).len() ==> (#[trigger] old(bullets)[i]).dying is None && old(bullets)[i].pos.x <= COORD_LIMIT,
    ensures
        final(garden).wf(),
        final(suns)@ == old(suns)@.map_values(|sun: Sun| drifted(sun, delta)) + harvest(
            old(garden).plants@,
            old(garden).plants@.len(),
            delta,
        ),
        final(garden).plants@ == old(garden).plants@.map_values(|plant: Plant| ripened(plant, delta)).map_values(
            |plant: Plant| reloaded(plant, delta),
        ),
        final(bullets)@ == old(bullets)@ + shots(
            old(garden).plants@.map_values(|plant: Plant| ripened(plant, delta)),
            old(garden).plants@.len(),
            delta,
            horde.land@,
            horde.zombies@,
        ),
        final(garden).land == old(garden).land,
        final(garden).next_id == old(garden).next_id,
        forall|i: int|
            0 <= i < final(suns).len() && (#[trigger] final(suns)[i]).dying is None ==> -COORD_LIMIT
                <= final(suns)[i].pos.y <= COORD_LIMIT,
        forall|i: int|
            0 <= i < final(bullets).len() ==> (#[trigger] final(bullets)[i]).dying is None && final(bullets)[i].pos.x <= COORD_LIMIT,
{
    move_sun(suns, delta);
    let ghost drifting = suns@;
    assert(drifting =~= old(suns)@.map_values(|sun: Sun| drifted(sun, delta)));
    sunflow_gen_sun(garden, suns, delta);
    let ghost ripe = garden.plants@;
    assert(ripe =~= old(garden).plants@.map_values(|plant: Plant| ripened(plant, delta)));
    proof {
        let harvested = harvest(old(garden).plants@, old(garden).plants@.len(), delta);
        lemma_harvest_starts_at_plants(old(garden).plants@, old(garden).plants@.len(), delta);
        assert forall|i: int| 0 <= i < suns.len() && (#[trigger] suns[i]).dying is None implies -COORD_LIMIT
            <= suns[i].pos.y <= COORD_LIMIT by {
            if i < drifting.len() {
                assert(suns[i] == drifting[i]);
                assert(drifting[i] == drifted(old(suns)[i], delta));
            } else {
                assert(suns[i] == harvested[i - drifting.len()]);
                let tile = choose|tile: (i32, i32)|
                    #[trigger] harvested[i - drifting.len()] == (Sun {
                        pos: #[trigger] WorldPos::centre_of(tile),
                        move_up: true,
                        dying: None,
                    });
                lemma_centre_within_limit(tile);
            }
        }
    }
    shoot(garden, bullets, horde, delta);
    assert(garden.plants@ =~= ripe.map_values(|plant: Plant| reloaded(plant, delta)));
    proof {
        lemma_shots_start_at_plants(ripe, ripe.len(), delta, horde.land@, horde.zombies@);
        let shot = shots(ripe, ripe.len(), delta, horde.land@, horde.zombies@);
        assert forall|i: int| 0 <= i < bullets.len() implies (#[trigger] bullets[i]).dying is None
            && bullets[i].pos.x <= COORD_LIMIT by {
            if i >= old(bullets).len() {
                let k = i - old(bullets).len();
                assert(bullets[i] == shot[k]);
                let tile = choose|tile: (i32, i32)|
                    #[trigger] shot[k] == (Bullet {
                        pos: #[trigger] WorldPos::centre_of(tile),
                        velocity: crate::plants::peashooter::BULLET_SPEED,
                        dying: None,
                    });
                lemma_centre_within_limit(tile);
            } else {
                assert(bullets[i] == old(bullets)[i]);
            }
        }
    }
}

/// The bullets' part of a tick: they fly and hit.
pub fn volley(bullets: &mut Vec<Bullet>, horde: &mut Horde, delta: u32)
    requires
        old(horde).wf(),
        forall|i: int|
            0 <= i < old(bullets).len() ==> (#[trigger] old(bullets)[i]).dying is None && old(bullets)[i].pos.x <= COORD_LIMIT,
    ensures
        final(horde).wf(),
        (Range { bullets: final(bullets)@, zombies: final(horde).zombies@, rows: final(horde).land@ })
            == after_flights(
            Range { bullets: old(bullets)@, zombies: old(horde).zombies@, rows: old(horde).land@ },
            old(bullets)@.len(),
            delta,
        ),
        final(horde).next_id == old(horde).next_id,
        forall|i: int|
            0 <= i < final(bullets).len() && (#[trigger] final(bullets)[i]).dying is None ==> final(bullets)[i].pos.x <= COORD_LIMIT,
        final(horde).zombies@.len() == old(horde).zombies@.len(),
        forall|i: int|
            0 <= i < old(horde).zombies@.len() ==> (#[trigger] final(horde).zombies[i]).pos
                == old(horde).zombies[i].pos && (final(horde).zombies[i].player.dying is None
                ==> old(horde).zombies[i].player.dying is None),
{
    proof {
        assert forall|i: int| 0 <= i < bullets.len() implies (#[trigger] bullets[i]).pos.x
            + bullets[i].velocity * delta <= i64::MAX by {
            assert(bullets[i].velocity * delta <= 0xffff * 0xffff_ffff) by (nonlinear_arith)
                requires
                    0 <= bullets[i].velocity <= 0xffff,
                    0 <= delta <= 0xffff_ffff,
            ;
        }
    }
    move_bullet(bullets, horde, delta);
}

/// A zombie that is left at the end of a tick was alive after the jumps and
/// stands where it stood then.
proof fn lemma_survivors_stand_still(jumpers: Seq<Zombie>, shot: Seq<Zombie>, left: Seq<Zombie>, ended: bool)
    requires
        shot.len() == jumpers.len(),
        forall|i: int|
            0 <= i < jumpers.len() ==> (#[trigger] shot[i]).pos == jumpers[i].pos && (
            shot[i].player.dying is None ==> jumpers[i].player.dying is None),
        forall|i: int|
            0 <= i < left.len() ==> (#[trigger] left[i]).player.dying is None && shot.contains(left[i]),
        forall|i: int| 0 <= i < jumpers.len() ==> (#[trigger] jumpers[i]).pos.x >= ZOMBIE_FLOOR_X,
        !ended ==> !overrun_by(jumpers),
    ensures
        forall|i: int|
            0 <= i < left.len() ==> (#[trigger] left[i]).pos.x >= ZOMBIE_FLOOR_X && (!ended
                ==> left[i].pos.x >= LAND_LEFT_EDGE_X),
{
    assert forall|i: int| 0 <= i < left.len() implies (#[trigger] left[i]).pos.x >= ZOMBIE_FLOOR_X && (
    !ended ==> left[i].pos.x >= LAND_LEFT_EDGE_X) by {
        assert(shot.contains(left[i]));
        let k = choose|k: int| 0 <= k < shot.len() && shot[k] == left[i];
        assert(shot[k].pos == jumpers[k].pos);
        assert(jumpers[k].player.dying is None);
    }
}

impl Game {
    /// What holds of a game that can be moved on: it is well formed, and no
    /// zombie has passed the left edge of the land.
    pub open spec fn ready(self) -> bool {
        &&& self.wf()
        &&& forall|i: int|
            0 <= i < self.horde.zombies.len() ==> (#[trigger] self.horde.zombies[i]).pos.x
                >= LAND_LEFT_EDGE_X
    }

    /// Whether `after` is `self` but for its scene.
    pub open spec fn same_frame(self, after: Game) -> bool {
        &&& after.elapsed == self.elapsed
        &&& after.sun_count == self.sun_count
        &&& after.toolbar.armed == self.toolbar.armed
        &&& after.create_timer == self.create_timer
        &&& after.sun_timer == self.sun_timer
        &&& after.garden.next_id == self.garden.next_id
        &&& after.horde.next_id == self.horde.next_id
    }

    /// Moves the game on by `delta` milliseconds: see [`advanced`].
    pub fn advance(&mut self, delta: u32)
        requires
            old(self).ready(),
        ensures
            final(self).wf(),
            final(self)@ == advanced(old(self)@, delta),
            old(self).same_frame(*final(self)),
    {
        march(&mut self.horde, &mut self.garden, &mut self.state, delta);
        let ghost jumpers = self.horde.zombies@;
        let ghost ended = self.state is End;
        grow(&mut self.garden, &mut self.suns, &mut self.bullets, &self.horde, delta);
        volley(&mut self.bullets, &mut self.horde, delta);
        let ghost shot = self.horde.zombies@;
        let ghost flown = self.bullets@;
        let ghost grown = self.suns@;
        self.toolbar.update_cooldown_secs(delta);
        assert(self.toolbar.items@ =~= old(self).toolbar.items@.map_values(
            |item: ToolbarItem| cooled(item, delta),
        ));
        dead_cleaner(&mut self.garden, &mut self.horde);
        remove_dying(&mut self.bullets, &mut self.suns);
        proof {
            lemma_survivors_stand_still(jumpers, shot, self.horde.zombies@, ended);
            assert forall|i: int| 0 <= i < self.bullets.len() implies (#[trigger] self.bullets[i]).pos.x
                <= COORD_LIMIT by {
                assert(flown.contains(self.bullets[i]));
            }
            assert forall|i: int| 0 <= i < self.suns.len() implies -COORD_LIMIT <= (
            #[trigger] self.suns[i]).pos.y <= COORD_LIMIT by {
                assert(grown.contains(self.suns[i]));
            }
            assert forall|i: int| 0 <= i < self.toolbar.items.len() implies (
            #[trigger] self.toolbar.items[i]).plant.price >= 0
                && self.toolbar.items[i].availability.sun_enough == (self.sun_count.0
                >= self.toolbar.items[i].plant.price) by {
                assert(self.toolbar.items[i] == cooled(old(self).toolbar.items[i], delta));
                assert(old(self).toolbar.items[i].plant.price >= 0);
            }
        }
    }
}

impl Game {
    /// Whether `after` is `self` after the arrivals of a tick: the clock is
    /// set, the spawn scheduler has made its step (unless the horde has used
    /// up its identities), and so have the suns from the sky. The rest is as
    /// it was.
    pub open spec fn arrivals(self, after: Game, elapsed: u64, delta: u32) -> bool {
        &&& after.elapsed == elapsed
        &&& self.horde.next_id < u64::MAX ==> scheduled(
            self.horde,
            after.horde,
            self.create_timer.timer,
            after.create_timer.timer,
            self.state,
            after.state,
            elapsed,
            delta,
        )
        &&& self.horde.next_id == u64::MAX ==> same_horde(self.horde, after.horde) && after.create_timer
            == self.create_timer && after.state == self.state
        &&& sky_sun_step(self.suns@, after.suns@, self.sun_timer.0, after.sun_timer.0, delta)
        &&& after.garden == self.garden
        &&& after.bullets == self.bullets
        &&& after.sun_count == self.sun_count
        &&& after.toolbar == self.toolbar
    }

    /// The arrivals of a tick: see [`Game::arrivals`].
    pub fn spawn(&mut self, elapsed: u64, delta: u32)
        requires
            old(self).ready(),
        ensures
            final(self).ready(),
            old(self).arrivals(*final(self), elapsed, delta),
    {
        self.elapsed = elapsed;
        if self.horde.next_id < u64::MAX {
            create_zombie_randomly(
                &mut self.horde,
                &mut self.create_timer,
                &mut self.state,
                elapsed,
                delta,
            );
            proof {
                assert forall|i: int| 0 <= i < self.horde.zombies.len() implies (
                #[trigger] self.horde.zombies[i]).player.dying is None && self.horde.zombies[i].pos.x
                    >= LAND_LEFT_EDGE_X && self.horde.zombies[i].pos.x >= ZOMBIE_FLOOR_X by {
                    if i < old(self).horde.zombies.len() {
                        assert(self.horde.zombies[i] == old(self).horde.zombies[i]);
                    } else {
                        let (kind, row) = choose|kind: crate::zombies::ZombieType, row: i32| #[trigger]
                            crate::zombies::create_zombie::arrived(
                                old(self).horde,
                                self.horde,
                                kind,
                                row,
                                elapsed,
                            );
                        lemma_tile_round_trip((crate::zombies::create_zombie::SPAWN_COLUMN, row));
                    }
                }
            }
        }
        gen_sun_from_sky(&mut self.suns, &mut self.sun_timer, delta);
        proof {
            assert forall|i: int| 0 <= i < self.suns.len() implies -COORD_LIMIT <= (
            #[trigger] self.suns[i]).pos.y <= COORD_LIMIT by {
                if i < old(self).suns.len() {
                    assert(self.suns[i] == old(self).suns[i]);
                }
            }
        }
    }

    /// One tick of the game, at the time `elapsed` (in milliseconds since
    /// the game began) and `delta` milliseconds after the tick before.
    ///
    /// A game that is not running stays as it is. In a running game first
    /// come the arrivals (see [`Game::arrivals`]), then everything moves
    /// (see [`advanced`]).
    pub fn tick(&mut self, elapsed: u64, delta: u32)
        requires
            old(self).wf(),
        ensures
            final(self).wf(),
            old(self).state != GameState::Running ==> *final(self) == *old(self),
            old(self).state == GameState::Running ==> exists|mid: Game|
                {
                    &&& #[trigger] old(self).arrivals(mid, elapsed, delta)
                    &&& mid.ready()
                    &&& final(self)@ == advanced(mid@, delta)
                    &&& mid.same_frame(*final(self))
                },
    {
        match self.state {
            GameState::Running => {},
            _ => {
                return ;
            },
        }
        self.spawn(elapsed, delta);
        let ghost mid = *self;
        self.advance(delta);
        assert(old(self).arrivals(mid, elapsed, delta));
    }

    /// Ends a running game from outside, as won or as lost.
    pub fn finish(&mut self, win: bool)
        requires
            old(self).wf(),
        ensures
            final(self).wf(),
            final(self).state == (if old(self).state == GameState::Running {
                GameState::End { win }
            } else {
                old(self).state
            }),
            final(self)@ == (Scene { state: final(self).state, ..old(self)@ }),
            old(self).same_frame(*final(self)),
    {
        match self.state {
            GameState::Running => {
                self.state = GameState::End { win };
            },
            _ => {},
        }
    }
}

} // verus!
