//! The spawn scheduler: when the next zombie comes, which, and where.

use crate::land::{lemma_tile_round_trip, GridPos, WorldPos, LAND_COLUMNS, LAND_ROWS};
use crate::player::PlayerCommon;
use crate::timer::{Timer, TimerMode};
use crate::zombies::basic_zombie::{BasicZombie, BASIC_ZOMBIE_HEALTH};
use crate::zombies::conehead_zombie::{ConeheadZombie, CONEHEAD_ZOMBIE_HEALTH};
use crate::zombies::jumping_zombie::{JumpingZombie, JUMPING_ZOMBIE_HEALTH};
use crate::zombies::{joined, Horde, Zombie, ZombieCommon, ZombieState, ZombieType};
use crate::GameState;
use vstd::prelude::*;

verus! {

/// Time between two zombies at the start, in milliseconds.
pub const INITIAL_INTERVAL: u64 = 10000;

/// The time between two zombies never gets shorter than this, in
/// milliseconds.
pub const MINIMUM_INTERVAL: u64 = 1000;

/// No zombie comes before the game has run for so many seconds.
pub const WARM_UP_SECONDS: u64 = 45;

/// The player has won when the game has run for more than so many seconds.
pub const WIN_SECONDS: u64 = 600;

/// The column in which zombies appear: two tiles to the right of the land.
pub const SPAWN_COLUMN: i32 = 11;

/// The timer of the spawn scheduler.
#[derive(Clone, Copy, Debug)]
pub struct ZombieCreateTimer {
    pub timer: Timer,
}

/// The timer of the spawn scheduler at the start of a game.
pub fn setup() -> (timer: ZombieCreateTimer)
    ensures
        timer.timer == (Timer {
            duration: INITIAL_INTERVAL,
            elapsed: 0,
            mode: TimerMode::Repeating,
            finished: false,
        }),
{
    ZombieCreateTimer { timer: Timer::new(INITIAL_INTERVAL, TimerMode::Repeating) }
}

/// The tenth power.
pub open spec fn pow10(d: int) -> int {
    (d * d * d * d * d) * (d * d * d * d * d)
}

/// The third power.
pub open spec fn cube(a: int) -> int {
    a * a * a
}

/// The tenth power of the initial interval in hundredths of a second, times
/// the third power of 50: what the ramp is measured against.
pub open spec fn ramp_bound() -> int {
    125_000_000_000_000_000_000_000_000_000_000_000
}

/// Whether an interval of `d` hundredths of a second is not above the ramp
/// after `seconds` of play. The ramp is the initial interval over
/// `(seconds / 50 + 1)` to the power of 0.3, so `d` is not above it when
/// `d^10 * (seconds + 50)^3 <= 1000^10 * 50^3`.
pub open spec fn under_ramp(d: int, seconds: int) -> bool {
    pow10(d) * cube(seconds + 50) <= ramp_bound()
}

/// Whether `d` hundredths of a second is the longest interval that is not
/// above the ramp after `seconds` of play.
pub open spec fn longest_under_ramp(d: int, seconds: int) -> bool {
    0 <= d && under_ramp(d, seconds) && !under_ramp(d + 1, seconds)
}

/// The ramp after `seconds` of play, in whole hundredths of a second: the
/// longest interval that is not above it.
pub open spec fn ramp(seconds: int) -> int {
    choose|d: int| longest_under_ramp(d, seconds)
}

/// The time between two zombies after `elapsed` milliseconds of play, in
/// milliseconds: the ramp at the whole seconds played, but never less than
/// [`MINIMUM_INTERVAL`].
pub open spec fn spawn_interval(elapsed: u64) -> int {
    if 10 * ramp(elapsed as int / 1000) < MINIMUM_INTERVAL {
        MINIMUM_INTERVAL as int
    } else {
        10 * ramp(elapsed as int / 1000)
    }
}

/// A greater number has a greater tenth power.
pub proof fn lemma_pow10_grows(a: int, b: int)
    requires
        0 <= a <= b,
    ensures
        0 <= pow10(a) <= pow10(b),
        a < b ==> pow10(a) < pow10(b),
{
    let a2 = a * a;
    let b2 = b * b;
    assert(0 <= a2 <= b2 && (a < b ==> a2 < b2)) by (nonlinear_arith)
        requires
            0 <= a <= b,
            a2 == a * a,
            b2 == b * b,
    ;
    let a4 = a2 * a2;
    let b4 = b2 * b2;
    assert(0 <= a4 <= b4 && (a2 < b2 ==> a4 < b4)) by (nonlinear_arith)
        requires
            0 <= a2 <= b2,
            a4 == a2 * a2,
            b4 == b2 * b2,
    ;
    let a5 = a4 * a;
    let b5 = b4 * b;
    assert(0 <= a5 <= b5 && (a4 < b4 && a < b ==> a5 < b5)) by (nonlinear_arith)
        requires
            0 <= a4 <= b4,
            0 <= a <= b,
            a5 == a4 * a,
            b5 == b4 * b,
    ;
    assert(0 <= a5 * a5 <= b5 * b5 && (a5 < b5 ==> a5 * a5 < b5 * b5)) by (nonlinear_arith)
        requires
            0 <= a5 <= b5,
    ;
    assert(a5 == a * a * a * a * a) by (nonlinear_arith)
        requires
            a5 == a4 * a,
            a4 == a2 * a2,
            a2 == a * a,
    ;
    assert(b5 == b * b * b * b * b) by (nonlinear_arith)
        requires
            b5 == b4 * b,
            b4 == b2 * b2,
            b2 == b * b,
    ;
}

/// A greater number has a greater third power.
pub proof fn lemma_cube_grows(a: int, b: int)
    requires
        0 <= a <= b,
    ensures
        0 <= cube(a) <= cube(b),
{
    let a2 = a * a;
    let b2 = b * b;
    assert(0 <= a2 <= b2) by (nonlinear_arith)
        requires
            0 <= a <= b,
            a2 == a * a,
            b2 == b * b,
    ;
    assert(0 <= a2 * a <= b2 * b) by (nonlinear_arith)
        requires
            0 <= a2 <= b2,
            0 <= a <= b,
    ;
}

/// What is under the ramp stays under it for every shorter interval and
/// every earlier time.
pub proof fn lemma_under_ramp_is_closed(d: int, seconds: int, shorter: int, earlier: int)
    requires
        0 <= shorter <= d,
        0 <= earlier <= seconds,
        under_ramp(d, seconds),
    ensures
        under_ramp(shorter, earlier),
{
    lemma_pow10_grows(shorter, d);
    lemma_cube_grows(earlier + 50, seconds + 50);
    let p = pow10(shorter);
    let q = pow10(d);
    let a = cube(earlier + 50);
    let b = cube(seconds + 50);
    assert(p * a <= q * b) by (nonlinear_arith)
        requires
            0 <= p <= q,
            0 <= a <= b,
    ;
}

/// The powers that the ends of the ramp are measured with.
proof fn lemma_round_powers()
    ensures
        pow10(100) == 100_000_000_000_000_000_000,
        pow10(1000) == 1_000_000_000_000_000_000_000_000_000_000,
        pow10(1001) > 1_000_000_000_000_000_000_000_000_000_000,
        cube(50) == 125_000,
        cube(1_000_000) == 1_000_000_000_000_000_000,
{
    assert(100int * 100 * 100 * 100 * 100 == 10_000_000_000) by (nonlinear_arith);
    assert(10_000_000_000int * 10_000_000_000 == 100_000_000_000_000_000_000) by (nonlinear_arith);
    assert(1000int * 1000 * 1000 * 1000 * 1000 == 1_000_000_000_000_000) by (nonlinear_arith);
    assert(1_000_000_000_000_000int * 1_000_000_000_000_000
        == 1_000_000_000_000_000_000_000_000_000_000) by (nonlinear_arith);
    assert(50int * 50 * 50 == 125_000) by (nonlinear_arith);
    assert(1_000_000int * 1_000_000 * 1_000_000 == 1_000_000_000_000_000_000) by (nonlinear_arith);
    lemma_pow10_grows(1000, 1001);
}

/// The ramp is what its name says: the one interval that is under the ramp
/// while the next longer one is not. It is at most the initial interval.
pub proof fn lemma_ramp_is_unique(seconds: int, d: int)
    requires
        0 <= seconds,
        0 <= d,
        under_ramp(d, seconds),
        !under_ramp(d + 1, seconds),
    ensures
        ramp(seconds) == d,
        d <= 1000,
{
    let r = ramp(seconds);
    assert(longest_under_ramp(d, seconds));
    assert(longest_under_ramp(r, seconds));
    if r < d {
        lemma_under_ramp_is_closed(d, seconds, r + 1, seconds);
    }
    if d < r {
        lemma_under_ramp_is_closed(r, seconds, d + 1, seconds);
    }
    if d > 1000 {
        lemma_under_ramp_is_closed(d, seconds, 1001, 0);
        lemma_round_powers();
        assert(pow10(1001) * cube(50) > ramp_bound()) by (nonlinear_arith)
            requires
                pow10(1001) > 1_000_000_000_000_000_000_000_000_000_000,
                cube(50) == 125_000,
                ramp_bound() == 125_000_000_000_000_000_000_000_000_000_000_000,
        ;
    }
}

/// Executable [`pow10`], for numbers up to a thousand.
fn tenth_power(d: u128) -> (p: u128)
    requires
        d <= 1000,
    ensures
        p == pow10(d as int),
        p <= 1_000_000_000_000_000_000_000_000_000_000,
{
    assert(d * d <= 1_000_000) by (nonlinear_arith)
        requires
            d <= 1000,
    ;
    let d2: u128 = d * d;
    assert(d2 * d2 <= 1_000_000_000_000) by (nonlinear_arith)
        requires
            d2 <= 1_000_000,
    ;
    let d4: u128 = d2 * d2;
    assert(d4 * d <= 1_000_000_000_000_000) by (nonlinear_arith)
        requires
            d4 <= 1_000_000_000_000,
            d <= 1000,
    ;
    let d5: u128 = d4 * d;
    assert(d5 * d5 <= 1_000_000_000_000_000_000_000_000_000_000) by (nonlinear_arith)
        requires
            d5 <= 1_000_000_000_000_000,
    ;
    assert(d5 == d * d * d * d * d) by (nonlinear_arith)
        requires
            d5 == d4 * d,
            d4 == d2 * d2,
            d2 == d * d,
    ;
    d5 * d5
}

/// The time between two zombies after `elapsed` milliseconds of play: it
/// starts at [`INITIAL_INTERVAL`], gets shorter as the game goes on, and
/// stops at [`MINIMUM_INTERVAL`].
pub fn next_interval(elapsed: u64) -> (interval: u64)
    ensures
        interval == spawn_interval(elapsed),
        MINIMUM_INTERVAL <= interval <= INITIAL_INTERVAL,
{
    let seconds: u64 = elapsed / 1000;
    if seconds >= 0x10_0000 {
        proof {
            let r = ramp(seconds as int);
            assert(0 <= r && under_ramp(r, seconds as int) && !under_ramp(r + 1, seconds as int)) by {
                lemma_ramp_exists(seconds as int);
            }
            if r >= 100 {
                lemma_under_ramp_is_closed(r, seconds as int, 100, 999_950int);
                lemma_round_powers();
                assert(pow10(100) * cube(1_000_000) > ramp_bound()) by (nonlinear_arith)
                    requires
                        pow10(100) == 100_000_000_000_000_000_000,
                        cube(1_000_000) == 1_000_000_000_000_000_000,
                        ramp_bound() == 125_000_000_000_000_000_000_000_000_000_000_000,
                ;
            }
        }
        return MINIMUM_INTERVAL;
    }
    let base: u128 = seconds as u128 + 50;
    assert(base * base <= 0x10_0032 * 0x10_0032) by (nonlinear_arith)
        requires
            base <= 0x10_0032,
    ;
    let square: u128 = base * base;
    assert(square * base <= 0x10_0032 * 0x10_0032 * 0x10_0032) by (nonlinear_arith)
        requires
            square <= 0x10_0032 * 0x10_0032,
            base <= 0x10_0032,
    ;
    assert(square * base >= 1) by (nonlinear_arith)
        requires
            square == base * base,
            base >= 50,
    ;
    let volume: u128 = square * base;
    assert(volume == cube(seconds as int + 50));
    let bound: u128 = 125_000_000_000_000_000_000_000_000_000_000_000;
    let room: u128 = bound / volume;
    proof {
        vstd::arithmetic::div_mod::lemma_fundamental_div_mod(bound as int, volume as int);
        vstd::arithmetic::div_mod::lemma_mod_bound(bound as int, volume as int);
    }
    proof {
        lemma_ramp_exists(seconds as int);
        if under_ramp(1001, seconds as int) {
            lemma_under_ramp_is_closed(1001, seconds as int, ramp(seconds as int) + 1, seconds as int);
        }
    }
    let mut d: u128 = 1000;
    loop
        invariant
            d <= 1000,
            volume == cube(seconds as int + 50),
            volume >= 1,
            bound == ramp_bound(),
            bound == volume * room + bound % volume,
            0 <= bound % volume < volume,
            !under_ramp(d as int + 1, seconds as int),
        ensures
            under_ramp(d as int, seconds as int),
        decreases d,
    {
        let power = tenth_power(d);
        proof {
            lemma_pow10_grows(0, d as int);
            let p = power as int;
            let v = volume as int;
            let q = room as int;
            let rest = (bound % volume) as int;
            assert(p <= q ==> p * v <= q * v) by (nonlinear_arith)
                requires
                    0 <= p,
                    0 <= v,
            ;
            assert(p >= q + 1 ==> p * v >= q * v + v) by (nonlinear_arith)
                requires
                    0 <= q,
                    0 <= v,
            ;
        }
        if power <= room {
            break ;
        }
        assert(d > 0) by {
            assert(pow10(0) == 0);
        }
        d = d - 1;
    }
    proof {
        lemma_ramp_is_unique(seconds as int, d as int);
    }
    let interval: u64 = (d as u64) * 10;
    if interval < MINIMUM_INTERVAL {
        MINIMUM_INTERVAL
    } else {
        interval
    }
}

/// At every time some interval is the longest under the ramp.
pub proof fn lemma_ramp_exists(seconds: int)
    requires
        0 <= seconds,
    ensures
        0 <= ramp(seconds) <= 1000,
        under_ramp(ramp(seconds), seconds),
        !under_ramp(ramp(seconds) + 1, seconds),
{
    assert(under_ramp(0, seconds)) by {
        assert(pow10(0) == 0);
        assert(pow10(0) * cube(seconds + 50) == 0) by (nonlinear_arith)
            requires
                pow10(0) == 0,
        ;
    }
    assert(!under_ramp(1001, seconds)) by {
        if under_ramp(1001, seconds) {
            lemma_under_ramp_is_closed(1001, seconds, 1001, 0);
            lemma_round_powers();
            assert(pow10(1001) * cube(50) > ramp_bound()) by (nonlinear_arith)
                requires
                    pow10(1001) > 1_000_000_000_000_000_000_000_000_000_000,
                    cube(50) == 125_000,
                    ramp_bound() == 125_000_000_000_000_000_000_000_000_000_000_000,
            ;
        }
    }
    let d = lemma_ramp_search(seconds, 1001);
    lemma_ramp_is_unique(seconds, d);
}

/// Below an interval that is above the ramp lies one that is the longest
/// under it.
proof fn lemma_ramp_search(seconds: int, above: int) -> (d: int)
    requires
        0 <= seconds,
        0 < above,
        under_ramp(0, seconds),
        !under_ramp(above, seconds),
    ensures
        0 <= d < above,
        under_ramp(d, seconds),
        !under_ramp(d + 1, seconds),
    decreases above,
{
    if under_ramp(above - 1, seconds) {
        above - 1
    } else {
        lemma_ramp_search(seconds, above - 1)
    }
}

/// Spawn ramp: the time between two zombies never grows as the game goes
/// on, and it is never shorter than the minimum nor longer than at the
/// start.
pub proof fn lemma_spawn_interval_never_grows(earlier: u64, later: u64)
    requires
        earlier <= later,
    ensures
        spawn_interval(later) <= spawn_interval(earlier),
        MINIMUM_INTERVAL <= spawn_interval(later),
        spawn_interval(earlier) <= INITIAL_INTERVAL,
{
    let e = earlier as int / 1000;
    let l = later as int / 1000;
    assert(e <= l) by {
        vstd::arithmetic::div_mod::lemma_div_is_ordered(earlier as int, later as int, 1000);
    }
    lemma_ramp_exists(e);
    lemma_ramp_exists(l);
    if ramp(l) > ramp(e) {
        lemma_under_ramp_is_closed(ramp(l), l, ramp(e) + 1, e);
    }
}

/// The kinds of zombie that the scheduler picks from.
pub fn unlocked_zombies() -> (kinds: Vec<ZombieType>)
    ensures
        kinds@ == seq![ZombieType::Basic, ZombieType::Conehead, ZombieType::Jumping],
{
    vec![ZombieType::Basic, ZombieType::Conehead, ZombieType::Jumping]
}

/// Calls `fastrand::choice` on the kinds in `kinds`. Taken on trust: the
/// result is one of them, or nothing if there is none. Which one it is
/// depends on chance, so nothing more is said of it.
#[verifier::external_body]
fn random_kind(kinds: &Vec<ZombieType>) -> (picked: Option<ZombieType>)
    ensures
        kinds@.len() == 0 ==> picked is None,
        kinds@.len() > 0 ==> picked is Some && kinds@.contains(picked.unwrap()),
{
    fastrand::choice(kinds.iter().copied())
}

/// Calls `fastrand::i32` on the range from zero up to, and without, `rows`.
/// Taken on trust: the result is a number of that range. Which one it is
/// depends on chance, so nothing more is said of it.
#[verifier::external_body]
fn random_row(rows: i32) -> (row: i32)
    requires
        0 < rows,
    ensures
        0 <= row < rows,
{
    fastrand::i32(0..rows)
}

/// The health that a zombie of a kind starts with.
pub open spec fn health_of(kind: ZombieType) -> i64 {
    match kind {
        ZombieType::Basic => BASIC_ZOMBIE_HEALTH,
        ZombieType::Conehead => CONEHEAD_ZOMBIE_HEALTH,
        ZombieType::Jumping => JUMPING_ZOMBIE_HEALTH,
    }
}

/// The name of a zombie of a kind.
pub open spec fn name_of(kind: ZombieType) -> &'static str {
    match kind {
        ZombieType::Basic => "BasicZombie",
        ZombieType::Conehead => "Conehead Zombie",
        ZombieType::Jumping => "Jumping Zombie",
    }
}

/// The zombie that the scheduler brings into the game: of the given kind,
/// in full health, walking, on the centre of the tile of the given row in
/// the spawn column.
pub open spec fn recruit(kind: ZombieType, row: i32, id: u64, now: u64) -> Zombie {
    Zombie {
        id,
        player: PlayerCommon {
            name: name_of(kind),
            health: health_of(kind),
            spawned_time: now,
            dying: None,
        },
        common: ZombieCommon { state: ZombieState::Walking },
        kind,
        pos: WorldPos::centre_of((SPAWN_COLUMN, row)),
    }
}

/// Brings a zombie of a kind into the game in a row: see [`recruit`].
pub fn spawn_zombie(horde: &mut Horde, kind: ZombieType, row: i32, now: u64) -> (id: u64)
    requires
        old(horde).wf(),
        old(horde).next_id < u64::MAX,
        0 <= row < LAND_ROWS,
    ensures
        final(horde).wf(),
        id == old(horde).next_id,
        joined(*old(horde), *final(horde), recruit(kind, row, id, now)),
{
    let pos = GridPos::new(SPAWN_COLUMN, row);
    proof {
        lemma_tile_round_trip((SPAWN_COLUMN, row));
    }
    match kind {
        ZombieType::Basic => BasicZombie::create(pos, horde, now),
        ZombieType::Conehead => ConeheadZombie::create(pos, horde, now),
        ZombieType::Jumping => JumpingZombie::create(pos, horde, now),
    }
}

/// The timer of the scheduler after a tick of `delta` at the time
/// `elapsed`: moved on, and, if its time was up, set to the interval that
/// the ramp gives for that time.
pub open spec fn rescheduled(timer: Timer, elapsed: u64, delta: u32) -> Timer {
    if timer.ticked(delta).finished {
        Timer { duration: spawn_interval(elapsed) as u64, ..timer.ticked(delta) }
    } else {
        timer.ticked(delta)
    }
}

/// Whether `after` is `before` with one more zombie, which the scheduler
/// has brought: of the given kind, in the given row.
pub open spec fn arrived(before: Horde, after: Horde, kind: ZombieType, row: i32, now: u64) -> bool {
    0 <= row < LAND_ROWS && joined(before, after, recruit(kind, row, before.next_id, now))
}

/// Whether nothing has changed in the horde.
pub open spec fn same_horde(before: Horde, after: Horde) -> bool {
    &&& after.zombies@ == before.zombies@
    &&& after.land == before.land
    &&& after.next_id == before.next_id
}

/// What one step of the spawn scheduler does, at the time `elapsed` (in
/// milliseconds since the game began) and for a tick of `delta`
/// milliseconds.
///
/// During the warm-up nothing happens. After it, the player has won if the
/// game has run for more than [`WIN_SECONDS`] and has not ended before; the
/// timer is moved on; and if its time is up, a zombie of some kind appears in
/// some row, and the timer is set to the next interval.
pub open spec fn scheduled(
    before: Horde,
    after: Horde,
    timer_before: Timer,
    timer_after: Timer,
    state_before: GameState,
    state_after: GameState,
    elapsed: u64,
    delta: u32,
) -> bool {
    if elapsed / 1000 < WARM_UP_SECONDS {
        same_horde(before, after) && timer_after == timer_before && state_after == state_before
    } else {
        &&& timer_after == rescheduled(timer_before, elapsed, delta)
        &&& state_after == (if elapsed / 1000 > WIN_SECONDS && !(state_before is End) {
            GameState::End { win: true }
        } else {
            state_before
        })
        &&& !timer_before.ticked(delta).finished ==> same_horde(before, after)
        &&& timer_before.ticked(delta).finished ==> exists|kind: ZombieType, row: i32| #[trigger]
            arrived(before, after, kind, row, elapsed)
    }
}

/// One step of the spawn scheduler: see [`scheduled`]. The kind of a new
/// zombie and its row are picked at random.
pub fn create_zombie_randomly(horde: &mut Horde, timer: &mut ZombieCreateTimer, state: &mut GameState, elapsed: u64, delta: u32)
    requires
        old(horde).wf(),
        old(horde).next_id < u64::MAX,
    ensures
        final(horde).wf(),
        scheduled(
            *old(horde),
            *final(horde),
            old(timer).timer,
            final(timer).timer,
            *old(state),
            *final(state),
            elapsed,
            delta,
        ),
{
    if elapsed / 1000 < WARM_UP_SECONDS {
        return ;
    }
    if elapsed / 1000 > WIN_SECONDS {
        match *state {
            GameState::End { win: _ } => {},
            _ => {
                *state = GameState::End { win: true };
            },
        }
    }
    timer.timer.tick(delta);
    if timer.timer.finished() {
        let kinds = unlocked_zombies();
        let row = random_row(LAND_ROWS);
        if let Some(kind) = random_kind(&kinds) {
            let _ = spawn_zombie(horde, kind, row, elapsed);
            assert(arrived(*old(horde), *horde, kind, row, elapsed));
        }
        timer.timer.set_duration(next_interval(elapsed));
    }
}

} // verus!
