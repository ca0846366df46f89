//! Zombies: their records, the index of the zombies of each row, and how
//! they walk and eat.

use crate::land::{occupant_of, WorldPos, LAND_LEFT_EDGE_X, LAND_ROWS};
use crate::plants::{bitten, Garden, Plant, MAX_BLOW};
use crate::player::{DieEvent, PlayerCommon};
use vstd::prelude::*;

pub mod basic_zombie;
pub mod conehead_zombie;
pub mod create_zombie;
pub mod jumping_zombie;

verus! {

/// What a zombie is doing.
#[derive(Clone, Copy, Debug, PartialEq, Eq, Hash, Structural)]
pub enum ZombieState {
    Walking,
    Eating,
}

/// The variants of zombie.
#[derive(Clone, Copy, Debug, PartialEq, Eq, Structural)]
pub enum ZombieType {
    Basic,
    Conehead,
    /// May jump over the first plant it meets.
    Jumping,
}

/// What every zombie has.
#[derive(Clone, Copy, Debug, PartialEq, Eq, Structural)]
pub struct ZombieCommon {
    pub state: ZombieState,
}

impl ZombieCommon {
    /// A zombie starts out walking.
    pub fn new() -> (common: ZombieCommon)
        ensures
            common.state == ZombieState::Walking,
    {
        ZombieCommon { state: ZombieState::Walking }
    }
}

/// A zombie on the lawn.
#[derive(Clone, Copy, Debug)]
pub struct Zombie {
    pub id: u64,
    pub player: PlayerCommon,
    pub common: ZombieCommon,
    pub kind: ZombieType,
    pub pos: WorldPos,
}

impl Zombie {
    /// The row of the lawn that the zombie is in.
    pub open spec fn row(self) -> int {
        self.pos.tile().1 as int
    }

    /// A zombie whose mark and health agree, in a row of the land.
    pub open spec fn wf(self) -> bool {
        &&& self.player.dying is None <==> self.player.health > 0
        &&& self.player.health >= -MAX_BLOW
        &&& 0 <= self.row() < LAND_ROWS
    }
}

/// Whether some record of `zombies` has this identity.
pub open spec fn listed(zombies: Seq<Zombie>, id: u64) -> bool {
    exists|i: int| 0 <= i < zombies.len() && #[trigger] zombies[i].id == id
}

/// Whether no two records of `zombies` share an identity.
pub open spec fn distinct_ids(zombies: Seq<Zombie>) -> bool {
    forall|i: int, j: int|
        0 <= i < j < zombies.len() ==> (#[trigger] zombies[i]).id != (#[trigger] zombies[j]).id
}

/// Where the record with this identity is kept: the first, if there are
/// several.
pub fn find_zombie(zombies: &Vec<Zombie>, id: u64) -> (found: Option<usize>)
    ensures
        match found {
            Some(i) => i < zombies.len() && zombies[i as int].id == id && forall|k: int|
                0 <= k < i ==> (#[trigger] zombies[k]).id != id,
            None => !listed(zombies@, id),
        },
{
    let mut i: usize = 0;
    while i < zombies.len()
        invariant
            i <= zombies.len(),
            forall|k: int| 0 <= k < i ==> (#[trigger] zombies[k]).id != id,
        decreases zombies.len() - i,
    {
        if zombies[i].id == id {
            return Some(i);
        }
        i = i + 1;
    }
    None
}

/// Whether every zombie whose identity is in `list` stands outside the land.
pub open spec fn row_clear(list: Seq<u64>, zombies: Seq<Zombie>) -> bool {
    forall|k: int, i: int|
        0 <= k < list.len() && 0 <= i < zombies.len() && (#[trigger] zombies[i]).id == #[trigger] list[k]
            ==> !zombies[i].pos.on_land()
}

/// The zombies recorded for a row; none for a row that the land lacks.
pub open spec fn row_of(rows: Seq<Seq<u64>>, row: int) -> Seq<u64> {
    if 0 <= row < rows.len() {
        rows[row]
    } else {
        Seq::empty()
    }
}

/// Whether a live zombie has walked past the left edge of the land.
pub open spec fn overrun_by(zombies: Seq<Zombie>) -> bool {
    exists|i: int|
        0 <= i < zombies.len() && (#[trigger] zombies[i]).player.dying is None && zombies[i].pos.x
            < LAND_LEFT_EDGE_X
}

/// The record of the zombies on each row of land, each row in the order in
/// which its zombies came.
pub struct LandZombies {
    pub rows: Vec<Vec<u64>>,
}

impl View for LandZombies {
    type V = Seq<Seq<u64>>;

    open spec fn view(&self) -> Seq<Seq<u64>> {
        Seq::new(self.rows.len() as nat, |r: int| self.rows[r]@)
    }
}

impl LandZombies {
    /// The zombies recorded for a row; none for a row that the land lacks.
    pub open spec fn row(self, row: int) -> Seq<u64> {
        if 0 <= row < self.rows.len() {
            self.rows[row]@
        } else {
            Seq::empty()
        }
    }

    /// Whether every zombie recorded for `row` stands outside the land.
    pub open spec fn clear(self, row: int, zombies: Seq<Zombie>) -> bool {
        row_clear(self.row(row), zombies)
    }

    /// Records a zombie at the end of a row.
    pub fn add_zombie(&mut self, entity: u64, row: usize)
        requires
            row < old(self).rows.len(),
        ensures
            final(self).rows.len() == old(self).rows.len(),
            final(self).row(row as int) == old(self).row(row as int).push(entity),
            forall|r: int| r != row ==> final(self).row(r) == old(self).row(r),
    {
        let mut list: Vec<u64> = Vec::new();
        std::mem::swap(&mut list, &mut self.rows[row]);
        list.push(entity);
        self.rows.set(row, list);
    }

    /// Whether a row has no zombie on the land. The zombies recorded for
    /// the row are looked up one by one, since a zombie moves while its
    /// record in the index stays: one that stands outside the land does not
    /// count.
    pub fn is_empty(&self, row: usize, zombies: &Vec<Zombie>) -> (empty: bool)
        requires
            distinct_ids(zombies@),
            forall|k: int|
                0 <= k < self.row(row as int).len() ==> listed(zombies@, #[trigger] self.row(row as int)[k]),
        ensures
            empty == self.clear(row as int, zombies@),
    {
        if row >= self.rows.len() {
            return true;
        }
        let list = &self.rows[row];
        assert(list@ == self.row(row as int));
        let mut k: usize = 0;
        while k < list.len()
            invariant
                row < self.rows.len(),
                list@ == self.row(row as int),
                k <= list.len(),
                distinct_ids(zombies@),
                forall|k: int| 0 <= k < list.len() ==> listed(zombies@, #[trigger] list[k]),
                forall|n: int, i: int|
                    0 <= n < k && 0 <= i < zombies.len() && (#[trigger] zombies[i]).id
                        == #[trigger] list[n] ==> !zombies[i].pos.on_land(),
            decreases list.len() - k,
        {
            let found = find_zombie(zombies, list[k]);
            assert(listed(zombies@, list[k as int]));
            match found {
                Some(i) => {
                    if zombies[i].pos.in_land() {
                        assert(zombies[i as int].id == self.row(row as int)[k as int]);
                        return false;
                    }
                },
                None => {},
            }
            k = k + 1;
        }
        true
    }

    /// Takes a zombie out of a row: the first record of it, if there is
    /// one. Hands back where in the row it was.
    pub fn remove_zombie(&mut self, entity: u64, row: usize) -> (removed: Option<usize>)
        requires
            row < old(self).rows.len(),
        ensures
            final(self).rows.len() == old(self).rows.len(),
            forall|r: int| r != row ==> final(self).row(r) == old(self).row(r),
            final(self).row(row as int) == old(self).row(row as int).remove_value(entity),
            match removed {
                Some(at) => at < old(self).row(row as int).len() && old(self).row(row as int)[at as int]
                    == entity && (forall|k: int| 0 <= k < at ==> old(self).row(row as int)[k] != entity)
                    && final(self).row(row as int) == old(self).row(row as int).remove(at as int),
                None => !old(self).row(row as int).contains(entity) && final(self).row(row as int)
                    == old(self).row(row as int),
            },
    {
        let mut list: Vec<u64> = Vec::new();
        std::mem::swap(&mut list, &mut self.rows[row]);
        let ghost before = list@;
        let mut at: usize = 0;
        while at < list.len() && list[at] != entity
            invariant
                at <= list.len(),
                list@ == before,
                forall|k: int| 0 <= k < at ==> list[k] != entity,
            decreases list.len() - at,
        {
            at = at + 1;
        }
        proof {
            before.index_of_first_ensures(entity);
        }
        let removed = if at < list.len() {
            let _ = list.remove(at);
            Some(at)
        } else {
            None
        };
        self.rows.set(row, list);
        removed
    }
}

impl Default for LandZombies {
    /// An empty record for each row of the land.
    fn default() -> (land: LandZombies)
        ensures
            land.rows.len() == LAND_ROWS,
            forall|r: int| land.row(r).len() == 0,
    {
        let mut rows: Vec<Vec<u64>> = Vec::new();
        let mut r: i32 = 0;
        while r < LAND_ROWS
            invariant
                0 <= r <= LAND_ROWS,
                rows.len() == r,
                forall|n: int| 0 <= n < r ==> (#[trigger] rows[n]).len() == 0,
            decreases LAND_ROWS - r,
        {
            rows.push(Vec::new());
            r = r + 1;
        }
        LandZombies { rows }
    }
}

/// Where the record with this identity is kept.
pub open spec fn index_of_zombie(zombies: Seq<Zombie>, id: u64) -> int {
    choose|i: int| 0 <= i < zombies.len() && #[trigger] zombies[i].id == id
}

/// The zombies and the records of the rows after the zombie kept at `index`
/// took a blow of `amount`: its health is lowered, and if none is left it is
/// marked as dying and its row no longer has it.
pub open spec fn struck(zombies: Seq<Zombie>, rows: Seq<Seq<u64>>, index: int, amount: u32) -> (
    Seq<Zombie>,
    Seq<Seq<u64>>,
) {
    let zombie = zombies[index];
    (
        zombies.update(index, Zombie { player: zombie.player.damaged(amount), ..zombie }),
        if zombie.player.health <= amount {
            rows.update(zombie.row(), rows[zombie.row()].remove_value(zombie.id))
        } else {
            rows
        },
    )
}

/// The zombies of a game and the index of their rows.
pub struct Horde {
    pub zombies: Vec<Zombie>,
    pub land: LandZombies,
    /// The identity that the next zombie gets.
    pub next_id: u64,
}

/// Whether `after` is `before` with one more zombie: it has the next
/// identity, its record is the last, and it is recorded at the end of its
/// row.
pub open spec fn joined(before: Horde, after: Horde, zombie: Zombie) -> bool {
    &&& zombie.id == before.next_id
    &&& after.next_id == before.next_id + 1
    &&& after.zombies@ == before.zombies@.push(zombie)
    &&& after.land.row(zombie.row()) == before.land.row(zombie.row()).push(zombie.id)
    &&& forall|r: int| r != zombie.row() ==> after.land.row(r) == before.land.row(r)
}

impl Horde {
    /// Whether a live zombie with this identity is in this row.
    pub open spec fn enrolled(self, id: u64, row: int) -> bool {
        exists|i: int|
            0 <= i < self.zombies.len() && #[trigger] self.zombies[i].id == id
                && self.zombies[i].player.dying is None && self.zombies[i].row() == row
    }

    /// The records and the index agree.
    ///
    /// Every live zombie is recorded in its row, once; every record of a row
    /// is a live zombie of that row; no two zombies share an identity.
    pub open spec fn wf(self) -> bool {
        &&& self.land.rows.len() == LAND_ROWS
        &&& forall|i: int| 0 <= i < self.zombies.len() ==> (#[trigger] self.zombies[i]).wf()
        &&& distinct_ids(self.zombies@)
        &&& forall|i: int|
            0 <= i < self.zombies.len() && (#[trigger] self.zombies[i]).player.dying is None
                ==> self.land.row(self.zombies[i].row()).contains(self.zombies[i].id)
        &&& forall|r: int, k: int|
            0 <= r < LAND_ROWS && 0 <= k < self.land.row(r).len() ==> self.enrolled(
                #[trigger] self.land.row(r)[k],
                r,
            )
        &&& forall|r: int| 0 <= r < LAND_ROWS ==> (#[trigger] self.land.row(r)).no_duplicates()
        &&& forall|i: int| 0 <= i < self.zombies.len() ==> (#[trigger] self.zombies[i]).id < self.next_id
    }

    /// A horde without zombies.
    pub fn new() -> (horde: Horde)
        ensures
            horde.wf(),
            horde.zombies@.len() == 0,
            forall|r: int| horde.land.row(r).len() == 0,
            horde.next_id == 0,
    {
        Horde { zombies: Vec::new(), land: LandZombies::default(), next_id: 0 }
    }

    /// Brings a new zombie into the game at `pos` and records it in its
    /// row, in one step. Hands back its identity.
    pub fn spawn(&mut self, name: &'static str, health: i64, kind: ZombieType, pos: WorldPos, now: u64) -> (id: u64)
        requires
            old(self).wf(),
            old(self).next_id < u64::MAX,
            0 < health,
            0 <= pos.tile().1 < LAND_ROWS,
        ensures
            final(self).wf(),
            id == old(self).next_id,
            joined(
                *old(self),
                *final(self),
                Zombie {
                    id,
                    player: PlayerCommon { name, health, spawned_time: now, dying: None },
                    common: ZombieCommon { state: ZombieState::Walking },
                    kind,
                    pos,
                },
            ),
    {
        let id = self.next_id;
        let record = Zombie {
            id,
            player: PlayerCommon::new(name, health, now),
            common: ZombieCommon::new(),
            kind,
            pos,
        };
        let row = pos.to_tile().1;
        self.zombies.push(record);
        self.land.add_zombie(id, row as usize);
        self.next_id = id + 1;
        proof {
            let last = self.zombies.len() - 1;
            assert(self.zombies[last] == record);
            assert forall|i: int| 0 <= i < last implies self.zombies[i] == old(self).zombies[i] by {}
            assert forall|r: int, k: int|
                0 <= r < LAND_ROWS && 0 <= k < self.land.row(r).len() implies self.enrolled(
                #[trigger] self.land.row(r)[k],
                r,
            ) by {
                if r == row && k == old(self).land.row(r).len() {
                    assert(self.zombies[last].id == id);
                } else {
                    assert(self.land.row(r)[k] == old(self).land.row(r)[k]);
                    assert(old(self).enrolled(old(self).land.row(r)[k], r));
                    let i = choose|i: int|
                        0 <= i < old(self).zombies.len() && #[trigger] old(self).zombies[i].id == old(
                            self,
                        ).land.row(r)[k] && old(self).zombies[i].player.dying is None && old(
                            self,
                        ).zombies[i].row() == r;
                    assert(self.zombies[i] == old(self).zombies[i]);
                }
            }
            assert forall|r: int| 0 <= r < LAND_ROWS implies (#[trigger] self.land.row(r)).no_duplicates() by {
                assert(old(self).land.row(r).no_duplicates());
                if r == row {
                    assert forall|k: int| 0 <= k < old(self).land.row(r).len() implies old(
                        self,
                    ).land.row(r)[k] != id by {
                        assert(old(self).enrolled(old(self).land.row(r)[k], r));
                    }
                }
            }
            assert forall|i: int|
                0 <= i < self.zombies.len() && (#[trigger] self.zombies[i]).player.dying is None implies self.land.row(
                self.zombies[i].row(),
            ).contains(self.zombies[i].id) by {
                if i == last {
                    assert(self.land.row(row as int)[old(self).land.row(row as int).len() as int] == id);
                } else {
                    let r = self.zombies[i].row();
                    assert(old(self).land.row(r).contains(old(self).zombies[i].id));
                    let k = choose|k: int|
                        0 <= k < old(self).land.row(r).len() && old(self).land.row(r)[k] == old(
                            self,
                        ).zombies[i].id;
                    assert(self.land.row(r)[k] == old(self).zombies[i].id);
                }
            }
        }
        id
    }

    /// Deals a blow to a live zombie. A zombie that dies of it leaves the
    /// index at once; its record stays, marked as dying, until the dead are
    /// cleared away.
    pub fn hurt(&mut self, index: usize, amount: u32) -> (event: Option<DieEvent>)
        requires
            old(self).wf(),
            index < old(self).zombies.len(),
            old(self).zombies[index as int].player.dying is None,
        ensures
            final(self).wf(),
            final(self).zombies@ == old(self).zombies@.update(
                index as int,
                Zombie {
                    player: old(self).zombies[index as int].player.damaged(amount),
                    ..old(self).zombies[index as int]
                },
            ),
            event is Some <==> old(self).zombies[index as int].player.health <= amount,
            event is Some ==> final(self).land.row(old(self).zombies[index as int].row()) == old(
                self,
            ).land.row(old(self).zombies[index as int].row()).remove_value(
                old(self).zombies[index as int].id,
            ),
            forall|r: int|
                event is None || r != old(self).zombies[index as int].row() ==> final(self).land.row(r)
                    == old(self).land.row(r),
            (final(self).zombies@, final(self).land@) == struck(
                old(self).zombies@,
                old(self).land@,
                index as int,
                amount,
            ),
            final(self).next_id == old(self).next_id,
    {
        let mut record = self.zombies[index];
        let event = record.player.damage(amount);
        self.zombies.set(index, record);
        if event.is_some() {
            let row = record.pos.to_tile().1;
            let ghost list = self.land.row(row as int);
            let removed = self.land.remove_zombie(record.id, row as usize);
            proof {
                assert(list.contains(record.id));
                let at = removed.unwrap() as int;
                assert(list.index_of_first(record.id) == Some(at)) by {
                    list.index_of_first_ensures(record.id);
                }
                let rest = self.land.row(row as int);
                assert(rest == list.remove(at));
                assert forall|k: int| 0 <= k < rest.len() implies #[trigger] rest[k] != record.id
                    && list.contains(rest[k]) by {
                    if k < at {
                        assert(rest[k] == list[k]);
                    } else {
                        assert(rest[k] == list[k + 1]);
                    }
                }
                assert forall|r: int, k: int|
                    0 <= r < LAND_ROWS && 0 <= k < self.land.row(r).len() implies self.enrolled(
                    #[trigger] self.land.row(r)[k],
                    r,
                ) by {
                    let listed_id = self.land.row(r)[k];
                    assert(old(self).land.row(r).contains(listed_id));
                    let n = choose|n: int|
                        0 <= n < old(self).land.row(r).len() && old(self).land.row(r)[n] == listed_id;
                    assert(old(self).enrolled(old(self).land.row(r)[n], r));
                    let i = choose|i: int|
                        0 <= i < old(self).zombies.len() && #[trigger] old(self).zombies[i].id
                            == listed_id && old(self).zombies[i].player.dying is None && old(
                            self,
                        ).zombies[i].row() == r;
                    if i == index {
                        assert(r == row);
                    } else {
                        assert(self.zombies[i] == old(self).zombies[i]);
                    }
                }
                assert forall|r: int| 0 <= r < LAND_ROWS implies (#[trigger] self.land.row(
                    r,
                )).no_duplicates() by {
                    assert(old(self).land.row(r).no_duplicates());
                    if r == row {
                        assert forall|a: int, b: int|
                            0 <= a < rest.len() && 0 <= b < rest.len() && a != b implies rest[a]
                            != rest[b] by {
                            let a0 = if a < at { a } else { a + 1 };
                            let b0 = if b < at { b } else { b + 1 };
                            assert(rest[a] == list[a0]);
                            assert(rest[b] == list[b0]);
                        }
                    }
                }
                assert forall|i: int|
                    0 <= i < self.zombies.len() && (#[trigger] self.zombies[i]).player.dying is None implies self.land.row(
                    self.zombies[i].row(),
                ).contains(self.zombies[i].id) by {
                    assert(i != index);
                    assert(self.zombies[i] == old(self).zombies[i]);
                    let r = self.zombies[i].row();
                    assert(old(self).land.row(r).contains(old(self).zombies[i].id));
                    if r == row {
                        let n = choose|n: int| 0 <= n < list.len() && list[n] == old(self).zombies[i].id;
                        assert(n != at);
                        if n < at {
                            assert(rest[n] == list[n]);
                        } else {
                            assert(rest[n - 1] == list[n]);
                        }
                    }
                }
            }
        } else {
            proof {
                assert forall|r: int, k: int|
                    0 <= r < LAND_ROWS && 0 <= k < self.land.row(r).len() implies self.enrolled(
                    #[trigger] self.land.row(r)[k],
                    r,
                ) by {
                    assert(old(self).enrolled(old(self).land.row(r)[k], r));
                    let i = choose|i: int|
                        0 <= i < old(self).zombies.len() && #[trigger] old(self).zombies[i].id == old(
                            self,
                        ).land.row(r)[k] && old(self).zombies[i].player.dying is None && old(
                            self,
                        ).zombies[i].row() == r;
                    assert(self.zombies[i].id == old(self).zombies[i].id);
                }
            }
        }
        proof {
            let (zombies, rows) = struck(old(self).zombies@, old(self).land@, index as int, amount);
            assert(old(self).zombies[index as int].wf());
            assert forall|r: int| 0 <= r < LAND_ROWS implies #[trigger] self.land@[r] == rows[r] by {
                assert(self.land@[r] == self.land.row(r));
                assert(old(self).land@[r] == old(self).land.row(r));
            }
            assert(self.land@ =~= rows);
        }
        event
    }
}

impl Horde {
    /// Gives a zombie a new state and a new position in its row.
    pub fn shift(&mut self, index: usize, state: ZombieState, pos: WorldPos)
        requires
            old(self).wf(),
            index < old(self).zombies.len(),
            pos.tile().1 == old(self).zombies[index as int].pos.tile().1,
        ensures
            final(self).wf(),
            final(self).zombies@ == old(self).zombies@.update(
                index as int,
                Zombie { common: ZombieCommon { state }, pos, ..old(self).zombies[index as int] },
            ),
            final(self).land == old(self).land,
            final(self).next_id == old(self).next_id,
    {
        let mut record = self.zombies[index];
        record.common = ZombieCommon { state };
        record.pos = pos;
        self.zombies.set(index, record);
        proof {
            assert forall|r: int, k: int|
                0 <= r < LAND_ROWS && 0 <= k < self.land.row(r).len() implies self.enrolled(
                #[trigger] self.land.row(r)[k],
                r,
            ) by {
                assert(old(self).enrolled(old(self).land.row(r)[k], r));
                let i = choose|i: int|
                    0 <= i < old(self).zombies.len() && #[trigger] old(self).zombies[i].id == old(
                        self,
                    ).land.row(r)[k] && old(self).zombies[i].player.dying is None && old(
                        self,
                    ).zombies[i].row() == r;
                assert(self.zombies[i].id == old(self).zombies[i].id);
            }
        }
    }

    /// Whether a live zombie has walked past the left edge of the land.
    pub open spec fn breached(self) -> bool {
        overrun_by(self.zombies@)
    }

    /// Whether a live zombie has walked past the left edge of the land:
    /// the lawn is overrun, and the game is lost.
    pub fn overrun(&self) -> (lost: bool)
        ensures
            lost == self.breached(),
    {
        let mut i: usize = 0;
        while i < self.zombies.len()
            invariant
                i <= self.zombies.len(),
                forall|k: int|
                    0 <= k < i ==> !((#[trigger] self.zombies[k]).player.dying is None
                        && self.zombies[k].pos.x < LAND_LEFT_EDGE_X),
            decreases self.zombies.len() - i,
        {
            if self.zombies[i].player.dying.is_none() && self.zombies[i].pos.x < LAND_LEFT_EDGE_X {
                return true;
            }
            i = i + 1;
        }
        false
    }
}

/// A change of the record of a row.
pub enum RowOp {
    /// A zombie is recorded at the end of the row.
    Add(u64),
    /// The first record of a zombie is taken out of the row.
    Remove(u64),
}

/// The record of a row that was empty, after a series of changes.
pub open spec fn row_after(ops: Seq<RowOp>) -> Seq<u64>
    decreases ops.len(),
{
    if ops.len() == 0 {
        Seq::empty()
    } else {
        match ops.last() {
            RowOp::Add(id) => row_after(ops.drop_last()).push(id),
            RowOp::Remove(id) => row_after(ops.drop_last()).remove_value(id),
        }
    }
}

/// Whether a zombie was added in a series of changes and not removed since.
pub open spec fn pending(ops: Seq<RowOp>, id: u64) -> bool {
    exists|p: int|
        0 <= p < ops.len() && #[trigger] ops[p] == RowOp::Add(id) && forall|q: int|
            p < q < ops.len() ==> #[trigger] ops[q] != RowOp::Remove(id)
}

/// Whether no zombie is added twice in a series of changes.
pub open spec fn added_once(ops: Seq<RowOp>) -> bool {
    forall|p: int, q: int|
        0 <= p < q < ops.len() && (#[trigger] ops[p]) is Add ==> #[trigger] ops[q] != ops[p]
}

/// A sequence without its first `id` has what it had, but for `id`, if it had
/// nothing twice.
proof fn lemma_remove_value_takes_one(list: Seq<u64>, id: u64)
    requires
        list.no_duplicates(),
    ensures
        list.remove_value(id).no_duplicates(),
        forall|x: u64| list.remove_value(id).contains(x) <==> list.contains(x) && x != id,
{
    list.index_of_first_ensures(id);
    let rest = list.remove_value(id);
    match list.index_of_first(id) {
        Some(at) => {
            assert(rest == list.remove(at));
            assert forall|x: u64| rest.contains(x) <==> list.contains(x) && x != id by {
                if rest.contains(x) {
                    let k = choose|k: int| 0 <= k < rest.len() && rest[k] == x;
                    if k < at {
                        assert(rest[k] == list[k]);
                    } else {
                        assert(rest[k] == list[k + 1]);
                    }
                }
                if list.contains(x) && x != id {
                    let n = choose|n: int| 0 <= n < list.len() && list[n] == x;
                    if n < at {
                        assert(rest[n] == x);
                    } else {
                        assert(rest[n - 1] == x);
                    }
                }
            }
            assert forall|a: int, b: int| 0 <= a < rest.len() && 0 <= b < rest.len() && a != b implies rest[a]
                != rest[b] by {
                let a0 = if a < at { a } else { a + 1 };
                let b0 = if b < at { b } else { b + 1 };
                assert(rest[a] == list[a0]);
                assert(rest[b] == list[b0]);
            }
        },
        None => {},
    }
}

/// The record of a row holds exactly the zombies that were added and not
/// removed since, each once, provided that no zombie was added twice.
pub proof fn lemma_row_holds_the_pending(ops: Seq<RowOp>)
    requires
        added_once(ops),
    ensures
        row_after(ops).no_duplicates(),
        forall|id: u64| row_after(ops).contains(id) <==> pending(ops, id),
    decreases ops.len(),
{
    if ops.len() == 0 {
        assert forall|id: u64| !row_after(ops).contains(id) && !pending(ops, id) by {}
    } else {
        let earlier = ops.drop_last();
        let last = ops.len() - 1;
        assert forall|p: int| 0 <= p < earlier.len() implies #[trigger] earlier[p] == ops[p] by {}
        assert(added_once(earlier)) by {
            assert forall|p: int, q: int|
                0 <= p < q < earlier.len() && (#[trigger] earlier[p]) is Add implies #[trigger] earlier[q]
                != earlier[p] by {
                assert(ops[q] != ops[p]);
            }
        }
        lemma_row_holds_the_pending(earlier);
        let before = row_after(earlier);
        match ops.last() {
            RowOp::Add(new) => {
                assert(!pending(earlier, new)) by {
                    if pending(earlier, new) {
                        let p = choose|p: int|
                            0 <= p < earlier.len() && #[trigger] earlier[p] == RowOp::Add(new) && forall|
                                q: int,
                            |
                                p < q < earlier.len() ==> #[trigger] earlier[q] != RowOp::Remove(new);
                        assert(ops[p] is Add);
                        assert(ops[last] != ops[p]);
                    }
                }
                assert(!before.contains(new));
                assert forall|id: u64| row_after(ops).contains(id) <==> pending(ops, id) by {
                    let now = row_after(ops);
                    assert(now == before.push(new));
                    if id == new {
                        assert(now[before.len() as int] == new);
                        assert(ops[last] == RowOp::Add(id));
                    } else {
                        if now.contains(id) {
                            let k = choose|k: int| 0 <= k < now.len() && now[k] == id;
                            assert(before[k] == id);
                            assert(pending(earlier, id));
                        }
                        if pending(earlier, id) {
                            let p = choose|p: int|
                                0 <= p < earlier.len() && #[trigger] earlier[p] == RowOp::Add(id) && forall|
                                    q: int,
                                |
                                    p < q < earlier.len() ==> #[trigger] earlier[q] != RowOp::Remove(id);
                            assert(ops[p] == RowOp::Add(id));
                            assert forall|q: int| p < q < ops.len() implies #[trigger] ops[q] != RowOp::Remove(
                                id,
                            ) by {
                                if q < last {
                                    assert(earlier[q] != RowOp::Remove(id));
                                }
                            }
                            assert(before.contains(id));
                            let k = choose|k: int| 0 <= k < before.len() && before[k] == id;
                            assert(now[k] == id);
                        }
                        if pending(ops, id) {
                            let p = choose|p: int|
                                0 <= p < ops.len() && #[trigger] ops[p] == RowOp::Add(id) && forall|q: int|
                                    p < q < ops.len() ==> #[trigger] ops[q] != RowOp::Remove(id);
                            assert(p < last);
                            assert(earlier[p] == RowOp::Add(id));
                            assert forall|q: int| p < q < earlier.len() implies #[trigger] earlier[q]
                                != RowOp::Remove(id) by {
                                assert(ops[q] != RowOp::Remove(id));
                            }
                            assert(pending(earlier, id));
                        }
                    }
                }
                assert(row_after(ops).no_duplicates()) by {
                    let now = row_after(ops);
                    assert forall|a: int, b: int| 0 <= a < now.len() && 0 <= b < now.len() && a != b implies now[a]
                        != now[b] by {
                        if a == before.len() {
                            assert(before.contains(now[b]));
                        } else if b == before.len() {
                            assert(before.contains(now[a]));
                        }
                    }
                }
            },
            RowOp::Remove(gone) => {
                lemma_remove_value_takes_one(before, gone);
                assert forall|id: u64| row_after(ops).contains(id) <==> pending(ops, id) by {
                    if id == gone {
                        if pending(ops, id) {
                            let p = choose|p: int|
                                0 <= p < ops.len() && #[trigger] ops[p] == RowOp::Add(id) && forall|q: int|
                                    p < q < ops.len() ==> #[trigger] ops[q] != RowOp::Remove(id);
                            assert(ops[last] != RowOp::Remove(id));
                        }
                    } else {
                        if pending(earlier, id) {
                            let p = choose|p: int|
                                0 <= p < earlier.len() && #[trigger] earlier[p] == RowOp::Add(id) && forall|
                                    q: int,
                                |
                                    p < q < earlier.len() ==> #[trigger] earlier[q] != RowOp::Remove(id);
                            assert(ops[p] == RowOp::Add(id));
                            assert forall|q: int| p < q < ops.len() implies #[trigger] ops[q] != RowOp::Remove(
                                id,
                            ) by {
                                if q < last {
                                    assert(earlier[q] != RowOp::Remove(id));
                                }
                            }
                        }
                        if pending(ops, id) {
                            let p = choose|p: int|
                                0 <= p < ops.len() && #[trigger] ops[p] == RowOp::Add(id) && forall|q: int|
                                    p < q < ops.len() ==> #[trigger] ops[q] != RowOp::Remove(id);
                            assert(p < last);
                            assert(earlier[p] == RowOp::Add(id));
                            assert forall|q: int| p < q < earlier.len() implies #[trigger] earlier[q]
                                != RowOp::Remove(id) by {
                                assert(ops[q] != RowOp::Remove(id));
                            }
                            assert(pending(earlier, id));
                        }
                    }
                }
            },
        }
    }
}

/// Row-clear correctness: a row counts as clear if and only if every zombie
/// that was added to its record and not removed since stands outside the
/// land. (No zombie is added twice: each has an identity of its own.)
pub proof fn lemma_row_clear_is_exact(ops: Seq<RowOp>, zombies: Seq<Zombie>)
    requires
        added_once(ops),
    ensures
        row_clear(row_after(ops), zombies) <==> forall|i: int|
            0 <= i < zombies.len() && pending(ops, (#[trigger] zombies[i]).id) ==> !zombies[i].pos.on_land(),
{
    lemma_row_holds_the_pending(ops);
    let list = row_after(ops);
    if row_clear(list, zombies) {
        assert forall|i: int|
            0 <= i < zombies.len() && pending(ops, (#[trigger] zombies[i]).id) implies !zombies[i].pos.on_land() by {
            assert(list.contains(zombies[i].id));
            let k = choose|k: int| 0 <= k < list.len() && list[k] == zombies[i].id;
            assert(zombies[i].id == list[k]);
        }
    }
    if forall|i: int|
        0 <= i < zombies.len() && pending(ops, (#[trigger] zombies[i]).id) ==> !zombies[i].pos.on_land() {
        assert forall|k: int, i: int|
            0 <= k < list.len() && 0 <= i < zombies.len() && (#[trigger] zombies[i]).id
                == #[trigger] list[k] implies !zombies[i].pos.on_land() by {
            assert(list.contains(list[k]));
            assert(pending(ops, list[k]));
        }
    }
}

/// The zombies that are not dying, in their order.
pub open spec fn living(zombies: Seq<Zombie>) -> Seq<Zombie>
    decreases zombies.len(),
{
    if zombies.len() == 0 {
        Seq::empty()
    } else if zombies.last().player.dying is None {
        living(zombies.drop_last()).push(zombies.last())
    } else {
        living(zombies.drop_last())
    }
}

impl Horde {
    /// Drops the records of the zombies that are dying. The index had given
    /// them up when they died.
    pub fn clear_dead(&mut self)
        requires
            old(self).wf(),
        ensures
            final(self).wf(),
            final(self).zombies@ == living(old(self).zombies@),
            forall|i: int|
                0 <= i < final(self).zombies.len() ==> (#[trigger] final(self).zombies[i]).player.dying is None,
            forall|i: int|
                0 <= i < final(self).zombies.len() ==> old(self).zombies@.contains(
                    #[trigger] final(self).zombies[i],
                ),
            final(self).land == old(self).land,
            final(self).next_id == old(self).next_id,
    {
        let mut kept: Vec<Zombie> = Vec::new();
        let count = self.zombies.len();
        let mut i: usize = 0;
        while i < count
            invariant
                i <= count,
                count == self.zombies.len(),
                *self == *old(self),
                self.wf(),
                kept@ == living(self.zombies@.take(i as int)),
                forall|k: int|
                    0 <= k < kept.len() ==> exists|j: int|
                        0 <= j < i && #[trigger] self.zombies[j] == #[trigger] kept[k],
                forall|k: int| 0 <= k < kept.len() ==> (#[trigger] kept[k]).player.dying is None,
                forall|j: int|
                    0 <= j < i && (#[trigger] self.zombies[j]).player.dying is None ==> kept@.contains(
                        self.zombies[j],
                    ),
                forall|a: int, b: int|
                    0 <= a < b < kept.len() ==> (#[trigger] kept[a]).id != (#[trigger] kept[b]).id,
            decreases count - i,
        {
            let zombie = self.zombies[i];
            let ghost before = kept@;
            assert(self.zombies@.take(i + 1).drop_last() =~= self.zombies@.take(i as int));
            assert(self.zombies@.take(i + 1).last() == zombie);
            if zombie.player.dying.is_none() {
                kept.push(zombie);
                proof {
                    assert(kept[kept.len() - 1] == self.zombies[i as int]);
                    assert forall|j: int|
                        0 <= j < i + 1 && (#[trigger] self.zombies[j]).player.dying is None implies kept@.contains(
                        self.zombies[j],
                    ) by {
                        if j < i {
                            assert(before.contains(self.zombies[j]));
                            let k = choose|k: int| 0 <= k < before.len() && before[k] == self.zombies[j];
                            assert(kept[k] == self.zombies[j]);
                        }
                    }
                    assert forall|a: int, b: int| 0 <= a < b < kept.len() implies (#[trigger] kept[a]).id != (
                    #[trigger] kept[b]).id by {
                        if b == kept.len() - 1 {
                            let j = choose|j: int|
                                0 <= j < i && #[trigger] self.zombies[j] == #[trigger] before[a];
                            assert(self.zombies[j].id != self.zombies[i as int].id);
                        }
                    }
                }
            }
            i = i + 1;
        }
        assert(self.zombies@.take(count as int) =~= self.zombies@);
        let ghost all = self.zombies@;
        assert forall|k: int| 0 <= k < kept.len() implies exists|j: int|
            0 <= j < all.len() && #[trigger] all[j] == #[trigger] kept[k] by {
            let j = choose|j: int| 0 <= j < i && #[trigger] self.zombies[j] == #[trigger] kept[k];
            assert(all[j] == kept[k]);
        }
        self.zombies = kept;
        proof {
            assert forall|r: int, k: int|
                0 <= r < LAND_ROWS && 0 <= k < self.land.row(r).len() implies self.enrolled(
                #[trigger] self.land.row(r)[k],
                r,
            ) by {
                assert(old(self).enrolled(old(self).land.row(r)[k], r));
                let j = choose|j: int|
                    0 <= j < all.len() && #[trigger] all[j].id == old(self).land.row(r)[k]
                        && all[j].player.dying is None && all[j].row() == r;
                assert(self.zombies@.contains(all[j]));
                let n = choose|n: int| 0 <= n < self.zombies.len() && self.zombies[n] == all[j];
                assert(self.zombies[n].id == all[j].id);
            }
            assert forall|k: int| 0 <= k < self.zombies.len() implies (#[trigger] self.zombies[k]).wf()
                && self.zombies[k].id < self.next_id && all.contains(self.zombies[k]) && (
            self.zombies[k].player.dying is None ==> self.land.row(self.zombies[k].row()).contains(
                self.zombies[k].id,
            )) by {
                let j = choose|j: int| 0 <= j < all.len() && #[trigger] all[j] == #[trigger] self.zombies[k];
                assert(all[j].wf());
            }
        }
    }
}

/// How far a zombie walks in a millisecond, in steps: one world unit in 100
/// milliseconds.
pub const ZOMBIE_SPEED: i64 = 3;

/// What the zombies' turns read and change: the zombies, the plants, and the
/// table of planted tiles.
pub struct Field {
    pub zombies: Seq<Zombie>,
    pub plants: Seq<Plant>,
    pub tiles: Map<(i32, i32), Option<u64>>,
}

/// The field after zombie `i` took its turn in a tick of `delta`
/// milliseconds.
///
/// A dying zombie does nothing. A live one looks at the tile it stands on.
/// If a plant is there, the zombie is eating: it stays where it is and the
/// plant takes a blow of `delta`. If not, the zombie is walking: it goes
/// left by [`ZOMBIE_SPEED`] steps for each millisecond.
pub open spec fn after_turn(field: Field, i: int, delta: u32) -> Field {
    let zombie = field.zombies[i];
    if zombie.player.dying is Some {
        field
    } else {
        match occupant_of(field.tiles, zombie.pos.tile()) {
            Some(target) => {
                let (plants, tiles) = bitten(field.plants, field.tiles, target, delta);
                Field {
                    zombies: field.zombies.update(
                        i,
                        Zombie { common: ZombieCommon { state: ZombieState::Eating }, ..zombie },
                    ),
                    plants,
                    tiles,
                }
            },
            None => Field {
                zombies: field.zombies.update(
                    i,
                    Zombie {
                        common: ZombieCommon { state: ZombieState::Walking },
                        pos: WorldPos {
                            x: (zombie.pos.x - ZOMBIE_SPEED * delta) as i64,
                            y: zombie.pos.y,
                        },
                        ..zombie
                    },
                ),
                ..field
            },
        }
    }
}

/// The field after the first `n` zombies took their turns, in order.
pub open spec fn after_turns(field: Field, n: nat, delta: u32) -> Field
    decreases n,
{
    if n == 0 {
        field
    } else {
        after_turn(after_turns(field, (n - 1) as nat, delta), n - 1, delta)
    }
}

/// Moves the zombies forward, or lets them eat: each zombie takes its turn,
/// in the order of the records (see [`after_turn`]). A plant that is eaten
/// up leaves the index at once, so a zombie whose turn comes later finds its
/// tile empty.
pub fn move_zombies(horde: &mut Horde, garden: &mut Garden, delta: u32)
    requires
        old(horde).wf(),
        old(garden).wf(),
        forall|i: int|
            0 <= i < old(horde).zombies.len() ==> (#[trigger] old(horde).zombies[i]).pos.x - ZOMBIE_SPEED
                * delta >= i64::MIN,
    ensures
        final(horde).wf(),
        final(garden).wf(),
        (Field {
            zombies: final(horde).zombies@,
            plants: final(garden).plants@,
            tiles: final(garden).land@,
        }) == after_turns(
            Field { zombies: old(horde).zombies@, plants: old(garden).plants@, tiles: old(garden).land@ },
            old(horde).zombies@.len(),
            delta,
        ),
        final(horde).land == old(horde).land,
        final(horde).next_id == old(horde).next_id,
        final(garden).next_id == old(garden).next_id,
        final(horde).zombies@.len() == old(horde).zombies@.len(),
        forall|i: int|
            0 <= i < old(horde).zombies@.len() ==> {
                &&& (#[trigger] final(horde).zombies[i]).id == old(horde).zombies[i].id
                &&& final(horde).zombies[i].player == old(horde).zombies[i].player
                &&& final(horde).zombies[i].kind == old(horde).zombies[i].kind
                &&& final(horde).zombies[i].pos.y == old(horde).zombies[i].pos.y
                &&& old(horde).zombies[i].pos.x - ZOMBIE_SPEED * delta <= final(horde).zombies[i].pos.x
                    <= old(horde).zombies[i].pos.x
            },
        final(garden).plants@.len() == old(garden).plants@.len(),
{
    let ghost start = Field {
        zombies: horde.zombies@,
        plants: garden.plants@,
        tiles: garden.land@,
    };
    let count = horde.zombies.len();
    let mut i: usize = 0;
    while i < count
        invariant
            i <= count,
            count == horde.zombies.len(),
            count == start.zombies.len(),
            horde.wf(),
            garden.wf(),
            (Field { zombies: horde.zombies@, plants: garden.plants@, tiles: garden.land@ })
                == after_turns(start, i as nat, delta),
            forall|k: int| i <= k < count ==> horde.zombies[k] == start.zombies[k],
            forall|k: int|
                0 <= k < count ==> (#[trigger] start.zombies[k]).pos.x - ZOMBIE_SPEED * delta
                    >= i64::MIN,
            forall|k: int|
                0 <= k < i ==> {
                    &&& (#[trigger] horde.zombies[k]).id == start.zombies[k].id
                    &&& horde.zombies[k].player == start.zombies[k].player
                    &&& horde.zombies[k].kind == start.zombies[k].kind
                    &&& horde.zombies[k].pos.y == start.zombies[k].pos.y
                    &&& start.zombies[k].pos.x - ZOMBIE_SPEED * delta <= horde.zombies[k].pos.x
                        <= start.zombies[k].pos.x
                },
            garden.plants@.len() == old(garden).plants@.len(),
            horde.land == old(horde).land,
            horde.next_id == old(horde).next_id,
            garden.next_id == old(garden).next_id,
        decreases count - i,
    {
        let zombie = horde.zombies[i];
        assert(zombie == start.zombies[i as int]);
        if zombie.player.dying.is_none() {
            match garden.land.get(zombie.pos.to_tile()) {
                Some(target) => {
                    assert(garden.land.occupant(zombie.pos.tile()) == Some(target));
                    let _ = garden.bite(target, delta);
                    horde.shift(i, ZombieState::Eating, zombie.pos);
                },
                None => {
                    let speed: i64 = ZOMBIE_SPEED;
                    assert(speed * delta <= 3 * 0xffff_ffff) by (nonlinear_arith)
                        requires
                            speed == 3,
                            delta <= 0xffff_ffff,
                    ;
                    let pos = WorldPos { x: zombie.pos.x - speed * (delta as i64), y: zombie.pos.y };
                    horde.shift(i, ZombieState::Walking, pos);
                },
            }
        }
        i = i + 1;
    }
}

} // verus!
