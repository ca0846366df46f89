//! What plants and zombies have in common: a name, health points, and the
//! way they take damage and die.
//!
//! Health is counted in hundredths of a point, so that the damage a zombie
//! does in one millisecond of eating is one unit.

use crate::plants::Garden;
use crate::zombies::Horde;
use vstd::prelude::*;

verus! {

/// Health units in one health point.
pub const HEALTH_SCALE: i64 = 100;

/// The health a combatant has if nothing else is said: 100 points.
pub const DEFAULT_HEALTH: i64 = 10000;

/// Marks an entity as dying: it takes no further part in the game and is
/// dropped from its store at the end of the tick.
#[derive(Clone, Copy, Debug, PartialEq, Eq, Structural)]
pub struct Dying;

/// Raised by the blow that brings a combatant's health to zero or below.
#[derive(Clone, Copy, Debug, PartialEq, Eq, Structural)]
pub struct DieEvent;

/// The part common to plants and zombies.
#[derive(Clone, Copy, Debug)]
pub struct PlayerCommon {
    pub name: &'static str,
    /// Health left, in hundredths of a point.
    pub health: i64,
    /// When the combatant came into the game, in milliseconds of game time.
    pub spawned_time: u64,
    /// Set by the blow that kills, and never taken back.
    pub dying: Option<Dying>,
}

/// The sum of a sequence of damage amounts.
pub open spec fn total_damage(amounts: Seq<u32>) -> int
    decreases amounts.len(),
{
    if amounts.len() == 0 {
        0
    } else {
        total_damage(amounts.drop_last()) + amounts.last()
    }
}

impl PlayerCommon {
    /// Whether the combatant still takes part in the game.
    pub open spec fn alive(self) -> bool {
        self.dying is None
    }

    /// The combatant after one blow of `amount`.
    pub open spec fn damaged(self, amount: u32) -> PlayerCommon {
        PlayerCommon {
            name: self.name,
            health: (self.health - amount) as i64,
            spawned_time: self.spawned_time,
            dying: if self.health - amount <= 0 {
                Some(Dying)
            } else {
                self.dying
            },
        }
    }

    /// The combatant after a series of blows, taken in order.
    pub open spec fn damaged_by_all(self, amounts: Seq<u32>) -> PlayerCommon
        decreases amounts.len(),
    {
        if amounts.len() == 0 {
            self
        } else {
            self.damaged_by_all(amounts.drop_last()).damaged(amounts.last())
        }
    }

    /// A combatant that enters the game at `now`, in full health.
    pub fn new(name: &'static str, health: i64, now: u64) -> (player: PlayerCommon)
        requires
            health > 0,
        ensures
            player.name == name,
            player.health == health,
            player.spawned_time == now,
            player.dying is None,
    {
        PlayerCommon { name, health, spawned_time: now, dying: None }
    }

    /// Takes `amount` from the health. If that leaves nothing, the combatant
    /// is marked as dying; the blow that sets the mark raises the event, and
    /// later blows only lower the health further.
    pub fn damage(&mut self, amount: u32) -> (event: Option<DieEvent>)
        requires
            old(self).health - amount >= i64::MIN,
        ensures
            *final(self) == old(self).damaged(amount),
            final(self).health == old(self).health - amount,
            event is Some <==> (old(self).dying is None && final(self).health <= 0),
    {
        self.health = self.health - amount as i64;
        if self.health <= 0 {
            let first = self.dying.is_none();
            self.dying = Some(Dying);
            if first {
                return Some(DieEvent);
            }
        }
        None
    }
}

impl Default for PlayerCommon {
    /// A combatant without a name of its own, in full health.
    fn default() -> (player: PlayerCommon)
        ensures
            player.name == "Default",
            player.health == DEFAULT_HEALTH,
            player.spawned_time == 0,
            player.dying is None,
    {
        PlayerCommon { name: "Default", health: DEFAULT_HEALTH, spawned_time: 0, dying: None }
    }
}

/// Clears the dead away: the records of the plants and zombies that have no
/// health left are dropped. The indices had given them up when they died.
pub fn dead_cleaner(garden: &mut Garden, horde: &mut Horde)
    requires
        old(garden).wf(),
        old(horde).wf(),
    ensures
        final(garden).wf(),
        final(horde).wf(),
        final(garden).plants@ == crate::plants::living(old(garden).plants@),
        final(horde).zombies@ == crate::zombies::living(old(horde).zombies@),
        forall|i: int|
            0 <= i < final(garden).plants.len() ==> (#[trigger] final(garden).plants[i]).player.dying is None
                && old(garden).plants@.contains(final(garden).plants[i]),
        forall|i: int|
            0 <= i < final(horde).zombies.len() ==> (#[trigger] final(horde).zombies[i]).player.dying is None
                && old(horde).zombies@.contains(final(horde).zombies[i]),
        final(garden).land == old(garden).land,
        final(horde).land == old(horde).land,
        final(garden).next_id == old(garden).next_id,
        final(horde).next_id == old(horde).next_id,
{
    garden.clear_dead();
    horde.clear_dead();
}

/// The damage of a series of blows is at least that of any part of it taken
/// from the start.
pub proof fn lemma_total_damage_grows(amounts: Seq<u32>, k: int)
    requires
        0 <= k <= amounts.len(),
    ensures
        0 <= total_damage(amounts.take(k)) <= total_damage(amounts),
    decreases amounts.len(),
{
    if k == amounts.len() {
        assert(amounts.take(k) =~= amounts);
        if amounts.len() > 0 {
            lemma_total_damage_grows(amounts.drop_last(), k - 1);
        }
    } else {
        assert(amounts.drop_last().take(k) =~= amounts.take(k));
        lemma_total_damage_grows(amounts.drop_last(), k);
    }
}

/// Damage adds up: after blows of `amounts` a combatant that started alive
/// with health `H` has health `H` less their sum, and it is marked as dying
/// if and only if the running sum reached `H` at some point.
pub proof fn lemma_damage_adds_up(player: PlayerCommon, amounts: Seq<u32>)
    requires
        player.health > 0,
        player.dying is None,
        player.health - total_damage(amounts) >= i64::MIN,
    ensures
        player.damaged_by_all(amounts).health == player.health - total_damage(amounts),
        player.damaged_by_all(amounts).name == player.name,
        player.damaged_by_all(amounts).spawned_time == player.spawned_time,
        player.damaged_by_all(amounts).dying is Some <==> exists|k: int|
            0 <= k <= amounts.len() && #[trigger] total_damage(amounts.take(k)) >= player.health,
        player.damaged_by_all(amounts).dying is Some <==> total_damage(amounts) >= player.health,
    decreases amounts.len(),
{
    if amounts.len() == 0 {
        assert forall|k: int| 0 <= k <= amounts.len() implies !(#[trigger] total_damage(
            amounts.take(k),
        ) >= player.health) by {
            assert(amounts.take(k) =~= amounts);
        }
    } else {
        let before = amounts.drop_last();
        lemma_total_damage_grows(amounts, amounts.len() - 1);
        assert(amounts.take(amounts.len() - 1) =~= before);
        lemma_damage_adds_up(player, before);
        assert(amounts.take(amounts.len() as int) =~= amounts);
        assert forall|k: int| 0 <= k <= amounts.len() implies total_damage(
            #[trigger] amounts.take(k),
        ) <= total_damage(amounts) by {
            lemma_total_damage_grows(amounts, k);
        }
    }
}

} // verus!
