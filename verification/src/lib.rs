//! The simulation behind a game of plants against zombies.
//!
//! Zombies come from the right edge of a lawn of nine by five tiles and walk
//! to the left, eating the plants in their way. The player buys plants with
//! suns and puts them on the tiles. This crate decides what exists, where,
//! and what happens to it in each tick; it neither draws nor reads input.
//! Whoever uses it hands it the clicks and the time that has passed, and
//! reads positions, health and states from it.
//!
//! Everything is counted in whole numbers: lengths in steps (see
//! [`land::WORLD_SCALE`]), health in hundredths of a point (see
//! [`player::HEALTH_SCALE`]), time in milliseconds.
//!
//! [`game::Game`] holds a whole game. Its parts can be used on their own:
//! the lawn in [`land`], plants in [`plants`], zombies in [`zombies`], the
//! toolbar in [`toolbar`].

use vstd::prelude::*;

pub mod game;
pub mod land;
pub mod plants;
pub mod player;
pub mod timer;
pub mod toolbar;
pub mod zombies;

verus! {

/// Phase of a game session.
#[derive(Clone, Copy, Debug, PartialEq, Eq, Structural)]
pub enum GameState {
    WaitForStart,
    Running,
    End { win: bool },
}

} // verus!
