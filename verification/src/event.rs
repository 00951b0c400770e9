//! What happened during a turn, for the message log.

use vstd::prelude::*;
use crate::entity::DeathCallback;

verus! {

/// One thing worth telling the player about. Entities are named by their
/// index in the roster.
#[derive(Clone, Copy, Debug, PartialEq, Eq, Structural)]
pub enum Event {
    /// `attacker` hit `target` for `damage` hit points.
    Hit { attacker: usize, target: usize, damage: i32 },
    /// `attacker` attacked `target` to no effect.
    NoEffect { attacker: usize, target: usize },
    /// The entity `id` died, in the way `how` says.
    Died { id: usize, how: DeathCallback },
}

} // verus!
