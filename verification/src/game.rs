//! The state of a session that is not an entity.

use vstd::prelude::*;
use crate::grid::Grid;

verus! {

/// The game in progress: the map the entities stand on.
pub struct Game {
    pub map: Grid,
}

} // verus!
