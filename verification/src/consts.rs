use vstd::prelude::*;

verus! {

/// Index of the player among the level's objects.
pub const PLAYER: usize = 0;

/// Hit points that a healing potion restores.
pub const HEAL_AMOUNT: i32 = 4;

/// An inventory that holds more items than this refuses new ones.
pub const INVENTORY_LIMIT: usize = 26;

} // verus!
