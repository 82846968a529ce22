//! The base stats of a creature.

use vstd::prelude::*;

verus! {

/// Hit points, attack, defense and agility of a creature.
#[derive(Clone, Copy, Debug, PartialEq, Eq, Structural)]
pub struct PokemonStats {
    /// The hit points the creature starts an encounter with.
    pub hp: u32,
    /// The base damage of the creature's attacks.
    pub attack: u32,
    /// How much incoming damage is softened.
    pub defense: u32,
    /// Decides which creature attacks first.
    pub agility: u32,
}

} // verus!
