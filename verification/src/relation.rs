//! How one predator stands to one prey.
//!
//! The relation is decided by the squared distance between the two and by the
//! three squared radii of the [`Config`], in this order:
//!
//! 1. beyond the predator's view radius the two are out of range,
//! 2. within the predator's strike radius the prey is struck,
//! 3. in between the predator sights the prey, and the prey sees the predator
//!    back if it stands closer than the prey's own view radius.
//!
//! The first two radii are inclusive: a prey exactly on the circle is in. The
//! prey's view radius is exclusive: a predator exactly on the circle is not
//! seen.

use vstd::prelude::*;
use crate::conf::Config;
use crate::geometry::Vec2;

verus! {

/// How a predator stands to a prey.
#[derive(Clone, Copy, Debug, PartialEq, Eq, Structural)]
pub enum Relation {
    /// Farther apart than the predator can see.
    OutOfRange,
    /// Close enough for the predator to capture the prey.
    Strike,
    /// The predator sees the prey but cannot reach it. `mutual` tells whether
    /// the prey sees the predator too.
    Sighted { mutual: bool },
}

/// The relation at squared distance `d`.
pub open spec fn relation(d: int, config: Config) -> Relation {
    if d > config.predator_view_radius_sq {
        Relation::OutOfRange
    } else if d <= config.predator_strike_radius_sq {
        Relation::Strike
    } else {
        Relation::Sighted { mutual: d < config.prey_view_radius_sq }
    }
}

/// Whether a predator at `predator` captures a prey at `prey`.
pub open spec fn strikes(predator: Vec2, prey: Vec2, config: Config) -> bool {
    relation(predator.dist_sq(prey), config) is Strike
}

/// Whether a predator at `predator` sees a prey at `prey` without reaching it.
pub open spec fn sights(predator: Vec2, prey: Vec2, config: Config) -> bool {
    relation(predator.dist_sq(prey), config) is Sighted
}

/// Whether a predator at `predator` sights a prey at `prey` and is seen by it.
pub open spec fn mutually_visible(predator: Vec2, prey: Vec2, config: Config) -> bool {
    relation(predator.dist_sq(prey), config) == (Relation::Sighted { mutual: true })
}

/// Classifies one pair by its squared distance.
pub fn classify(predator: &Vec2, prey: &Vec2, config: &Config) -> (r: Relation)
    ensures
        r == relation(predator.dist_sq(*prey), *config),
{
    let d = predator.distance_squared(prey);
    if d > config.predator_view_radius_sq as u128 {
        Relation::OutOfRange
    } else if d <= config.predator_strike_radius_sq as u128 {
        Relation::Strike
    } else {
        Relation::Sighted { mutual: d < config.prey_view_radius_sq as u128 }
    }
}

/// With valid radii the three relations are nested rings around the
/// predator: a prey is struck exactly when it is within the strike radius,
/// sighted exactly when it is beyond that and within the view radius, and
/// whatever the prey sees is sighted.
pub proof fn lemma_relation_by_distance(predator: Vec2, prey: Vec2, config: Config)
    requires
        config.valid(),
    ensures
        strikes(predator, prey, config) <==> predator.dist_sq(prey)
            <= config.predator_strike_radius_sq,
        sights(predator, prey, config) <==> config.predator_strike_radius_sq < predator.dist_sq(
            prey,
        ) <= config.predator_view_radius_sq,
        mutually_visible(predator, prey, config) <==> config.predator_strike_radius_sq
            < predator.dist_sq(prey) < config.prey_view_radius_sq,
        mutually_visible(predator, prey, config) ==> sights(predator, prey, config),
{
}

} // verus!
