//! The constants of a world: its size and the radii of perception.

use vstd::prelude::*;

verus! {

/// World size and perception radii.
///
/// Radii are kept squared, in grid steps, because every comparison is made
/// against a squared distance. The predators' view and strike radii are
/// inclusive, the prey's view radius is exclusive.
#[derive(Clone, Copy, Debug, PartialEq, Eq, Structural)]
pub struct Config {
    /// Side of the square world, in grid steps.
    pub map_size: i32,
    /// A predator sees a prey at squared distance up to and including this.
    pub predator_view_radius_sq: u64,
    /// A predator captures a prey at squared distance up to and including this.
    pub predator_strike_radius_sq: u64,
    /// A prey sees a predator at squared distance strictly below this.
    pub prey_view_radius_sq: u64,
}

impl Config {
    /// The world has a positive size, whatever can be struck can be seen, and
    /// prey never see farther than predators.
    pub open spec fn valid(self) -> bool {
        &&& self.map_size > 0
        &&& self.predator_strike_radius_sq <= self.predator_view_radius_sq
        &&& self.prey_view_radius_sq <= self.predator_view_radius_sq
    }

    /// Builds a configuration, or nothing if the values do not describe a
    /// world.
    pub fn new(
        map_size: i32,
        predator_view_radius_sq: u64,
        predator_strike_radius_sq: u64,
        prey_view_radius_sq: u64,
    ) -> (config: Option<Config>)
        ensures
            config is Some <==> (Config {
                map_size,
                predator_view_radius_sq,
                predator_strike_radius_sq,
                prey_view_radius_sq,
            }).valid(),
            config matches Some(c) ==> c == (Config {
                map_size,
                predator_view_radius_sq,
                predator_strike_radius_sq,
                prey_view_radius_sq,
            }),
    {
        let config = Config {
            map_size,
            predator_view_radius_sq,
            predator_strike_radius_sq,
            prey_view_radius_sq,
        };
        if config.is_valid() {
            Some(config)
        } else {
            None
        }
    }

    /// Tells whether the values describe a world.
    pub fn is_valid(&self) -> (valid: bool)
        ensures
            valid == self.valid(),
    {
        self.map_size > 0 && self.predator_strike_radius_sq <= self.predator_view_radius_sq
            && self.prey_view_radius_sq <= self.predator_view_radius_sq
    }
}

} // verus!
