//! The records of the world's inhabitants.
//!
//! A record holds what one phase of a tick reads and writes of an entity: the
//! interaction phase works on [`Predator`] and [`Prey`], the motion phase on
//! [`Agent`].

use vstd::prelude::*;
use crate::geometry::Vec2;

verus! {

/// What moves: anything with a position, a velocity and a facing.
#[derive(Clone, Copy, Debug, PartialEq, Eq, Structural)]
pub struct Agent {
    pub position: Vec2,
    /// Grid steps per clock step.
    pub velocity: Vec2,
    /// The direction the agent faces, as a vector along it. Only its
    /// direction matters, not its length.
    pub orientation: Vec2,
}

/// A hunter, as the interaction phase sees it.
#[derive(Clone, Copy, Debug, PartialEq, Eq)]
pub struct Predator {
    pub position: Vec2,
    /// How many prey this predator has struck so far.
    pub score: u64,
    /// Where the predator last saw a prey that got away, since its view was
    /// last reset.
    pub last_seen_prey: Option<Vec2>,
}

/// The hunted, as the interaction phase sees it.
#[derive(Clone, Copy, Debug, PartialEq, Eq, Structural)]
pub struct Prey {
    pub position: Vec2,
}

impl Predator {
    /// The predator with one more prey to its credit.
    pub open spec fn credited(self) -> Predator {
        Predator { score: (self.score + 1) as u64, ..self }
    }

    /// The predator remembering a prey at `spot`.
    pub open spec fn reminded(self, spot: Vec2) -> Predator {
        Predator { last_seen_prey: Some(spot), ..self }
    }

    /// The predator remembering no prey.
    pub open spec fn oblivious(self) -> Predator {
        Predator { last_seen_prey: None, ..self }
    }

    /// A predator that has neither scored nor seen anything yet.
    pub fn new(position: Vec2) -> (predator: Predator)
        ensures
            predator == (Predator { position, score: 0, last_seen_prey: None }),
    {
        Predator { position, score: 0, last_seen_prey: None }
    }

    /// Credits the predator with one more prey.
    pub fn score(&mut self)
        requires
            old(self).score < u64::MAX,
        ensures
            *final(self) == old(self).credited(),
    {
        self.score = self.score + 1;
    }

    /// Remembers where a prey was seen.
    pub fn spot_prey(&mut self, position: Vec2)
        ensures
            *final(self) == old(self).reminded(position),
    {
        self.last_seen_prey = Some(position);
    }

    /// Forgets where prey was seen.
    pub fn reset_world_view(&mut self)
        ensures
            *final(self) == old(self).oblivious(),
    {
        self.last_seen_prey = None;
    }
}

impl Prey {
    /// A prey standing at `position`.
    pub fn new(position: Vec2) -> (prey: Prey)
        ensures
            prey == (Prey { position }),
    {
        Prey { position }
    }
}

/// Opens a tick: every predator forgets where it saw prey. Scores and
/// positions stay.
pub fn reset_world_view(predators: &mut Vec<Predator>)
    ensures
        final(predators).len() == old(predators).len(),
        forall|i: int|
            0 <= i < old(predators).len() ==> #[trigger] final(predators)[i] == old(
                predators,
            )[i].oblivious(),
{
    let n = predators.len();
    let mut i: usize = 0;
    while i < n
        invariant
            i <= n,
            predators.len() == n,
            n == old(predators).len(),
            forall|k: int| 0 <= k < i ==> #[trigger] predators[k] == old(predators)[k].oblivious(),
            forall|k: int| i <= k < n ==> #[trigger] predators[k] == old(predators)[k],
        decreases n - i,
    {
        predators[i].reset_world_view();
        i = i + 1;
    }
}

} // verus!
