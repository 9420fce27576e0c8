//! Moving agents along their velocity, inside the world.
//!
//! An agent advances by its velocity times the elapsed clock steps, and each
//! coordinate is then clamped into `[0, map_size]` on its own: an agent pressed
//! against a border stops there, keeps its velocity, and may slide along the
//! border. An agent that moves turns to face where it is heading; one that
//! stands still keeps its facing.

use vstd::prelude::*;
use crate::conf::Config;
use crate::entities::Agent;
use crate::geometry::Vec2;

verus! {

/// `v` forced into `[0, map_size]`: capped at `map_size` first, then raised to
/// zero.
pub open spec fn clamped(v: int, map_size: int) -> int {
    let capped = if v < map_size {
        v
    } else {
        map_size
    };
    if capped > 0 {
        capped
    } else {
        0
    }
}

/// Whether a point lies in the world, borders included.
pub open spec fn in_world(position: Vec2, map_size: int) -> bool {
    &&& 0 <= position.x <= map_size
    &&& 0 <= position.y <= map_size
}

/// Where an agent at `position` stands after `delta` clock steps at
/// `velocity`.
pub open spec fn advanced(position: Vec2, velocity: Vec2, delta: u32, map_size: i32) -> Vec2 {
    Vec2 {
        x: clamped(position.x + velocity.x * delta, map_size as int) as i32,
        y: clamped(position.y + velocity.y * delta, map_size as int) as i32,
    }
}

/// An agent after `delta` clock steps.
pub open spec fn moved(agent: Agent, delta: u32, map_size: i32) -> Agent {
    Agent {
        position: advanced(agent.position, agent.velocity, delta, map_size),
        velocity: agent.velocity,
        orientation: if agent.velocity.is_null() {
            agent.orientation
        } else {
            agent.velocity
        },
    }
}

/// The distance covered along one axis in one tick fits in 64 bits with room
/// for the starting coordinate.
proof fn lemma_travel_bounded(velocity: int, delta: int)
    by (nonlinear_arith)
    requires
        -0x8000_0000 <= velocity <= 0x7fff_ffff,
        0 <= delta <= 0xffff_ffff,
    ensures
        -0x8000_0000 * 0xffff_ffff <= velocity * delta <= 0x7fff_ffff * 0xffff_ffff,
{
}

/// Advances one coordinate and clamps it.
fn advance_axis(position: i32, velocity: i32, delta: u32, map_size: i32) -> (coordinate: i32)
    ensures
        coordinate == clamped(position + velocity * delta, map_size as int),
{
    proof {
        lemma_travel_bounded(velocity as int, delta as int);
    }
    let target: i64 = position as i64 + velocity as i64 * delta as i64;
    let capped: i64 = if target < map_size as i64 {
        target
    } else {
        map_size as i64
    };
    if capped > 0 {
        capped as i32
    } else {
        0
    }
}

impl Agent {
    /// Moves the agent by what it covers in `delta` clock steps, keeps it
    /// inside a world of side `map_size`, and turns it to face along its
    /// velocity unless it stands still.
    pub fn advance(&mut self, delta: u32, map_size: i32)
        ensures
            *final(self) == moved(*old(self), delta, map_size),
            map_size >= 0 ==> in_world(final(self).position, map_size as int),
            old(self).velocity.is_null() ==> final(self).orientation == old(self).orientation,
    {
        self.position = Vec2 {
            x: advance_axis(self.position.x, self.velocity.x, delta, map_size),
            y: advance_axis(self.position.y, self.velocity.y, delta, map_size),
        };
        if !self.velocity.is_zero() {
            self.orientation = self.velocity;
        }
    }
}

/// The motion phase: advances every agent by `delta` clock steps.
pub fn nudge(delta: u32, agents: &mut Vec<Agent>, config: &Config)
    ensures
        final(agents).len() == old(agents).len(),
        forall|i: int|
            0 <= i < old(agents).len() ==> #[trigger] final(agents)[i] == moved(
                old(agents)[i],
                delta,
                config.map_size,
            ),
        config.map_size >= 0 ==> forall|i: int|
            0 <= i < old(agents).len() ==> in_world(
                (#[trigger] final(agents)[i]).position,
                config.map_size as int,
            ),
        forall|i: int|
            0 <= i < old(agents).len() && old(agents)[i].velocity.is_null() ==> (
            #[trigger] final(agents)[i]).orientation == old(agents)[i].orientation,
{
    let n = agents.len();
    let mut i: usize = 0;
    while i < n
        invariant
            i <= n,
            agents.len() == n,
            n == old(agents).len(),
            forall|k: int|
                0 <= k < i ==> #[trigger] agents[k] == moved(old(agents)[k], delta, config.map_size),
            forall|k: int| i <= k < n ==> #[trigger] agents[k] == old(agents)[k],
        decreases n - i,
    {
        agents[i].advance(delta, config.map_size);
        i = i + 1;
    }
    proof {
        assert forall|i: int| 0 <= i < n && config.map_size >= 0 implies in_world(
            (#[trigger] agents[i]).position,
            config.map_size as int,
        ) by {
            lemma_stays_in_world(old(agents)[i], delta, config.map_size);
        }
    }
}

/// However fast an agent moves and however long the tick, it ends inside the
/// world.
pub proof fn lemma_stays_in_world(agent: Agent, delta: u32, map_size: i32)
    requires
        map_size >= 0,
    ensures
        in_world(moved(agent, delta, map_size).position, map_size as int),
{
}

/// An agent without velocity keeps its facing, and if it stands inside the
/// world it does not change at all.
pub proof fn lemma_still_agent_rests(agent: Agent, delta: u32, map_size: i32)
    requires
        agent.velocity.is_null(),
    ensures
        moved(agent, delta, map_size).orientation == agent.orientation,
        in_world(agent.position, map_size as int) ==> moved(agent, delta, map_size) == agent,
{
    assert(agent.velocity.x * delta == 0) by (nonlinear_arith)
        requires
            agent.velocity.x == 0,
    ;
    assert(agent.velocity.y * delta == 0) by (nonlinear_arith)
        requires
            agent.velocity.y == 0,
    ;
}

} // verus!
