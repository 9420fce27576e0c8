//! The interaction phase: who strikes whom, and who sees whom.
//!
//! The prey are resolved one after the other, each against all predators. A
//! prey that any predator strikes is captured: each of its strikers scores a
//! point, and nobody merely sees it. A prey that escapes is remembered by
//! every predator that sighted it, and raises a [`Sighting`] for each party
//! that noticed the other. Capture removes no prey from the world.

use vstd::prelude::*;
use crate::census::{
    ascending, belongs, lemma_listed_next, lemma_members, lemma_members_by_position, listed,
    members, survey, Census, Group,
};
use crate::conf::Config;
use crate::entities::{reset_world_view, Predator, Prey};
use crate::geometry::Vec2;
use crate::relation::{classify, sights, strikes, Relation};

verus! {

/// A notice that one party perceived the other, for whoever steers the agents.
/// Both parties are named by their index in the collection they came in.
#[derive(Clone, Copy, Debug, PartialEq, Eq, Structural)]
pub enum Sighting {
    /// The prey noticed a predator that has it in view.
    PreySawPredator { prey: usize, predator: usize },
    /// The predator noticed a prey out of its reach.
    PredatorSawPrey { predator: usize, prey: usize },
}

/// Whether any of the predators strikes a prey standing at `prey`.
pub open spec fn captured(predators: Seq<Predator>, prey: Vec2, config: Config) -> bool {
    exists|i: int|
        0 <= i < predators.len() && strikes(#[trigger] predators[i].position, prey, config)
}

/// What becomes of one predator when one prey has been resolved.
///
/// If the prey was `caught`, by whichever predator, its strikers score one
/// point each and nothing else changes. If it got away, the predators that
/// sighted it remember where it stood.
pub open spec fn touched(predator: Predator, prey: Vec2, caught: bool, config: Config) -> Predator {
    if caught {
        if strikes(predator.position, prey, config) {
            predator.credited()
        } else {
            predator
        }
    } else if sights(predator.position, prey, config) {
        predator.reminded(prey)
    } else {
        predator
    }
}

/// The notices of prey number `prey` having seen each of `predators`.
pub open spec fn prey_alerts(prey: usize, predators: Seq<usize>) -> Seq<Sighting> {
    Seq::new(
        predators.len(),
        |k: int| Sighting::PreySawPredator { prey, predator: predators[k] },
    )
}

/// The notices of each of `predators` having seen prey number `prey`.
pub open spec fn predator_alerts(prey: usize, predators: Seq<usize>) -> Seq<Sighting> {
    Seq::new(
        predators.len(),
        |k: int| Sighting::PredatorSawPrey { predator: predators[k], prey },
    )
}

/// The notices that one prey gives rise to: none if it is captured; else one
/// from the prey's side for each predator that it sees, then one from each
/// predator that sighted it, both in the order of the predators.
pub open spec fn alerts(
    predators: Seq<Predator>,
    index: usize,
    prey: Vec2,
    config: Config,
) -> Seq<Sighting> {
    if captured(predators, prey, config) {
        Seq::empty()
    } else {
        prey_alerts(
            index,
            members(Group::MutuallyVisible, predators, predators.len() as int, prey, config),
        ) + predator_alerts(
            index,
            members(Group::Sighted, predators, predators.len() as int, prey, config),
        )
    }
}

/// How many of the prey a predator standing at `predator` strikes.
pub open spec fn strike_count(predator: Vec2, prey: Seq<Prey>, config: Config) -> nat
    decreases prey.len(),
{
    if prey.len() == 0 {
        0
    } else {
        strike_count(predator, prey.drop_last(), config) + if strikes(
            predator,
            prey.last().position,
            config,
        ) {
            1nat
        } else {
            0nat
        }
    }
}

/// What predator `i` remembers after all `prey` have been resolved in order:
/// the position of the last prey that it sighted and that nobody captured, or
/// what it remembered `before` if there is no such prey.
pub open spec fn last_sighting(
    before: Option<Vec2>,
    predators: Seq<Predator>,
    i: int,
    prey: Seq<Prey>,
    config: Config,
) -> Option<Vec2>
    decreases prey.len(),
{
    if prey.len() == 0 {
        before
    } else if !captured(predators, prey.last().position, config) && sights(
        predators[i].position,
        prey.last().position,
        config,
    ) {
        Some(prey.last().position)
    } else {
        last_sighting(before, predators, i, prey.drop_last(), config)
    }
}

/// Predator `i` as one interaction phase leaves it.
pub open spec fn outcome(
    predators: Seq<Predator>,
    i: int,
    prey: Seq<Prey>,
    config: Config,
) -> Predator {
    Predator {
        position: predators[i].position,
        score: (predators[i].score + strike_count(predators[i].position, prey, config)) as u64,
        last_seen_prey: last_sighting(predators[i].last_seen_prey, predators, i, prey, config),
    }
}

/// All notices of one interaction phase: those of the first prey, then those
/// of the second, and so on.
pub open spec fn sightings(predators: Seq<Predator>, prey: Seq<Prey>, config: Config) -> Seq<
    Sighting,
>
    decreases prey.len(),
{
    if prey.len() == 0 {
        Seq::empty()
    } else {
        sightings(predators, prey.drop_last(), config) + alerts(
            predators,
            (prey.len() - 1) as usize,
            prey.last().position,
            config,
        )
    }
}

/// Whether every predator's score has room for the prey that it strikes: what
/// [`interact`] asks of its caller.
pub open spec fn scores_have_room(
    predators: Seq<Predator>,
    prey: Seq<Prey>,
    config: Config,
) -> bool {
    forall|i: int|
        0 <= i < predators.len() ==> (#[trigger] predators[i]).score + strike_count(
            predators[i].position,
            prey,
            config,
        ) <= u64::MAX
}

/// Counts the prey that a predator standing at `predator` strikes.
pub fn count_strikes(predator: &Vec2, prey: &Vec<Prey>, config: &Config) -> (count: usize)
    ensures
        count == strike_count(*predator, prey@, *config),
{
    let mut count: usize = 0;
    let mut j: usize = 0;
    while j < prey.len()
        invariant
            j <= prey.len(),
            count == strike_count(*predator, prey@.take(j as int), *config),
        decreases prey.len() - j,
    {
        proof {
            assert(prey@.take(j + 1).drop_last() == prey@.take(j as int));
            lemma_strike_count_bounds(*predator, prey@.take(j + 1), j + 1, *config);
        }
        if let Relation::Strike = classify(predator, &prey[j].position, config) {
            count = count + 1;
        }
        j = j + 1;
    }
    assert(prey@.take(j as int) == prey@);
    count
}

/// Tells whether [`interact`] and [`perceive`] may be called on this world:
/// whether no score would run over.
pub fn check_scores(prey: &Vec<Prey>, predators: &Vec<Predator>, config: &Config) -> (ok: bool)
    ensures
        ok == scores_have_room(predators@, prey@, *config),
{
    let mut i: usize = 0;
    while i < predators.len()
        invariant
            i <= predators.len(),
            forall|k: int|
                0 <= k < i ==> (#[trigger] predators[k]).score + strike_count(
                    predators[k].position,
                    prey@,
                    *config,
                ) <= u64::MAX,
        decreases predators.len() - i,
    {
        let gain = count_strikes(&predators[i].position, prey, config);
        if gain as u128 + predators[i].score as u128 > u64::MAX as u128 {
            return false;
        }
        i = i + 1;
    }
    true
}

/// Credits each predator on the list with one prey.
fn reward(predators: &mut Vec<Predator>, strikers: &Vec<usize>)
    requires
        ascending(strikers@),
        forall|l: int|
            0 <= l < strikers.len() ==> #[trigger] strikers[l] < old(predators).len() && old(
                predators,
            )[strikers[l] as int].score < u64::MAX,
    ensures
        final(predators).len() == old(predators).len(),
        forall|i: int|
            0 <= i < old(predators).len() ==> #[trigger] final(predators)[i] == if listed(
                strikers@,
                strikers.len() as int,
                i,
            ) {
                old(predators)[i].credited()
            } else {
                old(predators)[i]
            },
{
    let mut k: usize = 0;
    while k < strikers.len()
        invariant
            k <= strikers.len(),
            predators.len() == old(predators).len(),
            ascending(strikers@),
            forall|l: int|
                0 <= l < strikers.len() ==> #[trigger] strikers[l] < old(predators).len() && old(
                    predators,
                )[strikers[l] as int].score < u64::MAX,
            forall|i: int|
                0 <= i < predators.len() ==> #[trigger] predators[i] == if listed(
                    strikers@,
                    k as int,
                    i,
                ) {
                    old(predators)[i].credited()
                } else {
                    old(predators)[i]
                },
        decreases strikers.len() - k,
    {
        proof {
            lemma_listed_next(strikers@, k as int);
        }
        predators[strikers[k]].score();
        k = k + 1;
    }
}

/// Has each predator on the list remember a prey at `spot`.
fn remind(predators: &mut Vec<Predator>, watchers: &Vec<usize>, spot: Vec2)
    requires
        ascending(watchers@),
        forall|l: int| 0 <= l < watchers.len() ==> #[trigger] watchers[l] < old(predators).len(),
    ensures
        final(predators).len() == old(predators).len(),
        forall|i: int|
            0 <= i < old(predators).len() ==> #[trigger] final(predators)[i] == if listed(
                watchers@,
                watchers.len() as int,
                i,
            ) {
                old(predators)[i].reminded(spot)
            } else {
                old(predators)[i]
            },
{
    let mut k: usize = 0;
    while k < watchers.len()
        invariant
            k <= watchers.len(),
            predators.len() == old(predators).len(),
            ascending(watchers@),
            forall|l: int|
                0 <= l < watchers.len() ==> #[trigger] watchers[l] < old(predators).len(),
            forall|i: int|
                0 <= i < predators.len() ==> #[trigger] predators[i] == if listed(
                    watchers@,
                    k as int,
                    i,
                ) {
                    old(predators)[i].reminded(spot)
                } else {
                    old(predators)[i]
                },
        decreases watchers.len() - k,
    {
        proof {
            lemma_listed_next(watchers@, k as int);
        }
        predators[watchers[k]].spot_prey(spot);
        k = k + 1;
    }
}

/// Writes out the notices of a prey that got away.
fn announce(index: usize, census: &Census) -> (raised: Vec<Sighting>)
    ensures
        raised@ == prey_alerts(index, census.mutually_visible@) + predator_alerts(
            index,
            census.sighted@,
        ),
{
    let mut raised: Vec<Sighting> = Vec::new();
    let mut k: usize = 0;
    while k < census.mutually_visible.len()
        invariant
            k <= census.mutually_visible.len(),
            raised@ == prey_alerts(index, census.mutually_visible@.take(k as int)),
        decreases census.mutually_visible.len() - k,
    {
        raised.push(
            Sighting::PreySawPredator { prey: index, predator: census.mutually_visible[k] },
        );
        k = k + 1;
    }
    let mut k: usize = 0;
    while k < census.sighted.len()
        invariant
            k <= census.sighted.len(),
            raised@ == prey_alerts(index, census.mutually_visible@) + predator_alerts(
                index,
                census.sighted@.take(k as int),
            ),
        decreases census.sighted.len() - k,
    {
        raised.push(Sighting::PredatorSawPrey { predator: census.sighted[k], prey: index });
        k = k + 1;
    }
    raised
}

/// Resolves one prey against all predators, and returns the notices that it
/// gives rise to.
///
/// `index` is the prey's place among the prey; it only serves to name the prey
/// in the notices. Each striker's score must have room for one more point.
pub fn encounter(
    index: usize,
    prey: &Prey,
    predators: &mut Vec<Predator>,
    config: &Config,
) -> (raised: Vec<Sighting>)
    requires
        forall|i: int|
            0 <= i < old(predators).len() && strikes(
                #[trigger] old(predators)[i].position,
                prey.position,
                *config,
            ) ==> old(predators)[i].score < u64::MAX,
    ensures
        final(predators).len() == old(predators).len(),
        forall|i: int|
            0 <= i < old(predators).len() ==> #[trigger] final(predators)[i] == touched(
                old(predators)[i],
                prey.position,
                captured(old(predators)@, prey.position, *config),
                *config,
            ),
        raised@ == alerts(old(predators)@, index, prey.position, *config),
{
    let ghost before = predators@;
    let ghost n = predators.len() as int;
    let spot = prey.position;
    let census = survey(predators, &spot, config);
    proof {
        lemma_members(Group::Striking, before, n, spot, *config);
        lemma_members(Group::Sighted, before, n, spot, *config);
        lemma_captured_iff_struck(before, spot, *config);
    }
    if census.striking.len() > 0 {
        reward(predators, &census.striking);
        Vec::new()
    } else {
        remind(predators, &census.sighted, spot);
        announce(index, &census)
    }
}

/// One interaction phase: resolves every prey, in order, against all
/// predators.
///
/// Each predator gains one point for every prey that it strikes, and is left
/// remembering the last prey that it sighted and that escaped; if there is
/// none it remembers what it did before. Predators do not move. The notices
/// for whoever steers the agents are returned, prey by prey.
///
/// No score may run over: a predator needs room for one point per prey that it
/// strikes.
pub fn interact(prey: &Vec<Prey>, predators: &mut Vec<Predator>, config: &Config) -> (signals:
    Vec<Sighting>)
    requires
        scores_have_room(old(predators)@, prey@, *config),
    ensures
        final(predators).len() == old(predators).len(),
        forall|i: int|
            0 <= i < old(predators).len() ==> #[trigger] final(predators)[i] == outcome(
                old(predators)@,
                i,
                prey@,
                *config,
            ),
        forall|i: int|
            0 <= i < old(predators).len() ==> (#[trigger] final(predators)[i]).score == old(
                predators,
            )[i].score + strike_count(old(predators)[i].position, prey@, *config),
        signals@ == sightings(old(predators)@, prey@, *config),
{
    let ghost before = predators@;
    let mut signals: Vec<Sighting> = Vec::new();
    let mut j: usize = 0;
    while j < prey.len()
        invariant
            j <= prey.len(),
            predators.len() == before.len(),
            forall|i: int|
                0 <= i < before.len() ==> (#[trigger] before[i]).score + strike_count(
                    before[i].position,
                    prey@,
                    *config,
                ) <= u64::MAX,
            forall|i: int|
                0 <= i < before.len() ==> #[trigger] predators[i] == outcome(
                    before,
                    i,
                    prey@.take(j as int),
                    *config,
                ),
            signals@ == sightings(before, prey@.take(j as int), *config),
        decreases prey.len() - j,
    {
        let ghost now = predators@;
        let ghost spot = prey[j as int].position;
        proof {
            assert(prey@.take(j + 1).drop_last() == prey@.take(j as int));
            lemma_positions_decide(now, before, j, spot, *config);
            assert forall|i: int|
                0 <= i < before.len() && strikes(
                    #[trigger] now[i].position,
                    spot,
                    *config,
                ) implies now[i].score < u64::MAX by {
                lemma_strike_count_bounds(before[i].position, prey@, j as int, *config);
            }
        }
        let mut raised = encounter(j, &prey[j], predators, config);
        signals.append(&mut raised);
        proof {
            assert forall|i: int| 0 <= i < before.len() implies #[trigger] predators[i] == outcome(
                before,
                i,
                prey@.take(j + 1),
                *config,
            ) by {
                lemma_strike_count_bounds(before[i].position, prey@, j as int, *config);
                lemma_strike_count_bounds(before[i].position, prey@, j + 1, *config);
            }
        }
        j = j + 1;
    }
    proof {
        assert(prey@.take(j as int) == prey@);
        assert forall|i: int| 0 <= i < before.len() implies (#[trigger] predators[i]).score
            == before[i].score + strike_count(before[i].position, prey@, *config) by {
            assert(predators[i] == outcome(before, i, prey@, *config));
        }
    }
    signals
}

/// The perception half of a tick: every predator first forgets where it saw
/// prey, then all prey are resolved as in [`interact`].
///
/// After it a predator remembers the last prey that it sighted in this tick
/// and that escaped, or nothing if there was none.
pub fn perceive(prey: &Vec<Prey>, predators: &mut Vec<Predator>, config: &Config) -> (signals:
    Vec<Sighting>)
    requires
        scores_have_room(old(predators)@, prey@, *config),
    ensures
        final(predators).len() == old(predators).len(),
        forall|i: int|
            0 <= i < old(predators).len() ==> {
                &&& (#[trigger] final(predators)[i]).position == old(predators)[i].position
                &&& final(predators)[i].score == old(predators)[i].score + strike_count(
                    old(predators)[i].position,
                    prey@,
                    *config,
                )
                &&& final(predators)[i].last_seen_prey == last_sighting(
                    None,
                    old(predators)@,
                    i,
                    prey@,
                    *config,
                )
            },
        signals@ == sightings(old(predators)@, prey@, *config),
{
    let ghost before = predators@;
    reset_world_view(predators);
    proof {
        lemma_positions_decide_phase(predators@, before, prey@, *config);
        assert forall|i: int| 0 <= i < predators.len() implies (#[trigger] predators[i]).score
            + strike_count(predators[i].position, prey@, *config) <= u64::MAX by {
            assert(predators[i] == before[i].oblivious());
        }
    }
    interact(prey, predators, config)
}

/// A prey is captured exactly when its list of strikers is not empty.
pub proof fn lemma_captured_iff_struck(predators: Seq<Predator>, prey: Vec2, config: Config)
    requires
        predators.len() <= usize::MAX,
    ensures
        captured(predators, prey, config) <==> members(
            Group::Striking,
            predators,
            predators.len() as int,
            prey,
            config,
        ).len() > 0,
{
    let n = predators.len() as int;
    let list = members(Group::Striking, predators, n, prey, config);
    lemma_members(Group::Striking, predators, n, prey, config);
    if list.len() > 0 {
        assert(strikes(predators[list[0] as int].position, prey, config));
    }
    if captured(predators, prey, config) {
        let i = choose|i: int|
            0 <= i < predators.len() && strikes(#[trigger] predators[i].position, prey, config);
        assert(belongs(Group::Striking, predators[i].position, prey, config));
    }
}

/// A predator strikes no more prey among the first `j` than among all, fewer
/// if it strikes the next one, and never more than there are.
pub proof fn lemma_strike_count_bounds(predator: Vec2, prey: Seq<Prey>, j: int, config: Config)
    requires
        0 <= j <= prey.len(),
    ensures
        strike_count(predator, prey.take(j), config) <= strike_count(predator, prey, config),
        strike_count(predator, prey, config) <= prey.len(),
        j < prey.len() && strikes(predator, prey[j].position, config) ==> strike_count(
            predator,
            prey.take(j),
            config,
        ) < strike_count(predator, prey, config),
    decreases prey.len(),
{
    if j == prey.len() {
        assert(prey.take(j) == prey);
        if prey.len() > 0 {
            lemma_strike_count_bounds(predator, prey.drop_last(), 0, config);
        }
    } else {
        assert(prey.drop_last().take(j) == prey.take(j));
        lemma_strike_count_bounds(predator, prey.drop_last(), j, config);
    }
}

/// Whether a prey is captured and which notices it raises depends on where
/// the predators stand, and on nothing else about them.
pub proof fn lemma_positions_decide(
    a: Seq<Predator>,
    b: Seq<Predator>,
    index: usize,
    prey: Vec2,
    config: Config,
)
    requires
        a.len() == b.len(),
        forall|i: int| 0 <= i < a.len() ==> #[trigger] a[i].position == b[i].position,
    ensures
        captured(a, prey, config) == captured(b, prey, config),
        alerts(a, index, prey, config) == alerts(b, index, prey, config),
{
    if captured(a, prey, config) {
        let i = choose|i: int|
            0 <= i < a.len() && strikes(#[trigger] a[i].position, prey, config);
        assert(strikes(b[i].position, prey, config));
    }
    if captured(b, prey, config) {
        let i = choose|i: int|
            0 <= i < b.len() && strikes(#[trigger] b[i].position, prey, config);
        assert(strikes(a[i].position, prey, config));
    }
    lemma_members_by_position(Group::MutuallyVisible, a, b, a.len() as int, prey, config);
    lemma_members_by_position(Group::Sighted, a, b, a.len() as int, prey, config);
}

/// What the predators remember and which notices a whole phase raises
/// depends on where the predators stand, and on nothing else about them.
pub proof fn lemma_positions_decide_phase(
    a: Seq<Predator>,
    b: Seq<Predator>,
    prey: Seq<Prey>,
    config: Config,
)
    requires
        a.len() == b.len(),
        forall|i: int| 0 <= i < a.len() ==> #[trigger] a[i].position == b[i].position,
    ensures
        forall|before: Option<Vec2>, i: int|
            0 <= i < a.len() ==> #[trigger] last_sighting(before, a, i, prey, config)
                == last_sighting(before, b, i, prey, config),
        sightings(a, prey, config) == sightings(b, prey, config),
    decreases prey.len(),
{
    if prey.len() > 0 {
        lemma_positions_decide_phase(a, b, prey.drop_last(), config);
        lemma_positions_decide(a, b, (prey.len() - 1) as usize, prey.last().position, config);
        assert forall|before: Option<Vec2>, i: int| 0 <= i < a.len() implies #[trigger] last_sighting(
            before,
            a,
            i,
            prey,
            config,
        ) == last_sighting(before, b, i, prey, config) by {
            assert(last_sighting(before, a, i, prey.drop_last(), config) == last_sighting(
                before,
                b,
                i,
                prey.drop_last(),
                config,
            ));
        }
    }
}

} // verus!
