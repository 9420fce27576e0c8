//! What holds of every interaction phase, whatever the world looks like.

use vstd::prelude::*;
use crate::conf::Config;
use crate::entities::{Predator, Prey};
use crate::geometry::Vec2;
use crate::census::{belongs, lemma_members, listed, members, Group};
use crate::interaction::{
    alerts, captured, last_sighting, outcome, predator_alerts, prey_alerts, sightings,
    strike_count, touched, Sighting,
};
use crate::relation::{mutually_visible, sights, strikes};

verus! {

/// The prey that a notice names.
pub open spec fn named_prey(notice: Sighting) -> usize {
    match notice {
        Sighting::PreySawPredator { prey, .. } => prey,
        Sighting::PredatorSawPrey { prey, .. } => prey,
    }
}

/// Whether the world calls for this notice: it names a prey that got away
/// and a predator that sighted it, and, where the notice comes from the prey,
/// the prey sees that predator too.
pub open spec fn called_for(
    notice: Sighting,
    predators: Seq<Predator>,
    prey: Seq<Prey>,
    config: Config,
) -> bool {
    match notice {
        Sighting::PreySawPredator { prey: j, predator: i } => {
            &&& j < prey.len()
            &&& i < predators.len()
            &&& !captured(predators, prey[j as int].position, config)
            &&& mutually_visible(predators[i as int].position, prey[j as int].position, config)
        },
        Sighting::PredatorSawPrey { predator: i, prey: j } => {
            &&& j < prey.len()
            &&& i < predators.len()
            &&& !captured(predators, prey[j as int].position, config)
            &&& sights(predators[i as int].position, prey[j as int].position, config)
        },
    }
}

/// The prey that a predator standing at `predator` strikes, by their places
/// among the prey.
pub open spec fn struck(predator: Vec2, prey: Seq<Prey>, config: Config) -> Set<int> {
    Set::new(|j: int| 0 <= j < prey.len() && strikes(predator, prey[j].position, config))
}

/// A predator's count of struck prey is the size of the set of prey that it
/// strikes.
pub proof fn lemma_strike_count_is_set_size(predator: Vec2, prey: Seq<Prey>, config: Config)
    ensures
        struck(predator, prey, config).finite(),
        struck(predator, prey, config).len() == strike_count(predator, prey, config),
    decreases prey.len(),
{
    if prey.len() == 0 {
        assert(struck(predator, prey, config) == Set::<int>::empty());
    } else {
        let earlier = prey.drop_last();
        let last = prey.len() - 1;
        lemma_strike_count_is_set_size(predator, earlier, config);
        if strikes(predator, prey.last().position, config) {
            assert(struck(predator, prey, config) == struck(predator, earlier, config).insert(
                last,
            ));
        } else {
            assert(struck(predator, prey, config) == struck(predator, earlier, config));
        }
    }
}

/// Capture goes by distance alone. A predator within strike range of a prey
/// strikes it, wherever the two stand among the predators and the prey: the
/// prey is in the set that the predator strikes, the predator is on the
/// prey's list of strikers, the prey is captured, and the predator's count of
/// struck prey includes it.
pub proof fn lemma_in_reach_is_struck(
    predators: Seq<Predator>,
    prey: Seq<Prey>,
    i: int,
    j: int,
    config: Config,
)
    requires
        config.valid(),
        0 <= i < predators.len() <= usize::MAX,
        0 <= j < prey.len(),
        predators[i].position.dist_sq(prey[j].position) <= config.predator_strike_radius_sq,
    ensures
        strikes(predators[i].position, prey[j].position, config),
        struck(predators[i].position, prey, config).contains(j),
        captured(predators, prey[j].position, config),
        listed(
            members(Group::Striking, predators, predators.len() as int, prey[j].position, config),
            members(
                Group::Striking,
                predators,
                predators.len() as int,
                prey[j].position,
                config,
            ).len() as int,
            i,
        ),
        strike_count(predators[i].position, prey, config) >= 1,
{
    let n = predators.len() as int;
    let spot = prey[j].position;
    lemma_members(Group::Striking, predators, n, spot, config);
    lemma_strike_count_remove(predators[i].position, prey, j, config);
}

/// Taking one prey away lowers a predator's count by one if the predator
/// strikes that prey, and leaves it as it is otherwise.
pub proof fn lemma_strike_count_remove(predator: Vec2, prey: Seq<Prey>, j: int, config: Config)
    requires
        0 <= j < prey.len(),
    ensures
        strike_count(predator, prey, config) == strike_count(predator, prey.remove(j), config)
            + if strikes(predator, prey[j].position, config) {
            1nat
        } else {
            0nat
        },
    decreases prey.len(),
{
    if j == prey.len() - 1 {
        assert(prey.remove(j) == prey.drop_last());
    } else {
        assert(prey.remove(j).drop_last() == prey.drop_last().remove(j));
        lemma_strike_count_remove(predator, prey.drop_last(), j, config);
    }
}

/// The order of the prey does not matter to a predator's count: two
/// arrangements of the same prey give the same number.
pub proof fn lemma_strike_count_ignores_order(
    predator: Vec2,
    a: Seq<Prey>,
    b: Seq<Prey>,
    config: Config,
)
    requires
        a.to_multiset() == b.to_multiset(),
    ensures
        strike_count(predator, a, config) == strike_count(predator, b, config),
    decreases a.len(),
{
    a.to_multiset_ensures();
    b.to_multiset_ensures();
    if a.len() > 0 {
        let last = a.len() - 1;
        let y = a[last];
        assert(b.to_multiset().count(y) > 0);
        let k = choose|k: int| 0 <= k < b.len() && b[k] == y;
        assert(a.remove(last) == a.drop_last());
        lemma_strike_count_ignores_order(predator, a.drop_last(), b.remove(k), config);
        lemma_strike_count_remove(predator, b, k, config);
    }
}

/// The order of the predators does not matter to whether a prey is captured.
pub proof fn lemma_capture_ignores_order(
    a: Seq<Predator>,
    b: Seq<Predator>,
    prey: Vec2,
    config: Config,
)
    requires
        a.to_multiset() == b.to_multiset(),
    ensures
        captured(a, prey, config) == captured(b, prey, config),
{
    a.to_multiset_ensures();
    b.to_multiset_ensures();
    if captured(a, prey, config) {
        let i = choose|i: int|
            0 <= i < a.len() && strikes(#[trigger] a[i].position, prey, config);
        assert(b.to_multiset().count(a[i]) > 0);
        let k = choose|k: int| 0 <= k < b.len() && b[k] == a[i];
        assert(strikes(b[k].position, prey, config));
    }
    if captured(b, prey, config) {
        let i = choose|i: int|
            0 <= i < b.len() && strikes(#[trigger] b[i].position, prey, config);
        assert(a.to_multiset().count(b[i]) > 0);
        let k = choose|k: int| 0 <= k < a.len() && a[k] == b[i];
        assert(strikes(a[k].position, prey, config));
    }
}

/// An interaction phase without prey changes no predator and raises no
/// notice, and so does one without predators.
pub proof fn lemma_empty_world_is_idle(predators: Seq<Predator>, prey: Seq<Prey>, config: Config)
    requires
        predators.len() == 0 || prey.len() == 0,
    ensures
        forall|i: int|
            0 <= i < predators.len() ==> #[trigger] outcome(predators, i, prey, config)
                == predators[i],
        sightings(predators, prey, config) == Seq::<Sighting>::empty(),
    decreases prey.len(),
{
    if prey.len() > 0 {
        lemma_empty_world_is_idle(predators, prey.drop_last(), config);
        assert(members(Group::MutuallyVisible, predators, 0, prey.last().position, config)
            == Seq::<usize>::empty());
        assert(members(Group::Sighted, predators, 0, prey.last().position, config) == Seq::<
            usize,
        >::empty());
    }
}

/// A score never goes down in an interaction phase: as long as it does not
/// run over, it grows by exactly the number of prey that the predator strikes.
pub proof fn lemma_score_grows_by_strikes(
    predators: Seq<Predator>,
    i: int,
    prey: Seq<Prey>,
    config: Config,
)
    requires
        0 <= i < predators.len(),
        predators[i].score + strike_count(predators[i].position, prey, config) <= u64::MAX,
    ensures
        outcome(predators, i, prey, config).score == predators[i].score + strike_count(
            predators[i].position,
            prey,
            config,
        ),
        outcome(predators, i, prey, config).score >= predators[i].score,
{
}

/// Capture takes precedence over sighting. When a prey is captured, resolving
/// it changes no predator's memory of prey and raises no notice, even if other
/// predators merely sighted it.
pub proof fn lemma_capture_hides_prey(
    predators: Seq<Predator>,
    index: usize,
    prey: Vec2,
    config: Config,
)
    requires
        captured(predators, prey, config),
    ensures
        forall|i: int|
            0 <= i < predators.len() ==> (#[trigger] touched(
                predators[i],
                prey,
                true,
                config,
            )).last_seen_prey == predators[i].last_seen_prey,
        alerts(predators, index, prey, config) == Seq::<Sighting>::empty(),
{
}

/// A captured prey leaves every predator's memory as if the prey had not been
/// there at all.
pub proof fn lemma_captured_prey_leaves_no_trace(
    before: Option<Vec2>,
    predators: Seq<Predator>,
    i: int,
    prey: Seq<Prey>,
    j: int,
    config: Config,
)
    requires
        0 <= j < prey.len(),
        captured(predators, prey[j].position, config),
    ensures
        last_sighting(before, predators, i, prey, config) == last_sighting(
            before,
            predators,
            i,
            prey.remove(j),
            config,
        ),
    decreases prey.len(),
{
    if j == prey.len() - 1 {
        assert(prey.remove(j) == prey.drop_last());
    } else {
        assert(prey.remove(j).drop_last() == prey.drop_last().remove(j));
        lemma_captured_prey_leaves_no_trace(before, predators, i, prey.drop_last(), j, config);
    }
}

/// The notices of one prey are exactly those that the world calls for and
/// that name this prey.
proof fn lemma_alerts_exact(predators: Seq<Predator>, prey: Seq<Prey>, j: int, config: Config)
    requires
        predators.len() <= usize::MAX,
        0 <= j < prey.len() <= usize::MAX,
    ensures
        forall|notice: Sighting|
            #[trigger] alerts(predators, j as usize, prey[j].position, config).contains(notice)
                <==> called_for(notice, predators, prey, config) && named_prey(notice) == j,
{
    let n = predators.len() as int;
    let spot = prey[j].position;
    let seen = members(Group::MutuallyVisible, predators, n, spot, config);
    let sighted = members(Group::Sighted, predators, n, spot, config);
    let from_prey = prey_alerts(j as usize, seen);
    let from_predators = predator_alerts(j as usize, sighted);
    let all = alerts(predators, j as usize, spot, config);
    lemma_members(Group::MutuallyVisible, predators, n, spot, config);
    lemma_members(Group::Sighted, predators, n, spot, config);
    assert forall|notice: Sighting| #[trigger] all.contains(notice) implies called_for(
        notice,
        predators,
        prey,
        config,
    ) && named_prey(notice) == j by {
        let k = choose|k: int| 0 <= k < all.len() && all[k] == notice;
        if k < from_prey.len() {
            assert(belongs(
                Group::MutuallyVisible,
                predators[seen[k] as int].position,
                spot,
                config,
            ));
        } else {
            assert(belongs(
                Group::Sighted,
                predators[sighted[k - from_prey.len()] as int].position,
                spot,
                config,
            ));
        }
    }
    assert forall|notice: Sighting|
        called_for(notice, predators, prey, config) && named_prey(notice) == j implies #[trigger] all.contains(
        notice,
    ) by {
        match notice {
            Sighting::PreySawPredator { prey: _, predator: i } => {
                assert(belongs(
                    Group::MutuallyVisible,
                    predators[i as int].position,
                    spot,
                    config,
                ));
                let l = choose|l: int| 0 <= l < seen.len() && seen[l] == i;
                assert(all[l] == notice);
            },
            Sighting::PredatorSawPrey { predator: i, prey: _ } => {
                let l = choose|l: int| 0 <= l < sighted.len() && sighted[l] == i;
                assert(all[from_prey.len() + l] == notice);
            },
        }
    }
}

/// Every notice names the pair that gave rise to it: an interaction phase
/// raises a notice if and only if the world calls for it.
pub proof fn lemma_notices_name_their_pairs(
    predators: Seq<Predator>,
    prey: Seq<Prey>,
    config: Config,
)
    requires
        predators.len() <= usize::MAX,
        prey.len() <= usize::MAX,
    ensures
        forall|notice: Sighting|
            #[trigger] sightings(predators, prey, config).contains(notice) <==> called_for(
                notice,
                predators,
                prey,
                config,
            ),
    decreases prey.len(),
{
    if prey.len() == 0 {
        assert forall|notice: Sighting| !called_for(notice, predators, prey, config) by {}
    } else {
        let last = prey.len() - 1;
        let earlier = sightings(predators, prey.drop_last(), config);
        let latest = alerts(predators, last as usize, prey.last().position, config);
        lemma_notices_name_their_pairs(predators, prey.drop_last(), config);
        lemma_alerts_exact(predators, prey, last, config);
        assert forall|notice: Sighting| #[trigger] sightings(predators, prey, config).contains(
            notice,
        ) <==> called_for(notice, predators, prey, config) by {
            let all = sightings(predators, prey, config);
            if all.contains(notice) {
                let k = choose|k: int| 0 <= k < all.len() && all[k] == notice;
                if k < earlier.len() {
                    assert(earlier.contains(notice));
                } else {
                    assert(latest.contains(notice));
                }
            }
            if called_for(notice, predators, prey, config) {
                if named_prey(notice) == last {
                    assert(latest.contains(notice));
                    let k = choose|k: int| 0 <= k < latest.len() && latest[k] == notice;
                    assert(all[earlier.len() + k] == notice);
                } else {
                    assert(earlier.contains(notice));
                    let k = choose|k: int| 0 <= k < earlier.len() && earlier[k] == notice;
                    assert(all[k] == notice);
                }
            }
        }
    }
}

/// The notices of one prey are all different.
proof fn lemma_alerts_distinct(predators: Seq<Predator>, index: usize, prey: Vec2, config: Config)
    requires
        predators.len() <= usize::MAX,
    ensures
        alerts(predators, index, prey, config).no_duplicates(),
{
    let n = predators.len() as int;
    let seen = members(Group::MutuallyVisible, predators, n, prey, config);
    let sighted = members(Group::Sighted, predators, n, prey, config);
    let from_prey = prey_alerts(index, seen);
    let from_predators = predator_alerts(index, sighted);
    let all = alerts(predators, index, prey, config);
    lemma_members(Group::MutuallyVisible, predators, n, prey, config);
    lemma_members(Group::Sighted, predators, n, prey, config);
    assert forall|k: int, l: int| 0 <= k < l < all.len() implies all[k] != all[l] by {
        if l < from_prey.len() {
            assert(seen[k] < seen[l]);
        } else if k >= from_prey.len() {
            assert(sighted[k - from_prey.len()] < sighted[l - from_prey.len()]);
        } else {
            assert(all[k] is PreySawPredator && all[l] is PredatorSawPrey);
        }
    }
}

/// No notice is raised twice: each pair of a prey and a predator gives rise
/// to at most one notice from either side.
pub proof fn lemma_notices_are_distinct(
    predators: Seq<Predator>,
    prey: Seq<Prey>,
    config: Config,
)
    requires
        predators.len() <= usize::MAX,
        prey.len() <= usize::MAX,
    ensures
        sightings(predators, prey, config).no_duplicates(),
    decreases prey.len(),
{
    if prey.len() > 0 {
        let last = prey.len() - 1;
        let earlier = sightings(predators, prey.drop_last(), config);
        let latest = alerts(predators, last as usize, prey.last().position, config);
        let all = sightings(predators, prey, config);
        lemma_notices_are_distinct(predators, prey.drop_last(), config);
        lemma_notices_name_their_pairs(predators, prey.drop_last(), config);
        lemma_alerts_exact(predators, prey, last, config);
        lemma_alerts_distinct(predators, last as usize, prey.last().position, config);
        assert forall|k: int, l: int| 0 <= k < l < all.len() implies all[k] != all[l] by {
            if l < earlier.len() {
                assert(earlier[k] != earlier[l]);
            } else if k >= earlier.len() {
                assert(latest[k - earlier.len()] != latest[l - earlier.len()]);
            } else {
                assert(earlier.contains(earlier[k]));
                assert(latest.contains(latest[l - earlier.len()]));
                assert(named_prey(all[k]) < last == named_prey(all[l]));
            }
        }
    }
}

/// No notice of an interaction phase names a captured prey.
pub proof fn lemma_no_notice_of_captured_prey(
    predators: Seq<Predator>,
    prey: Seq<Prey>,
    j: int,
    config: Config,
)
    requires
        predators.len() <= usize::MAX,
        0 <= j < prey.len() <= usize::MAX,
        captured(predators, prey[j].position, config),
    ensures
        forall|k: int|
            0 <= k < sightings(predators, prey, config).len() ==> named_prey(
                #[trigger] sightings(predators, prey, config)[k],
            ) != j,
{
    lemma_notices_name_their_pairs(predators, prey, config);
    let all = sightings(predators, prey, config);
    assert forall|k: int| 0 <= k < all.len() implies named_prey(#[trigger] all[k]) != j by {
        assert(all.contains(all[k]));
    }
}

} // verus!
