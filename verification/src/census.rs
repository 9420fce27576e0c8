//! The predators around one prey, sorted into groups.
//!
//! A prey gathers three groups of predators: those that strike it, those that
//! sight it, and, among the latter, those that it sees in turn. Each group is
//! kept as the list of its members' indices among the predators, in ascending
//! order.

use vstd::prelude::*;
use crate::conf::Config;
use crate::entities::Predator;
use crate::geometry::Vec2;
use crate::relation::{classify, mutually_visible, sights, strikes, Relation};

verus! {

/// One of the three groups of predators around a prey.
#[derive(Clone, Copy, Debug, PartialEq, Eq, Structural)]
pub enum Group {
    /// The predators that capture the prey.
    Striking,
    /// The predators that see the prey without reaching it.
    Sighted,
    /// Those of the sighted predators that the prey sees in turn.
    MutuallyVisible,
}

/// The indices of the predators around one prey, group by group.
#[derive(Debug, PartialEq, Eq)]
pub struct Census {
    pub striking: Vec<usize>,
    pub sighted: Vec<usize>,
    pub mutually_visible: Vec<usize>,
}

/// Whether a predator standing at `predator` belongs to `group` for a prey
/// standing at `prey`.
pub open spec fn belongs(group: Group, predator: Vec2, prey: Vec2, config: Config) -> bool {
    match group {
        Group::Striking => strikes(predator, prey, config),
        Group::Sighted => sights(predator, prey, config),
        Group::MutuallyVisible => mutually_visible(predator, prey, config),
    }
}

/// The indices below `n` of the predators in `group`, in ascending order.
pub open spec fn members(
    group: Group,
    predators: Seq<Predator>,
    n: int,
    prey: Vec2,
    config: Config,
) -> Seq<usize>
    decreases n,
{
    if n <= 0 {
        Seq::empty()
    } else {
        let below = members(group, predators, n - 1, prey, config);
        if belongs(group, predators[n - 1].position, prey, config) {
            below.push((n - 1) as usize)
        } else {
            below
        }
    }
}

/// Whether predator `i` occurs among the first `k` entries of `list`.
pub open spec fn listed(list: Seq<usize>, k: int, i: int) -> bool {
    exists|l: int| 0 <= l < k && l < list.len() && #[trigger] list[l] == i
}

/// Whether each entry of `list` is greater than the one before it.
pub open spec fn ascending(list: Seq<usize>) -> bool {
    forall|l: int, m: int| 0 <= l < m < list.len() ==> list[l] < list[m]
}

/// Scans all predators and sorts them into the groups of a prey standing at
/// `prey`.
pub fn survey(predators: &Vec<Predator>, prey: &Vec2, config: &Config) -> (census: Census)
    ensures
        census.striking@ == members(
            Group::Striking,
            predators@,
            predators.len() as int,
            *prey,
            *config,
        ),
        census.sighted@ == members(
            Group::Sighted,
            predators@,
            predators.len() as int,
            *prey,
            *config,
        ),
        census.mutually_visible@ == members(
            Group::MutuallyVisible,
            predators@,
            predators.len() as int,
            *prey,
            *config,
        ),
{
    let mut striking: Vec<usize> = Vec::new();
    let mut sighted: Vec<usize> = Vec::new();
    let mut mutually_visible: Vec<usize> = Vec::new();
    let n = predators.len();
    let mut i: usize = 0;
    while i < n
        invariant
            i <= n,
            n == predators.len(),
            striking@ == members(Group::Striking, predators@, i as int, *prey, *config),
            sighted@ == members(Group::Sighted, predators@, i as int, *prey, *config),
            mutually_visible@ == members(
                Group::MutuallyVisible,
                predators@,
                i as int,
                *prey,
                *config,
            ),
        decreases n - i,
    {
        match classify(&predators[i].position, prey, config) {
            Relation::OutOfRange => {},
            Relation::Strike => {
                striking.push(i);
            },
            Relation::Sighted { mutual } => {
                sighted.push(i);
                if mutual {
                    mutually_visible.push(i);
                }
            },
        }
        i = i + 1;
    }
    Census { striking, sighted, mutually_visible }
}

/// A group's list names exactly the predators that belong to the group, each
/// once, in ascending order.
pub proof fn lemma_members(
    group: Group,
    predators: Seq<Predator>,
    n: int,
    prey: Vec2,
    config: Config,
)
    requires
        0 <= n <= predators.len(),
        n <= usize::MAX,
    ensures
        members(group, predators, n, prey, config).len() <= n,
        forall|l: int|
            0 <= l < members(group, predators, n, prey, config).len() ==> {
                let i = #[trigger] members(group, predators, n, prey, config)[l];
                i < n && belongs(group, predators[i as int].position, prey, config)
            },
        ascending(members(group, predators, n, prey, config)),
        forall|i: int|
            0 <= i < n && belongs(group, #[trigger] predators[i].position, prey, config)
                ==> listed(
                members(group, predators, n, prey, config),
                members(group, predators, n, prey, config).len() as int,
                i,
            ),
    decreases n,
{
    if n > 0 {
        lemma_members(group, predators, n - 1, prey, config);
        let below = members(group, predators, n - 1, prey, config);
        let all = members(group, predators, n, prey, config);
        assert forall|i: int|
            0 <= i < n && belongs(group, #[trigger] predators[i].position, prey, config) implies listed(
            all,
            all.len() as int,
            i,
        ) by {
            if i < n - 1 {
                let l = choose|l: int| 0 <= l < below.len() && below[l] == i;
                assert(all[l] == i);
            } else {
                assert(all[all.len() - 1] == i);
            }
        }
    }
}

/// Going one entry further down an ascending list adds that entry to those
/// passed, and no other.
pub proof fn lemma_listed_next(list: Seq<usize>, k: int)
    requires
        ascending(list),
        0 <= k < list.len(),
    ensures
        !listed(list, k, list[k] as int),
        forall|i: int| listed(list, k + 1, i) <==> listed(list, k, i) || i == list[k],
{
}

/// Who belongs to which group depends on where the predators stand, and on
/// nothing else about them.
pub proof fn lemma_members_by_position(
    group: Group,
    a: Seq<Predator>,
    b: Seq<Predator>,
    n: int,
    prey: Vec2,
    config: Config,
)
    requires
        a.len() == b.len(),
        0 <= n <= a.len(),
        forall|i: int| 0 <= i < a.len() ==> #[trigger] a[i].position == b[i].position,
    ensures
        members(group, a, n, prey, config) == members(group, b, n, prey, config),
    decreases n,
{
    if n > 0 {
        lemma_members_by_position(group, a, b, n - 1, prey, config);
    }
}

} // verus!
