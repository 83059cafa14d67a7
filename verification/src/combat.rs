use std::collections::HashSet;
use vstd::prelude::*;

verus! {

broadcast use vstd::std_specs::hash::group_hash_axioms;

/// The first entity of `chain` that lies in `matching`.
pub open spec fn first_matching(chain: Seq<u64>, matching: Set<u64>) -> Option<u64>
    decreases chain.len(),
{
    if chain.len() == 0 {
        None
    } else if matching.contains(chain[0]) {
        Some(chain[0])
    } else {
        first_matching(chain.drop_first(), matching)
    }
}

/// The nearest of `entity` and its ancestors (parent first, then upwards)
/// that lies in `matching`, if any.
pub fn find_in_ancestors(entity: u64, ancestors: &Vec<u64>, matching: &HashSet<u64>) -> (found: Option<u64>)
    ensures
        found == first_matching(seq![entity] + ancestors@, matching@),
{
    let ghost chain = seq![entity] + ancestors@;
    assert(chain.drop_first() =~= ancestors@);
    if matching.contains(&entity) {
        return Some(entity);
    }
    assert(chain[0] == entity);
    assert(ancestors@.skip(0) =~= ancestors@);
    let mut i: usize = 0;
    while i < ancestors.len()
        invariant
            0 <= i <= ancestors@.len(),
            first_matching(seq![entity] + ancestors@, matching@) == first_matching(ancestors@.skip(i as int), matching@),
        decreases ancestors@.len() - i,
    {
        let ancestor = ancestors[i];
        assert(ancestors@.skip(i as int)[0] == ancestor);
        assert(ancestors@.skip(i as int).drop_first() =~= ancestors@.skip(i + 1));
        if matching.contains(&ancestor) {
            return Some(ancestor);
        }
        i = i + 1;
    }
    assert(ancestors@.skip(i as int).len() == 0);
    None
}

/// A hit lands on the nearest of the victim and its ancestors that has health
/// (the victim itself when none has), and deals damage unless that entity is
/// an ally of the attacker. Returns the entity damaged, if any.
pub fn hit_to_damage(
    victim: u64,
    victim_ancestors: &Vec<u64>,
    with_health: &HashSet<u64>,
    allies: &HashSet<u64>,
) -> (damaged: Option<u64>)
    ensures
        ({
            let target = match first_matching(seq![victim] + victim_ancestors@, with_health@) {
                Some(e) => e,
                None => victim,
            };
            damaged == if allies@.contains(target) { None } else { Some(target) }
        }),
{
    let target = match find_in_ancestors(victim, victim_ancestors, with_health) {
        Some(e) => e,
        None => victim,
    };
    if allies.contains(&target) {
        None
    } else {
        Some(target)
    }
}

/// The entity found is always the victim or one of its ancestors, and lies in
/// the set searched.
pub proof fn lemma_found_entity_is_in_chain(chain: Seq<u64>, matching: Set<u64>)
    ensures
        first_matching(chain, matching) matches Some(e) ==> chain.contains(e) && matching.contains(e),
        first_matching(chain, matching) is None ==> forall|i: int| 0 <= i < chain.len() ==> !matching.contains(#[trigger] chain[i]),
    decreases chain.len(),
{
    if chain.len() > 0 && !matching.contains(chain[0]) {
        lemma_found_entity_is_in_chain(chain.drop_first(), matching);
        if let Some(e) = first_matching(chain, matching) {
            let j = choose|j: int| 0 <= j < chain.drop_first().len() && chain.drop_first()[j] == e;
            assert(chain[j + 1] == e);
        } else {
            assert forall|i: int| 0 <= i < chain.len() implies !matching.contains(#[trigger] chain[i]) by {
                if i > 0 {
                    assert(chain[i] == chain.drop_first()[i - 1]);
                }
            }
        }
    } else if chain.len() > 0 {
        assert(chain.contains(chain[0]));
    }
}

/// What pressing attack does to a weapon's swing animation.
#[derive(Clone, Copy, PartialEq, Eq, Structural, Debug)]
pub enum AttackAction {
    /// The swing has finished: play it again from the start.
    Replay,
    /// The swing is still playing: leave it.
    Continue,
    /// The swing is not playing: stop everything else and start it.
    Start,
}

/// Pressing attack restarts a finished swing, leaves a running one, and starts
/// the swing when it is not playing. `swing` is `Some(finished)` when the swing
/// animation is active.
pub fn attack(swing: Option<bool>) -> (action: AttackAction)
    ensures
        action == match swing {
            Some(true) => AttackAction::Replay,
            Some(false) => AttackAction::Continue,
            None => AttackAction::Start,
        },
{
    match swing {
        Some(finished) => if finished { AttackAction::Replay } else { AttackAction::Continue },
        None => AttackAction::Start,
    }
}

} // verus!
