use vstd::prelude::*;
use crate::check::{CheckResult, Checker};
use crate::ecs::component::Component;
use crate::ecs::ECS;
use crate::health::Health;
use crate::skill::Skill;
use crate::stats::Stats;

verus! {

/// A packet of incoming damage, as the rank it attacks with.
#[derive(Clone, Copy, Debug, PartialEq, Eq, Structural)]
pub struct Damage {
    pub rank: i32,
}

/// The health a character is left with after a check against damage: a
/// successful check of the damage worsens the state; a failed one only
/// deepens the wound penalty.
pub open spec fn spec_damaged(h: Health, outcome: CheckResult) -> Health {
    match outcome {
        CheckResult::Success(_) => Health { state: h.state.spec_worse(), penalty: h.penalty },
        CheckResult::Failure(_) => Health { state: h.state, penalty: (h.penalty + 1) as u32 },
    }
}

/// The toughness rank the check runs against: the character's stored rank,
/// or the skill's default.
pub open spec fn spec_toughness(stats: Stats, toughness: Skill) -> int {
    if stats@.contains_key(toughness.id) {
        stats@[toughness.id] as int
    } else {
        toughness.default->Some_0 as int
    }
}

/// Apply a check outcome to a character's health: success against the
/// damage worsens the state, failure deepens the wound penalty.
pub fn apply_check_result(health: &mut Health, outcome: &CheckResult)
    requires
        old(health).penalty < u32::MAX,
    ensures
        *final(health) == spec_damaged(*old(health), *outcome),
{
    match outcome {
        CheckResult::Success(_) => {
            health.state = health.state.get_worse();
        },
        CheckResult::Failure(_) => {
            health.penalty = health.penalty + 1;
        },
    }
}

/// The system that resolves incoming damage against a character's
/// toughness and updates its health.
pub struct HealthSystem<'a> {
    pub checker: &'a dyn Checker,
    pub toughness: &'a Skill,
}

impl<'a> HealthSystem<'a> {
    /// Resolve `damage` against `target`: check the damage's rank against
    /// the target's toughness lowered by its wound penalty, then worsen the
    /// state or deepen the penalty. Which of the two happens depends on the
    /// checker's dice alone.
    pub fn take_damage(&self, ecs: &mut ECS, target: usize, damage: &Damage)
        requires
            old(ecs).registered::<Health>(),
            old(ecs).registered::<Stats>(),
            old(ecs).storage_view::<Health>().contains_key(target),
            old(ecs).storage_view::<Stats>().contains_key(target),
            ({
                let stats = old(ecs).storage_view::<Stats>()[target];
                stats@.contains_key(self.toughness.id) || self.toughness.default is Some
            }),
            -1000000000 <= damage.rank <= 1000000000,
            -999000000 <= spec_toughness(
                old(ecs).storage_view::<Stats>()[target],
                *self.toughness,
            ) <= 1000000000,
            old(ecs).storage_view::<Health>()[target].penalty <= 1000000,
            old(ecs).storage_view::<Health>()[target].penalty < u32::MAX,
        ensures
            final(ecs).entities_view() == old(ecs).entities_view(),
            final(ecs).next_id() == old(ecs).next_id(),
            final(ecs).data_view() == old(ecs).data_view(),
            exists|outcome: CheckResult|
                final(ecs).storages() == Health::upd(
                    old(ecs).storages(),
                    Some(
                        old(ecs).storage_view::<Health>().insert(
                            target,
                            spec_damaged(old(ecs).storage_view::<Health>()[target], outcome),
                        ),
                    ),
                ),
    {
        let toughness_rank = self.get_toughness(ecs, target);
        let penalty = ecs.unwrap_component::<Health>(target).penalty;
        let difficulty = toughness_rank - penalty as i32;
        let outcome = self.checker.check(damage.rank, difficulty);
        let health = ecs.unwrap_component_mut::<Health>(target);
        apply_check_result(health, &outcome);
        proof {
            let h0 = old(ecs).storage_view::<Health>()[target];
            assert(final(ecs).storages() == Health::upd(
                old(ecs).storages(),
                Some(old(ecs).storage_view::<Health>().insert(target, spec_damaged(h0, outcome))),
            ));
        }
    }

    /// The target's toughness rank: its stored rank, or the skill's
    /// default, which must exist.
    fn get_toughness(&self, ecs: &ECS, target: usize) -> (r: i32)
        requires
            ecs.registered::<Stats>(),
            ecs.storage_view::<Stats>().contains_key(target),
            ({
                let stats = ecs.storage_view::<Stats>()[target];
                stats@.contains_key(self.toughness.id) || self.toughness.default is Some
            }),
        ensures
            r == spec_toughness(ecs.storage_view::<Stats>()[target], *self.toughness),
    {
        let stats = ecs.unwrap_component::<Stats>(target);
        match stats.get_skill_rank(self.toughness) {
            Some(rank) => rank,
            None => unreached(),
        }
    }
}

} // verus!
