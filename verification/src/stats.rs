use vstd::prelude::*;
use std::collections::HashMap;
use crate::skill::Skill;

verus! {

/// The stats component: a character's ranks, keyed by skill id.
#[derive(Clone, Debug)]
pub struct Stats {
    skill_map: HashMap<usize, i32>,
}

impl Stats {
    /// The rank mapping, keyed by skill id.
    pub closed spec fn view(self) -> Map<usize, i32> {
        self.skill_map@
    }

    /// A stats component holding exactly the given ranks.
    pub fn new(skill_map: HashMap<usize, i32>) -> (r: Stats)
        ensures
            r@ == skill_map@,
    {
        Stats { skill_map }
    }

    /// The character's rank in `skill`: the stored rank, or the skill's
    /// default when the character does not have the skill, or nothing when
    /// the skill has no default either.
    pub fn get_skill_rank(&self, skill: &Skill) -> (r: Option<i32>)
        ensures
            r == if self@.contains_key(skill.id) {
                Some(self@[skill.id])
            } else {
                skill.default
            },
    {
        broadcast use vstd::std_specs::hash::group_hash_axioms;

        let rank: i32;

        if let Some(base) = self.skill_map.get(&skill.id) {
            rank = *base;
        } else if let Some(default) = skill.default {
            rank = default;
        } else {
            return None;
        }

        Some(rank)
    }
}

/// A fluent builder for a stats component.
pub struct StatsBuilder {
    skill_map: HashMap<usize, i32>,
}

impl StatsBuilder {
    /// The ranks recorded so far, keyed by skill id.
    pub closed spec fn view(self) -> Map<usize, i32> {
        self.skill_map@
    }

    /// Record the rank of `skill`, overwriting an earlier rank for the same
    /// id.
    pub fn add_skill(self, skill: &Skill, rank: i32) -> (r: StatsBuilder)
        ensures
            r@ == self@.insert(skill.id, rank),
    {
        broadcast use vstd::std_specs::hash::group_hash_axioms;

        let mut this = self;
        this.skill_map.insert(skill.id, rank);
        this
    }

    /// Finalize into the stats component.
    pub fn build(self) -> (r: Stats)
        ensures
            r@ == self@,
    {
        Stats { skill_map: self.skill_map }
    }
}

impl Default for StatsBuilder {
    /// A builder with no ranks yet.
    fn default() -> (r: StatsBuilder)
        ensures
            r@ == Map::<usize, i32>::empty(),
    {
        broadcast use vstd::std_specs::hash::group_hash_axioms;

        StatsBuilder { skill_map: HashMap::new() }
    }
}


} // verus!
