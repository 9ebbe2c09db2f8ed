//! Operator skills, their seven base levels and optional three mastery
//! levels.

use vstd::prelude::*;
use crate::dict::Dict;
use crate::fixed::FixedValue;
use crate::items::{Item, ItemsCost, ItemsIter};
use crate::promotion::PromotionAndLevel;
use crate::ranges::AttackRange;

verus! {

/// The activation mode of a skill.
#[derive(Debug, Clone, Copy, PartialEq, Eq, Structural, Hash)]
pub enum SkillActivation {
    Passive,
    Manual,
    Auto,
}

/// The recovery mode of a skill.
#[derive(Debug, Clone, Copy, PartialEq, Eq, Structural, Hash)]
pub enum SkillRecovery {
    Passive,
    AutoRecovery,
    OffensiveRecovery,
    DefensiveRecovery,
}

/// One upgradeable level of a skill.
#[derive(Debug)]
pub struct OperatorSkillLevel {
    pub description: Option<String>,
    pub attack_range_id: Option<String>,
    pub prefab_key: Option<String>,
    pub duration: FixedValue,
    pub max_charge_time: u32,
    pub sp_cost: u32,
    pub initial_sp: u32,
    pub increment: FixedValue,
}

impl OperatorSkillLevel {
    /// Looks up the attack range this level grants, if it names one.
    pub fn get_attack_range<'a>(&self, ranges: &'a Dict<AttackRange>) -> (r: Option<&'a
        AttackRange>)
        requires
            ranges.wf(),
        ensures
            match r {
                Some(range) => self.attack_range_id matches Some(id) && ranges@.contains_key(id@)
                    && *range == ranges@[id@],
                None => match self.attack_range_id {
                    Some(id) => !ranges@.contains_key(id@),
                    None => true,
                },
            },
    {
        match &self.attack_range_id {
            Some(id) => ranges.get(id.as_str()),
            None => None,
        }
    }
}

/// One upgradeable mastery level of a skill, wrapping the level it grants.
#[derive(Debug)]
pub struct OperatorSkillMastery {
    pub condition: PromotionAndLevel,
    pub upgrade_time: u32,
    pub upgrade_cost: ItemsCost,
    /// The skill level this mastery upgrade grants.
    pub level: OperatorSkillLevel,
}

impl OperatorSkillMastery {
    /// Whether this mastery's promotion and level requirement is met at
    /// the given state.
    pub fn is_unlockable(&self, promotion_and_level: PromotionAndLevel) -> (r: bool)
        ensures
            r == self.condition.spec_le(promotion_and_level),
    {
        self.condition.le(&promotion_and_level)
    }

    /// Walks the items required to obtain this mastery upgrade.
    pub fn iter_upgrade_cost<'a>(&'a self, items: &'a Dict<Item>) -> (r: ItemsIter<'a>)
        requires
            self.upgrade_cost.wf(),
            items.wf(),
        ensures
            r.wf(),
            r.costs == &self.upgrade_cost,
            r.items == items,
            r.spec_pos() == 0,
    {
        ItemsIter::new(&self.upgrade_cost, items)
    }
}

/// A skill with its exactly seven base levels and, where the source
/// supplies them, exactly three mastery levels.
#[derive(Debug)]
pub struct OperatorSkill {
    /// The internal ID of this skill.
    pub id: String,
    pub name: String,
    pub prefab_key: Option<String>,
    pub condition: PromotionAndLevel,
    pub activation: SkillActivation,
    pub recovery: SkillRecovery,
    /// Upgrade levels one to seven.
    pub levels: Vec<OperatorSkillLevel>,
    /// Mastery levels one to three, if the source supplies them.
    pub mastery: Option<Vec<OperatorSkillMastery>>,
}

impl OperatorSkill {
    /// The level lists hold exactly seven base levels and, when present,
    /// exactly three mastery levels.
    pub open spec fn wf(self) -> bool {
        &&& self.levels@.len() == 7
        &&& match self.mastery {
            Some(m) => m@.len() == 3,
            None => true,
        }
    }

    /// Whether this skill is unlocked at the given promotion and level.
    pub fn is_unlocked(&self, promotion_and_level: PromotionAndLevel) -> (r: bool)
        ensures
            r == self.condition.spec_le(promotion_and_level),
    {
        self.condition.le(&promotion_and_level)
    }

    /// All levels of this skill in order: the seven base levels, then the
    /// mastery levels' granted levels.
    pub fn iter_levels(&self) -> (r: Vec<&OperatorSkillLevel>)
        ensures
            r@.len() == self.levels@.len() + (match self.mastery {
                Some(m) => m@.len(),
                None => 0,
            }),
            forall|k: int| 0 <= k < self.levels@.len() ==> *(#[trigger] r@[k]) == self.levels@[k],
            match self.mastery {
                Some(m) => forall|k: int|
                    0 <= k < m@.len() ==> *(#[trigger] r@[self.levels@.len() + k]) == m@[k].level,
                None => true,
            },
    {
        let mut out: Vec<&OperatorSkillLevel> = Vec::new();
        let n = self.levels.len();
        let mut i: usize = 0;
        while i < n
            invariant
                i <= n,
                n == self.levels@.len(),
                out@.len() == i,
                forall|k: int| 0 <= k < i ==> *(#[trigger] out@[k]) == self.levels@[k],
            decreases n - i,
        {
            out.push(&self.levels[i]);
            i = i + 1;
        }
        match &self.mastery {
            Some(m) => {
                let mn = m.len();
                let mut j: usize = 0;
                while j < mn
                    invariant
                        j <= mn,
                        mn == m@.len(),
                        n == self.levels@.len(),
                        out@.len() == n + j,
                        forall|k: int| 0 <= k < n ==> *(#[trigger] out@[k]) == self.levels@[k],
                        forall|k: int| 0 <= k < j ==> *(#[trigger] out@[n + k]) == m@[k].level,
                    decreases mn - j,
                {
                    out.push(&m[j].level);
                    j = j + 1;
                }
            },
            None => {},
        }
        out
    }
}

} // verus!
