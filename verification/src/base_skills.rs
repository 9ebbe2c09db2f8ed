//! Base (passive, building-granted) skills of operators.

use vstd::prelude::*;
use crate::buildings::BuildingType;
use crate::promotion::PromotionAndLevel;

verus! {

/// The category of a base skill.
#[derive(Debug, Clone, Copy, PartialEq, Eq, Structural, Hash)]
pub enum OperatorBaseSkillCategory {
    Function,
    Recovery,
    Output,
}

/// An unlockable phase of a base skill.
#[derive(Debug)]
pub struct OperatorBaseSkillPhase {
    pub name: String,
    pub condition: PromotionAndLevel,
    pub sort: u32,
    pub category: OperatorBaseSkillCategory,
    pub building_type: BuildingType,
}

impl OperatorBaseSkillPhase {
    /// Whether this phase's promotion and level requirement is met at the
    /// given state.
    pub fn is_unlocked(&self, promotion_and_level: PromotionAndLevel) -> (r: bool)
        ensures
            r == self.condition.spec_le(promotion_and_level),
    {
        self.condition.le(&promotion_and_level)
    }
}

/// A base skill: a non-empty ordered list of unlockable phases.
#[derive(Debug)]
pub struct OperatorBaseSkill {
    pub phases: Vec<OperatorBaseSkillPhase>,
}

impl OperatorBaseSkill {
    /// Finds the highest unlocked phase at the given state: the last phase
    /// in order whose requirement is met.
    pub fn get_unlocked(&self, promotion_and_level: PromotionAndLevel) -> (r: Option<
        &OperatorBaseSkillPhase,
    >)
        ensures
            match r {
                Some(p) => exists|i: int|
                    0 <= i < self.phases@.len() && *p == self.phases@[i] && (#[trigger] self.phases@[i].condition).spec_le(
                        promotion_and_level,
                    ) && (forall|j: int|
                        i < j < self.phases@.len() ==> !(#[trigger] self.phases@[j].condition).spec_le(
                            promotion_and_level,
                        )),
                None => forall|j: int|
                    0 <= j < self.phases@.len() ==> !(#[trigger] self.phases@[j].condition).spec_le(
                        promotion_and_level,
                    ),
            },
    {
        let n = self.phases.len();
        let mut i: usize = n;
        while i > 0
            invariant
                i <= n,
                n == self.phases@.len(),
                forall|j: int|
                    i <= j < n ==> !(#[trigger] self.phases@[j].condition).spec_le(
                        promotion_and_level,
                    ),
            decreases i,
        {
            i = i - 1;
            if self.phases[i].is_unlocked(promotion_and_level) {
                return Some(&self.phases[i]);
            }
        }
        None
    }
}

} // verus!
