//! Talents and potential upgrades of operators.

use vstd::prelude::*;
use crate::dict::Dict;
use crate::fixed::FixedValue;
use crate::promotion::PromotionAndLevel;

verus! {

/// A single potential upgrade of an operator.
#[derive(Debug)]
pub struct OperatorPotential {
    /// Zero marks a stat boost, one a talent improvement.
    pub potential_type: u32,
    pub description: String,
}

/// An unlockable phase of a talent.
#[derive(Debug)]
pub struct OperatorTalentPhase {
    pub name: String,
    pub description: String,
    pub condition: PromotionAndLevel,
    pub required_potential: u8,
    /// An opaque slot marker from the raw data; its meaning is not modeled,
    /// the value is carried through as it stands.
    pub prefab_key: String,
    pub attack_range_id: Option<String>,
    /// Numeric effect strengths keyed by effect name.
    pub effects: Dict<FixedValue>,
}

impl OperatorTalentPhase {
    /// Whether this phase's promotion, level and potential requirements are
    /// met at the given state.
    pub fn is_unlocked(&self, promotion_and_level: PromotionAndLevel, potential: u8) -> (r: bool)
        ensures
            r == (self.condition.spec_le(promotion_and_level) && self.required_potential
                <= potential),
    {
        self.condition.le(&promotion_and_level) && self.required_potential <= potential
    }
}

/// A talent: a non-empty ordered list of unlockable phases.
#[derive(Debug)]
pub struct OperatorTalent {
    pub phases: Vec<OperatorTalentPhase>,
}

impl OperatorTalent {
    /// Finds the highest unlocked phase at the given state: the last phase
    /// in order whose requirements are met.
    pub fn get_unlocked(&self, promotion_and_level: PromotionAndLevel, potential: u8) -> (r:
        Option<&OperatorTalentPhase>)
        ensures
            match r {
                Some(p) => exists|i: int|
                    0 <= i < self.phases@.len() && *p == self.phases@[i] && (#[trigger] self.phases@[i].condition).spec_le(
                        promotion_and_level,
                    ) && self.phases@[i].required_potential <= potential && (forall|j: int|
                        i < j < self.phases@.len() ==> !((#[trigger] self.phases@[j].condition).spec_le(
                            promotion_and_level,
                        ) && self.phases@[j].required_potential <= potential)),
                None => forall|j: int|
                    0 <= j < self.phases@.len() ==> !((#[trigger] self.phases@[j].condition).spec_le(
                        promotion_and_level,
                    ) && self.phases@[j].required_potential <= potential),
            },
    {
        let n = self.phases.len();
        let mut i: usize = n;
        while i > 0
            invariant
                i <= n,
                n == self.phases@.len(),
                forall|j: int|
                    i <= j < n ==> !((#[trigger] self.phases@[j].condition).spec_le(
                        promotion_and_level,
                    ) && self.phases@[j].required_potential <= potential),
            decreases i,
        {
            i = i - 1;
            if self.phases[i].is_unlocked(promotion_and_level, potential) {
                return Some(&self.phases[i]);
            }
        }
        None
    }
}

} // verus!
