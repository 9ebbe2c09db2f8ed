//! Equippable modules of operators.

use vstd::prelude::*;
use crate::dict::Dict;
use crate::items::{Item, ItemsCost, ItemsIter};
use crate::promotion::PromotionAndLevel;

verus! {

/// A mission that must be completed to unlock a module.
#[derive(Debug)]
pub struct OperatorModuleMission {
    /// A description of the mission requirements.
    pub description: String,
    pub sort: u32,
}

/// An unlockable module of an operator.
#[derive(Debug)]
pub struct OperatorModule {
    /// The internal ID of this module.
    pub id: String,
    pub name: String,
    /// Story text accessible after unlocking this module.
    pub description: String,
    pub condition: PromotionAndLevel,
    /// The trust percent (0 to 200) this module asks for.
    pub required_trust: u32,
    pub upgrade_cost: ItemsCost,
    /// The missions to complete before this module can be unlocked, keyed
    /// by mission ID.
    pub missions: Dict<OperatorModuleMission>,
}

impl OperatorModule {
    /// Whether this module's promotion, level and trust requirements are
    /// met at the given state.
    pub fn is_unlockable(&self, promotion_and_level: PromotionAndLevel, trust: u32) -> (r: bool)
        ensures
            r == (self.condition.spec_le(promotion_and_level) && self.required_trust <= trust),
    {
        self.condition.le(&promotion_and_level) && self.required_trust <= trust
    }

    /// Walks the items required to obtain this module.
    pub fn iter_upgrade_cost<'a>(&'a self, items: &'a Dict<Item>) -> (r: ItemsIter<'a>)
        requires
            self.upgrade_cost.wf(),
            items.wf(),
        ensures
            r.wf(),
            r.costs == &self.upgrade_cost,
            r.items == items,
            r.spec_pos() == 0,
    {
        ItemsIter::new(&self.upgrade_cost, items)
    }
}

} // verus!
