//! Base rooms and their upgrades.

use vstd::prelude::*;
use crate::dict::Dict;
use crate::items::{Item, ItemsCost, ItemsIter};

verus! {

/// A base room's categorization.
#[derive(Debug, Clone, Copy, PartialEq, Eq, Structural, Hash)]
pub enum BuildingType {
    ControlCenter,
    PowerPlant,
    Factory,
    TradingPost,
    Dormitory,
    Workshop,
    Office,
    TrainingRoom,
    ReceptionRoom,
    Elevator,
    Corridor,
}

/// A base room that can exist.
#[derive(Debug)]
pub struct Building {
    pub building_type: BuildingType,
    pub name: String,
    pub description: Option<String>,
    pub max_count: Option<u32>,
    pub category: String,
    /// Size of this room as (width, height).
    pub size: (u32, u32),
    pub upgrades: Vec<BuildingUpgrade>,
}

/// A potential upgrade of a base room.
#[derive(Debug)]
pub struct BuildingUpgrade {
    pub unlock_condition: String,
    /// Materials required to construct or upgrade this building.
    pub construction_cost: ItemsCost,
    /// Drones required to construct or upgrade this building.
    pub construction_drones: u32,
    /// The power this building consumes or produces: positive for power
    /// plants, negative for other buildings.
    pub power: i32,
    pub operator_capacity: u32,
    pub manpower_cost: u32,
}

impl BuildingUpgrade {
    /// Walks the items required to obtain this upgrade.
    pub fn iter_construction_cost<'a>(&'a self, items: &'a Dict<Item>) -> (r: ItemsIter<'a>)
        requires
            self.construction_cost.wf(),
            items.wf(),
        ensures
            r.wf(),
            r.costs == &self.construction_cost,
            r.items == items,
            r.spec_pos() == 0,
    {
        ItemsIter::new(&self.construction_cost, items)
    }
}

} // verus!
