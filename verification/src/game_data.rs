//! The assembled domain model and its queries.
//!
//! This module also re-exports every type the model is made of, so that the
//! whole model can be reached from one place.

use vstd::prelude::*;
use crate::chars::{lower_chars, lower_vec, string_to_chars};

pub use crate::buildings::Building;
pub use crate::dict::Dict;
pub use crate::events::{banners_sorted, events_sorted, Event, HeadhuntingBanner, Tense};
pub use crate::items::Item;
pub use crate::operator::Operator;
pub use crate::ranges::AttackRange;

pub use crate::attributes::{
    OperatorPromotion, OperatorPromotionAttributes, OperatorPromotions, OperatorTrustAttributes,
};
pub use crate::base_skills::{OperatorBaseSkill, OperatorBaseSkillCategory, OperatorBaseSkillPhase};
pub use crate::buildings::{BuildingType, BuildingUpgrade};
pub use crate::events::{EventType, HeadhuntingBannerType};
pub use crate::files::{OperatorFile, OperatorFileEntry, OperatorFileUnlock};
pub use crate::fixed::FixedValue;
pub use crate::items::{ItemClass, ItemsCost, ItemsIter};
pub use crate::modules::{OperatorModule, OperatorModuleMission};
pub use crate::profession::{Position, Profession, SubProfession};
pub use crate::promotion::{Promotion, PromotionAndLevel};
pub use crate::ranges::GridPoint;
pub use crate::skills::{
    OperatorSkill, OperatorSkillLevel, OperatorSkillMastery, SkillActivation, SkillRecovery,
};
pub use crate::skins::OperatorSkin;
pub use crate::talents::{OperatorPotential, OperatorTalent, OperatorTalentPhase};

verus! {

/// An unordered pair of operator IDs that are alternate forms of one
/// character.
#[derive(Debug)]
pub struct AlterPair {
    pub first: String,
    pub second: String,
}

impl AlterPair {
    /// The ID paired with `id`, whichever side it stands on.
    pub open spec fn spec_other(self, id: Seq<char>) -> Option<Seq<char>> {
        if self.first@ == id {
            Some(self.second@)
        } else if self.second@ == id {
            Some(self.first@)
        } else {
            None
        }
    }

    /// Hands back the ID paired with `id`, whichever side it stands on.
    pub fn other(&self, id: &str) -> (r: Option<&str>)
        ensures
            match r {
                Some(o) => self.spec_other(id@) == Some(o@),
                None => self.spec_other(id@) is None,
            },
    {
        let owned: String = id.to_owned();
        if self.first == owned {
            Some(self.second.as_str())
        } else if self.second == owned {
            Some(self.first.as_str())
        } else {
            None
        }
    }
}

/// The banners of a list that a tense keeps, in order.
pub open spec fn banners_matching(s: Seq<HeadhuntingBanner>, now: i64, tense: Tense) -> Seq<
    HeadhuntingBanner,
>
    decreases s.len(),
{
    if s.len() == 0 {
        Seq::empty()
    } else if s.last().spec_matches_tense(now, tense) {
        banners_matching(s.drop_last(), now, tense).push(s.last())
    } else {
        banners_matching(s.drop_last(), now, tense)
    }
}

/// The events of a list that a tense keeps, in order.
pub open spec fn events_matching(s: Seq<Event>, now: i64, tense: Tense) -> Seq<Event>
    decreases s.len(),
{
    if s.len() == 0 {
        Seq::empty()
    } else if s.last().spec_matches_tense(now, tense) {
        events_matching(s.drop_last(), now, tense).push(s.last())
    } else {
        events_matching(s.drop_last(), now, tense)
    }
}

/// The assembled game data: one immutable snapshot of every table, joined.
#[derive(Debug)]
pub struct GameData {
    /// When the data this snapshot was built from was last updated, as a
    /// unix timestamp in seconds, where a remote source supplied one.
    pub last_updated: Option<i64>,
    /// The pairs of operator IDs that are alternate forms of one another.
    pub alters: Vec<AlterPair>,
    /// All obtainable operators, keyed by operator ID.
    pub operators: Dict<Operator>,
    /// All items, keyed by item ID.
    pub items: Dict<Item>,
    /// All base buildings; each building type appears at most once.
    pub buildings: Vec<Building>,
    /// All attack ranges, keyed by range ID.
    pub ranges: Dict<AttackRange>,
    /// All recruitment tags, mapping tag name to tag ID.
    pub recruitment_tags: Dict<u32>,
    /// All banners, sorted ascending by open time.
    pub headhunting_banners: Vec<HeadhuntingBanner>,
    /// All events, sorted ascending by open time.
    pub events: Vec<Event>,
}

impl GameData {
    /// The mappings are well formed and the time-ordered lists are sorted.
    pub open spec fn wf(self) -> bool {
        &&& self.operators.wf()
        &&& self.items.wf()
        &&& self.ranges.wf()
        &&& self.recruitment_tags.wf()
        &&& banners_sorted(self.headhunting_banners@)
        &&& events_sorted(self.events@)
    }

    /// Whether a source updated at the given time is newer than this
    /// snapshot. A snapshot without an update time counts as outdated.
    pub fn is_outdated(&self, new_date_time: i64) -> (r: bool)
        ensures
            r == match self.last_updated {
                Some(t) => t < new_date_time,
                None => true,
            },
    {
        match self.last_updated {
            Some(t) => t < new_date_time,
            None => true,
        }
    }

    /// Finds the alternate form paired with an operator ID: the other side
    /// of the first pair the ID stands in.
    pub fn get_alter_for(&self, operator: &str) -> (r: Option<&str>)
        ensures
            match r {
                Some(o) => exists|i: int|
                    0 <= i < self.alters@.len() && (#[trigger] self.alters@[i]).spec_other(
                        operator@,
                    ) == Some(o@) && (forall|j: int|
                        0 <= j < i ==> (#[trigger] self.alters@[j]).spec_other(operator@) is None),
                None => forall|j: int|
                    0 <= j < self.alters@.len() ==> (#[trigger] self.alters@[j]).spec_other(
                        operator@,
                    ) is None,
            },
    {
        let n = self.alters.len();
        let mut i: usize = 0;
        while i < n
            invariant
                i <= n,
                n == self.alters@.len(),
                forall|j: int|
                    0 <= j < i ==> (#[trigger] self.alters@[j]).spec_other(operator@) is None,
            decreases n - i,
        {
            match self.alters[i].other(operator) {
                Some(o) => {
                    return Some(o);
                },
                None => {},
            }
            i = i + 1;
        }
        None
    }

    /// Searches for an operator by in-game name, matching ASCII letters
    /// case-insensitively; the first match in table order is given back.
    /// Names are region dependent.
    pub fn find_operator(&self, operator_name: &str) -> (r: Option<&Operator>)
        requires
            self.operators.wf(),
        ensures
            match r {
                Some(op) => exists|i: int|
                    0 <= i < self.operators.entry_seq().len() && *op == (
                    #[trigger] self.operators.entry_seq()[i]).1 && lower_chars(
                        self.operators.entry_seq()[i].1.name@,
                    ) == lower_chars(operator_name@) && (forall|j: int|
                        0 <= j < i ==> lower_chars(
                            (#[trigger] self.operators.entry_seq()[j]).1.name@,
                        ) != lower_chars(operator_name@)),
                None => forall|j: int|
                    0 <= j < self.operators.entry_seq().len() ==> lower_chars(
                        (#[trigger] self.operators.entry_seq()[j]).1.name@,
                    ) != lower_chars(operator_name@),
            },
    {
        let target = lower_vec(&string_to_chars(operator_name));
        let entries = self.operators.entries_ref();
        let n = entries.len();
        let mut i: usize = 0;
        while i < n
            invariant
                i <= n,
                n == self.operators.entry_seq().len(),
                entries@ == self.operators.entry_seq(),
                target@ == lower_chars(operator_name@),
                forall|j: int|
                    0 <= j < i ==> lower_chars(
                        (#[trigger] self.operators.entry_seq()[j]).1.name@,
                    ) != lower_chars(operator_name@),
            decreases n - i,
        {
            let candidate = lower_vec(&string_to_chars(entries[i].1.name.as_str()));
            if chars_equal(&candidate, &target) {
                return Some(&entries[i].1);
            }
            i = i + 1;
        }
        None
    }

    /// Searches for an item by in-game name, matching ASCII letters
    /// case-insensitively; the first match in table order is given back.
    /// Names are region dependent.
    pub fn find_item(&self, item_name: &str) -> (r: Option<&Item>)
        requires
            self.items.wf(),
        ensures
            match r {
                Some(item) => exists|i: int|
                    0 <= i < self.items.entry_seq().len() && *item == (
                    #[trigger] self.items.entry_seq()[i]).1 && lower_chars(
                        self.items.entry_seq()[i].1.name@,
                    ) == lower_chars(item_name@) && (forall|j: int|
                        0 <= j < i ==> lower_chars((#[trigger] self.items.entry_seq()[j]).1.name@)
                            != lower_chars(item_name@)),
                None => forall|j: int|
                    0 <= j < self.items.entry_seq().len() ==> lower_chars(
                        (#[trigger] self.items.entry_seq()[j]).1.name@,
                    ) != lower_chars(item_name@),
            },
    {
        let target = lower_vec(&string_to_chars(item_name));
        let entries = self.items.entries_ref();
        let n = entries.len();
        let mut i: usize = 0;
        while i < n
            invariant
                i <= n,
                n == self.items.entry_seq().len(),
                entries@ == self.items.entry_seq(),
                target@ == lower_chars(item_name@),
                forall|j: int|
                    0 <= j < i ==> lower_chars((#[trigger] self.items.entry_seq()[j]).1.name@)
                        != lower_chars(item_name@),
            decreases n - i,
        {
            let candidate = lower_vec(&string_to_chars(entries[i].1.name.as_str()));
            if chars_equal(&candidate, &target) {
                return Some(&entries[i].1);
            }
            i = i + 1;
        }
        None
    }

    /// Looks up the building of a given type, if the model holds one.
    pub fn get_building(&self, building_type: BuildingType) -> (r: Option<&Building>)
        ensures
            match r {
                Some(b) => exists|i: int|
                    0 <= i < self.buildings@.len() && *b == self.buildings@[i] && (
                    #[trigger] self.buildings@[i]).building_type == building_type && (forall|
                        j: int,
                    |
                        0 <= j < i ==> (#[trigger] self.buildings@[j]).building_type
                            != building_type),
                None => forall|j: int|
                    0 <= j < self.buildings@.len() ==> (#[trigger] self.buildings@[j]).building_type
                        != building_type,
            },
    {
        let n = self.buildings.len();
        let mut i: usize = 0;
        while i < n
            invariant
                i <= n,
                n == self.buildings@.len(),
                forall|j: int|
                    0 <= j < i ==> (#[trigger] self.buildings@[j]).building_type != building_type,
            decreases n - i,
        {
            if building_type_equal(self.buildings[i].building_type, building_type) {
                return Some(&self.buildings[i]);
            }
            i = i + 1;
        }
        None
    }

    /// The banners a tense keeps at the given time, oldest first.
    pub fn iter_banners(&self, now: i64, tense: Tense) -> (r: Vec<&HeadhuntingBanner>)
        ensures
            r@.len() == banners_matching(self.headhunting_banners@, now, tense).len(),
            forall|k: int|
                0 <= k < r@.len() ==> *(#[trigger] r@[k]) == banners_matching(
                    self.headhunting_banners@,
                    now,
                    tense,
                )[k],
    {
        let n = self.headhunting_banners.len();
        let mut out: Vec<&HeadhuntingBanner> = Vec::new();
        let mut i: usize = 0;
        proof {
            assert(self.headhunting_banners@.take(0) =~= Seq::<HeadhuntingBanner>::empty());
        }
        while i < n
            invariant
                i <= n,
                n == self.headhunting_banners@.len(),
                out@.len() == banners_matching(
                    self.headhunting_banners@.take(i as int),
                    now,
                    tense,
                ).len(),
                forall|k: int|
                    0 <= k < out@.len() ==> *(#[trigger] out@[k]) == banners_matching(
                        self.headhunting_banners@.take(i as int),
                        now,
                        tense,
                    )[k],
            decreases n - i,
        {
            proof {
                assert(self.headhunting_banners@.take(i + 1).drop_last()
                    =~= self.headhunting_banners@.take(i as int));
                assert(self.headhunting_banners@.take(i + 1).last()
                    == self.headhunting_banners@[i as int]);
            }
            if self.headhunting_banners[i].matches_tense(now, tense) {
                out.push(&self.headhunting_banners[i]);
            }
            i = i + 1;
        }
        proof {
            assert(self.headhunting_banners@.take(n as int) =~= self.headhunting_banners@);
        }
        out
    }

    /// The events a tense keeps at the given time, oldest first.
    pub fn iter_events(&self, now: i64, tense: Tense) -> (r: Vec<&Event>)
        ensures
            r@.len() == events_matching(self.events@, now, tense).len(),
            forall|k: int|
                0 <= k < r@.len() ==> *(#[trigger] r@[k]) == events_matching(
                    self.events@,
                    now,
                    tense,
                )[k],
    {
        let n = self.events.len();
        let mut out: Vec<&Event> = Vec::new();
        let mut i: usize = 0;
        proof {
            assert(self.events@.take(0) =~= Seq::<Event>::empty());
        }
        while i < n
            invariant
                i <= n,
                n == self.events@.len(),
                out@.len() == events_matching(self.events@.take(i as int), now, tense).len(),
                forall|k: int|
                    0 <= k < out@.len() ==> *(#[trigger] out@[k]) == events_matching(
                        self.events@.take(i as int),
                        now,
                        tense,
                    )[k],
            decreases n - i,
        {
            proof {
                assert(self.events@.take(i + 1).drop_last() =~= self.events@.take(i as int));
                assert(self.events@.take(i + 1).last() == self.events@[i as int]);
            }
            if self.events[i].matches_tense(now, tense) {
                out.push(&self.events[i]);
            }
            i = i + 1;
        }
        proof {
            assert(self.events@.take(n as int) =~= self.events@);
        }
        out
    }
}

/// Compares two character vectors for equality.
fn chars_equal(a: &Vec<char>, b: &Vec<char>) -> (r: bool)
    ensures
        r == (a@ == b@),
{
    let n = a.len();
    if n != b.len() {
        proof {
            assert(a@.len() != b@.len());
        }
        return false;
    }
    let mut i: usize = 0;
    while i < n
        invariant
            i <= n,
            n == a@.len() == b@.len(),
            forall|j: int| 0 <= j < i ==> a@[j] == b@[j],
        decreases n - i,
    {
        if a[i] != b[i] {
            return false;
        }
        i = i + 1;
    }
    proof {
        assert(a@ =~= b@);
    }
    true
}

/// Compares two building types.
fn building_type_equal(a: BuildingType, b: BuildingType) -> (r: bool)
    ensures
        r == (a == b),
{
    a == b
}

} // verus!
