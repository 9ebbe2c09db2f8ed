//! Items and item-cost mappings.

use vstd::prelude::*;
use crate::dict::Dict;

verus! {

/// A mapping from item IDs to how many of each item a cost asks for.
pub type ItemsCost = Dict<u32>;

/// An item's categorization.
#[derive(Debug, Clone, Copy, PartialEq, Eq, Structural, Hash)]
pub enum ItemClass {
    Consumable,
    BasicItem,
    Material,
    Other,
}

/// An item.
#[derive(Debug)]
pub struct Item {
    /// The internal ID of this item.
    pub id: String,
    pub name: String,
    pub description: Option<String>,
    pub rarity: u32,
    pub usage: Option<String>,
    pub obtain: Option<String>,
    pub item_class: ItemClass,
    pub item_type: String,
}

/// Walks an item-cost mapping and pairs each entry that names a known item
/// with that item and the asked count; entries naming unknown items are
/// passed over.
#[derive(Debug)]
pub struct ItemsIter<'a> {
    pub costs: &'a ItemsCost,
    pub items: &'a Dict<Item>,
    pub pos: usize,
}

impl<'a> ItemsIter<'a> {
    /// Both tables the iterator reads are well formed and the position has
    /// not run past the cost list.
    pub open spec fn wf(self) -> bool {
        self.costs.wf() && self.items.wf() && self.pos <= self.costs.entry_seq().len()
    }

    /// How far the iterator has come.
    pub open spec fn spec_pos(self) -> int {
        self.pos as int
    }

    /// The cost entries still to be walked.
    pub open spec fn remaining(self) -> Seq<(String, u32)> {
        self.costs.entry_seq().skip(self.pos as int)
    }

    /// A fresh iterator over a cost mapping, resolving against `items`.
    pub fn new(costs: &'a ItemsCost, items: &'a Dict<Item>) -> (r: ItemsIter<'a>)
        requires
            costs.wf(),
            items.wf(),
        ensures
            r.wf(),
            r.costs == costs,
            r.items == items,
            r.spec_pos() == 0,
    {
        ItemsIter { costs, items, pos: 0 }
    }

    /// Steps to the next cost entry whose item is known, and hands back the
    /// item together with the asked count; `None` once no such entry is
    /// left. Entries naming unknown items are passed over.
    pub fn next(&mut self) -> (r: Option<(&'a Item, u32)>)
        requires
            old(self).wf(),
        ensures
            final(self).wf(),
            final(self).costs == old(self).costs,
            final(self).items == old(self).items,
            match r {
                Some(pair) => {
                    &&& old(self).spec_pos() <= final(self).spec_pos() - 1 < old(
                        self,
                    ).costs.entry_seq().len()
                    &&& {
                        let entry = old(self).costs.entry_seq()[final(self).spec_pos() - 1];
                        &&& old(self).items@.contains_key(entry.0@)
                        &&& *pair.0 == old(self).items@[entry.0@]
                        &&& pair.1 == entry.1
                    }
                    &&& forall|j: int|
                        old(self).spec_pos() <= j < final(self).spec_pos() - 1
                            ==> !old(self).items@.contains_key(
                            #[trigger] old(self).costs.entry_seq()[j].0@,
                        )
                },
                None => {
                    &&& final(self).spec_pos() == old(self).costs.entry_seq().len()
                    &&& forall|j: int|
                        old(self).spec_pos() <= j < old(self).costs.entry_seq().len()
                            ==> !old(self).items@.contains_key(
                            #[trigger] old(self).costs.entry_seq()[j].0@,
                        )
                },
            },
    {
        let entries = self.costs.entries_ref();
        let n = entries.len();
        while self.pos < n
            invariant
                self.wf(),
                self.costs == old(self).costs,
                self.items == old(self).items,
                entries@ == self.costs.entry_seq(),
                n == self.costs.entry_seq().len(),
                old(self).spec_pos() <= self.spec_pos() <= n,
                forall|j: int|
                    old(self).spec_pos() <= j < self.spec_pos() ==> !self.items@.contains_key(
                        #[trigger] self.costs.entry_seq()[j].0@,
                    ),
            decreases n - self.pos,
        {
            let i = self.pos;
            self.pos = i + 1;
            let key: &String = &entries[i].0;
            match self.items.get(key.as_str()) {
                Some(item) => {
                    return Some((item, entries[i].1));
                },
                None => {},
            }
        }
        None
    }
}

} // verus!
