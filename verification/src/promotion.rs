//! Promotion tiers and the `(tier, level)` pairs that gate every unlock.

use vstd::prelude::*;
use vstd::std_specs::cmp::PartialOrdSpec;

verus! {

/// The promotion tier of an operator: the base tier and two elite tiers.
#[derive(Debug, Clone, Copy, PartialEq, Eq, Structural, Hash)]
pub enum Promotion {
    /// The default promotion tier, before either elite promotion.
    Base,
    /// The first (elite 1) promotion tier.
    Elite1,
    /// The second (elite 2) promotion tier.
    Elite2,
}

impl Promotion {
    /// The rank of a tier: base before elite 1 before elite 2.
    pub open spec fn rank(self) -> int {
        match self {
            Promotion::Base => 0,
            Promotion::Elite1 => 1,
            Promotion::Elite2 => 2,
        }
    }

    /// Maps a raw phase index (0, 1 or 2) to its tier; other indices are
    /// unknown and rejected.
    pub fn from_phase(phase: u32) -> (r: Option<Promotion>)
        ensures
            r == Promotion::spec_from_phase(phase),
    {
        match phase {
            0u32 => Some(Promotion::Base),
            1u32 => Some(Promotion::Elite1),
            2u32 => Some(Promotion::Elite2),
            _ => None,
        }
    }

    /// The tier a raw phase index stands for, if any.
    pub open spec fn spec_from_phase(phase: u32) -> Option<Promotion> {
        if phase == 0 {
            Some(Promotion::Base)
        } else if phase == 1 {
            Some(Promotion::Elite1)
        } else if phase == 2 {
            Some(Promotion::Elite2)
        } else {
            None
        }
    }

    /// Add a level to this tier to make a [`PromotionAndLevel`].
    pub fn with_level(self, level: u32) -> (r: PromotionAndLevel)
        ensures
            r == (PromotionAndLevel { promotion: self, level }),
    {
        PromotionAndLevel { promotion: self, level }
    }
}

/// A promotion tier together with a numeric level inside that tier.
///
/// Pairs are ordered tier first, then level; every "is this unlocked at
/// state `x`" predicate in the model compares with this order.
#[derive(Debug, Clone, Copy, PartialEq, Eq, Structural, Hash)]
pub struct PromotionAndLevel {
    pub promotion: Promotion,
    pub level: u32,
}

impl PromotionAndLevel {
    /// The lexicographic order on `(tier, level)`.
    pub open spec fn spec_le(self, other: PromotionAndLevel) -> bool {
        self.promotion.rank() < other.promotion.rank() || (self.promotion.rank()
            == other.promotion.rank() && self.level <= other.level)
    }

    /// Compares two pairs, tier first, then level.
    pub fn le(&self, other: &PromotionAndLevel) -> (r: bool)
        ensures
            r == self.spec_le(*other),
    {
        let a = rank_of(self.promotion);
        let b = rank_of(other.promotion);
        if a < b {
            true
        } else if a == b {
            self.level <= other.level
        } else {
            false
        }
    }
}

/// The executable counterpart of [`Promotion::rank`].
fn rank_of(p: Promotion) -> (r: u8)
    ensures
        r as int == p.rank(),
{
    match p {
        Promotion::Base => 0,
        Promotion::Elite1 => 1,
        Promotion::Elite2 => 2,
    }
}

impl PartialOrd for PromotionAndLevel {
    fn partial_cmp(&self, other: &PromotionAndLevel) -> (r: Option<core::cmp::Ordering>) {
        let a = rank_of(self.promotion);
        let b = rank_of(other.promotion);
        if a < b {
            Some(core::cmp::Ordering::Less)
        } else if a > b {
            Some(core::cmp::Ordering::Greater)
        } else if self.level < other.level {
            Some(core::cmp::Ordering::Less)
        } else if self.level > other.level {
            Some(core::cmp::Ordering::Greater)
        } else {
            Some(core::cmp::Ordering::Equal)
        }
    }
}

impl vstd::std_specs::cmp::PartialOrdSpecImpl for PromotionAndLevel {
    open spec fn obeys_partial_cmp_spec() -> bool {
        true
    }

    open spec fn partial_cmp_spec(&self, other: &PromotionAndLevel) -> Option<core::cmp::Ordering> {
        if self.promotion.rank() < other.promotion.rank() {
            Some(core::cmp::Ordering::Less)
        } else if self.promotion.rank() > other.promotion.rank() {
            Some(core::cmp::Ordering::Greater)
        } else if self.level < other.level {
            Some(core::cmp::Ordering::Less)
        } else if self.level > other.level {
            Some(core::cmp::Ordering::Greater)
        } else {
            Some(core::cmp::Ordering::Equal)
        }
    }
}

/// The order on `(tier, level)` pairs is exactly the lexicographic order by
/// tier rank first and level second: `a` compares below `b` if and only if
/// `a`'s tier ranks lower, or the tiers agree and `a`'s level is lower.
pub proof fn lemma_ordering_is_lexicographic(a: PromotionAndLevel, b: PromotionAndLevel)
    ensures
        (a.partial_cmp_spec(&b) == Some(core::cmp::Ordering::Less)) <==> (a.promotion.rank()
            < b.promotion.rank() || (a.promotion.rank() == b.promotion.rank() && a.level < b.level)),
        (a.partial_cmp_spec(&b) == Some(core::cmp::Ordering::Equal)) <==> a == b,
        a.spec_le(b) <==> (a.partial_cmp_spec(&b) != Some(core::cmp::Ordering::Greater)),
{
}

} // verus!
