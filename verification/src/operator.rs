//! The resolved operator: identity, promotion ladder, skills, talents,
//! modules, base skills, outfits, trust bonus and archive file.

use vstd::prelude::*;
use crate::attributes::{
    OperatorPromotion, OperatorPromotionAttributes, OperatorPromotions, OperatorTrustAttributes,
};
use crate::base_skills::OperatorBaseSkill;
use crate::dict::Dict;
use crate::files::OperatorFile;
use crate::items::Item;
use crate::modules::OperatorModule;
use crate::profession::{Position, Profession, SubProfession};
use crate::promotion::PromotionAndLevel;
use crate::skills::OperatorSkill;
use crate::skins::OperatorSkin;
use crate::talents::OperatorTalent;

verus! {

/// A resolved operator.
#[derive(Debug)]
pub struct Operator {
    /// This operator's internal ID.
    pub id: String,
    /// This operator's name, region dependent.
    pub name: String,
    /// The nation this operator belongs to, if any.
    pub nation_id: Option<String>,
    /// The group this operator belongs to, if any.
    pub group_id: Option<String>,
    /// The team this operator belongs to, if any.
    pub team_id: Option<String>,
    /// The short code shown in the archive screen.
    pub display_number: String,
    /// An alternate-script name, where the region supplies one.
    pub appellation: Option<String>,
    /// Whether this operator is primarily melee or ranged.
    pub position: Position,
    /// The recruitment tags of this operator, region dependent.
    pub recruitment_tags: Vec<String>,
    /// The star count, from 1 to 6.
    pub rarity: u8,
    /// The primary profession.
    pub profession: Profession,
    /// The secondary sub-profession.
    pub sub_profession: SubProfession,
    /// The promotion ladder.
    pub promotions: OperatorPromotions,
    /// The item that upgrades this operator's potential, if any.
    pub potential_item_id: Option<String>,
    /// The potential upgrades, usually five.
    pub potential: Vec<crate::talents::OperatorPotential>,
    /// The skills with their upgrade levels.
    pub skills: Vec<OperatorSkill>,
    /// The talents with their unlockable phases.
    pub talents: Vec<OperatorTalent>,
    /// The non-default modules.
    pub modules: Vec<OperatorModule>,
    /// The outfits, keyed by skin ID.
    pub skins: Dict<OperatorSkin>,
    /// The base skills usable in the base.
    pub base_skills: Vec<OperatorBaseSkill>,
    /// The attribute bonus gained from trust.
    pub trust_bonus: OperatorTrustAttributes,
    /// The archive file.
    pub file: OperatorFile,
}

/// The tiers of a ladder whose outfit reference resolves, with the outfit
/// each resolves to, in ladder order.
pub open spec fn resolved_default_skins(
    tiers: Seq<OperatorPromotion>,
    skins: Map<Seq<char>, OperatorSkin>,
) -> Seq<OperatorSkin>
    decreases tiers.len(),
{
    if tiers.len() == 0 {
        Seq::empty()
    } else {
        let head = resolved_default_skins(tiers.drop_last(), skins);
        match tiers.last().skin_id {
            Some(id) => if skins.contains_key(id@) {
                head.push(skins[id@])
            } else {
                head
            },
            None => head,
        }
    }
}

/// The tag IDs a list of tag names resolves to, skipping unknown names, in
/// order.
pub open spec fn resolved_tag_ids(tags: Seq<String>, table: Map<Seq<char>, u32>) -> Seq<u32>
    decreases tags.len(),
{
    if tags.len() == 0 {
        Seq::empty()
    } else {
        let head = resolved_tag_ids(tags.drop_last(), table);
        if table.contains_key(tags.last()@) {
            head.push(table[tags.last()@])
        } else {
            head
        }
    }
}

impl Operator {
    /// Adding the full trust bonus on top of any tier's keyframes stays
    /// within the machine range.
    pub open spec fn attributes_headroom(self) -> bool {
        forall|p: OperatorPromotion|
            self.promotions.present_seq().contains(p) ==> p.min_attributes.max_hp
                + self.trust_bonus.max_hp <= u32::MAX && p.max_attributes.max_hp
                + self.trust_bonus.max_hp <= u32::MAX && p.min_attributes.atk
                + self.trust_bonus.atk <= u32::MAX && p.max_attributes.atk + self.trust_bonus.atk
                <= u32::MAX && p.min_attributes.def + self.trust_bonus.def <= u32::MAX
                && p.max_attributes.def + self.trust_bonus.def <= u32::MAX
    }

    /// The attributes at a promotion, level and trust state: the tier
    /// attributes with the trust bonus added to health, attack and defense;
    /// nothing when the tier is absent.
    pub open spec fn spec_attributes(
        self,
        promotion_and_level: PromotionAndLevel,
        trust: u32,
    ) -> Option<OperatorPromotionAttributes> {
        match self.promotions.spec_attributes(promotion_and_level) {
            Some(a) => {
                let b = self.trust_bonus.spec_trust_level_attributes(trust);
                Some(
                    OperatorPromotionAttributes {
                        max_hp: (a.max_hp + b.max_hp) as u32,
                        atk: (a.atk + b.atk) as u32,
                        def: (a.def + b.def) as u32,
                        ..a
                    },
                )
            },
            None => None,
        }
    }

    /// Calculates the stats of this operator at the given promotion, level
    /// and trust value. Stat boosts from talents are not accounted for.
    pub fn get_attributes(&self, promotion_and_level: PromotionAndLevel, trust: u32) -> (r:
        Option<OperatorPromotionAttributes>)
        requires
            self.attributes_headroom(),
        ensures
            r == self.spec_attributes(promotion_and_level, trust),
    {
        match self.promotions.get(promotion_and_level.promotion) {
            Some(p) => {
                let a = p.get_level_attributes(promotion_and_level.level);
                let b = self.trust_bonus.get_trust_level_attributes(trust);
                proof {
                    assert(self.promotions.present_seq().contains(*p)) by {
                        match promotion_and_level.promotion {
                            crate::promotion::Promotion::Base => {
                                assert(self.promotions.present_seq()[0] == *p);
                            },
                            crate::promotion::Promotion::Elite1 => {
                                assert(self.promotions.present_seq()[1] == *p);
                            },
                            crate::promotion::Promotion::Elite2 => {
                                assert(self.promotions.present_seq()[self.promotions.present_seq().len()
                                    - 1] == *p);
                            },
                        }
                    }
                    p.lemma_level_attribute_bounds(promotion_and_level.level);
                    self.trust_bonus.lemma_trust_bonus_bounds(trust);
                }
                Some(a.with_trust_bonus(b))
            },
            None => None,
        }
    }

    /// Looks up the item that upgrades this operator's potential.
    pub fn get_potential_item<'a>(&self, items: &'a Dict<Item>) -> (r: Option<&'a Item>)
        requires
            items.wf(),
        ensures
            match r {
                Some(item) => self.potential_item_id matches Some(id) && items@.contains_key(id@)
                    && *item == items@[id@],
                None => match self.potential_item_id {
                    Some(id) => !items@.contains_key(id@),
                    None => true,
                },
            },
    {
        match &self.potential_item_id {
            Some(id) => items.get(id.as_str()),
            None => None,
        }
    }

    /// The outfits unlocked by promotion tiers, in ladder order: each
    /// present tier's outfit reference resolved against this operator's
    /// outfit table.
    pub fn iter_default_skins(&self) -> (r: Vec<&OperatorSkin>)
        requires
            self.skins.wf(),
        ensures
            r@.len() == resolved_default_skins(self.promotions.present_seq(), self.skins@).len(),
            forall|k: int|
                0 <= k < r@.len() ==> *(#[trigger] r@[k]) == resolved_default_skins(
                    self.promotions.present_seq(),
                    self.skins@,
                )[k],
    {
        let mut out: Vec<&OperatorSkin> = Vec::new();
        let ghost tiers = self.promotions.present_seq();
        let ghost done: Seq<OperatorPromotion> = Seq::empty();
        proof {
            assert(resolved_default_skins(done, self.skins@) =~= Seq::<OperatorSkin>::empty());
        }
        push_tier_skin(&self.promotions.base, &self.skins, &mut out, Ghost(done));
        let ghost done = done.push(self.promotions.base);
        proof {
            assert(done =~= tiers.take(1));
        }
        match &self.promotions.elite1 {
            Some(p) => {
                push_tier_skin(p, &self.skins, &mut out, Ghost(done));
            },
            None => {},
        }
        let ghost done = pushed_tier(done, self.promotions.elite1);
        match &self.promotions.elite2 {
            Some(p) => {
                push_tier_skin(p, &self.skins, &mut out, Ghost(done));
            },
            None => {},
        }
        let ghost done = pushed_tier(done, self.promotions.elite2);
        proof {
            assert(done =~= tiers);
        }
        out
    }

    /// The tag IDs of this operator's recruitment tags, resolved against
    /// the global tag table; unknown tag names are skipped.
    pub fn iter_recruitment_tags(&self, recruitment_tags: &Dict<u32>) -> (r: Vec<u32>)
        requires
            recruitment_tags.wf(),
        ensures
            r@ == resolved_tag_ids(self.recruitment_tags@, recruitment_tags@),
    {
        let n = self.recruitment_tags.len();
        let mut out: Vec<u32> = Vec::new();
        let mut i: usize = 0;
        proof {
            assert(self.recruitment_tags@.take(0) =~= Seq::<String>::empty());
        }
        while i < n
            invariant
                i <= n,
                n == self.recruitment_tags@.len(),
                recruitment_tags.wf(),
                out@ == resolved_tag_ids(self.recruitment_tags@.take(i as int), recruitment_tags@),
            decreases n - i,
        {
            proof {
                assert(self.recruitment_tags@.take(i + 1).drop_last() =~= self.recruitment_tags@.take(
                    i as int,
                ));
                assert(self.recruitment_tags@.take(i + 1).last() == self.recruitment_tags@[i as int]);
            }
            match recruitment_tags.get(self.recruitment_tags[i].as_str()) {
                Some(id) => {
                    out.push(*id);
                },
                None => {},
            }
            i = i + 1;
        }
        proof {
            assert(self.recruitment_tags@.take(n as int) =~= self.recruitment_tags@);
        }
        out
    }
}

/// A tier list extended by a tier, where one is present.
pub open spec fn pushed_tier(
    done: Seq<OperatorPromotion>,
    tier: Option<OperatorPromotion>,
) -> Seq<OperatorPromotion> {
    match tier {
        Some(p) => done.push(p),
        None => done,
    }
}

/// Pushes the outfit one more tier resolves to, if its reference resolves.
fn push_tier_skin<'a>(
    tier: &OperatorPromotion,
    skins: &'a Dict<OperatorSkin>,
    out: &mut Vec<&'a OperatorSkin>,
    done: Ghost<Seq<OperatorPromotion>>,
)
    requires
        skins.wf(),
        old(out)@.len() == resolved_default_skins(done@, skins@).len(),
        forall|k: int|
            0 <= k < old(out)@.len() ==> *(#[trigger] old(out)@[k]) == resolved_default_skins(
                done@,
                skins@,
            )[k],
    ensures
        final(out)@.len() == resolved_default_skins(done@.push(*tier), skins@).len(),
        forall|k: int|
            0 <= k < final(out)@.len() ==> *(#[trigger] final(out)@[k]) == resolved_default_skins(
                done@.push(*tier),
                skins@,
            )[k],
{
    proof {
        assert(done@.push(*tier).drop_last() =~= done@);
        assert(done@.push(*tier).last() == *tier);
    }
    match &tier.skin_id {
        Some(id) => {
            match skins.get(id.as_str()) {
                Some(skin) => {
                    out.push(skin);
                },
                None => {},
            }
        },
        None => {},
    }
}

} // verus!
