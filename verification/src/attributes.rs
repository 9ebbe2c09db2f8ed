//! Operator attributes and the interpolation engine.
//!
//! A promotion tier carries two attribute keyframes, one at its first level
//! and one at its last. Health, attack and defense vary with the level and
//! are linearly interpolated between the keyframes, rounding to the nearest
//! whole with halves away from zero; every other field is copied from the
//! first keyframe, since the source data does not vary it within a tier.
//! Trust contributes a separate bonus curve that starts at zero and reaches
//! the stored bonus keyframe at trust 200.

use vstd::prelude::*;
use crate::fixed::{round_div, FixedValue};
use crate::items::ItemsCost;
use crate::promotion::{Promotion, PromotionAndLevel};

verus! {

/// Operator attributes at one promotion tier and level.
#[derive(Debug, Clone, Copy, PartialEq, Eq, Structural, Hash)]
pub struct OperatorPromotionAttributes {
    pub level: u32,
    pub max_hp: u32,
    pub atk: u32,
    pub def: u32,
    pub magic_resistance: FixedValue,
    pub deployment_cost: u32,
    pub block_count: u8,
    pub move_speed: FixedValue,
    pub attack_speed: FixedValue,
    pub base_attack_time: FixedValue,
    pub redeploy_time: u32,
    pub hp_recovery_per_sec: FixedValue,
    pub sp_recovery_per_sec: FixedValue,
    pub max_deploy_count: u32,
    pub max_deck_stack_count: u32,
    pub taunt_level: i8,
    pub is_stun_immune: bool,
    pub is_silence_immune: bool,
    pub is_sleep_immune: bool,
    pub is_frozen_immune: bool,
}

/// The attribute bonus granted by trust: extra health, attack and defense.
#[derive(Debug, Clone, Copy, PartialEq, Eq, Structural, Hash)]
pub struct OperatorTrustAttributes {
    pub max_hp: u32,
    pub atk: u32,
    pub def: u32,
}

/// `a` moved a fraction `num / den` of the way towards `b`, rounded to the
/// nearest whole with halves away from zero. A degenerate fraction leaves
/// `a` in place.
pub open spec fn lerp(a: u32, b: u32, num: int, den: int) -> int {
    if den <= 0 || num <= 0 {
        a as int
    } else if num >= den {
        b as int
    } else {
        round_div(a * (den - num) + b * num, den)
    }
}

/// Computes [`lerp`] exactly.
pub fn lerp_u32(a: u32, b: u32, num: u32, den: u32) -> (r: u32)
    ensures
        r as int == lerp(a, b, num as int, den as int),
{
    if den == 0 || num == 0 {
        a
    } else if num >= den {
        b
    } else {
        proof {
            assert((a as int) * ((den - num) as int) <= 0xffffffff * 0xffffffff)
                by (nonlinear_arith)
                requires
                    a <= 0xffffffff,
                    0 <= den - num <= 0xffffffff,
            ;
            assert((b as int) * (num as int) <= 0xffffffff * 0xffffffff) by (nonlinear_arith)
                requires
                    b <= 0xffffffff,
                    0 <= num <= 0xffffffff,
            ;
        }
        let n: u128 = (a as u128) * ((den - num) as u128) + (b as u128) * (num as u128);
        let q: u128 = (2 * n + den as u128) / (2 * den as u128);
        proof {
            lemma_lerp_bounds(a, b, num as int, den as int);
            assert(n == a * (den - num) + b * num) by (nonlinear_arith)
                requires
                    n == (a as u128) * ((den - num) as u128) + (b as u128) * (num as u128),
                    0 < num < den,
            ;
            assert(q == round_div(n as int, den as int));
        }
        q as u32
    }
}

/// The interpolated value never leaves the band between the two keyframes.
pub proof fn lemma_lerp_bounds(a: u32, b: u32, num: int, den: int)
    ensures
        a <= b ==> a <= lerp(a, b, num, den) <= b,
        b <= a ==> b <= lerp(a, b, num, den) <= a,
{
    if 0 < num < den {
        let lo: int = if a <= b {
            a as int
        } else {
            b as int
        };
        let hi: int = if a <= b {
            b as int
        } else {
            a as int
        };
        let n = a * (den - num) + b * num;
        let q = (2 * n + den) / (2 * den);
        assert(lo * den <= n <= hi * den) by (nonlinear_arith)
            requires
                0 < num < den,
                lo <= a <= hi,
                lo <= b <= hi,
                n == a * (den - num) + b * num,
        ;
        assert(lo * (2 * den) <= 2 * n + den < (hi + 1) * (2 * den)) by (nonlinear_arith)
            requires
                lo * den <= n <= hi * den,
                0 < den,
        ;
        assert(lo <= q <= hi) by (nonlinear_arith)
            requires
                q == (2 * n + den) / (2 * den),
                lo * (2 * den) <= 2 * n + den < (hi + 1) * (2 * den),
                0 < den,
        ;
    }
}

/// Raising the fraction never lowers the interpolated value when the curve
/// rises from `a` to `b`.
pub proof fn lemma_lerp_monotone(a: u32, b: u32, num1: int, num2: int, den: int)
    requires
        a <= b,
        0 <= num1 <= num2 <= den,
    ensures
        lerp(a, b, num1, den) <= lerp(a, b, num2, den),
{
    lemma_lerp_bounds(a, b, num1, den);
    lemma_lerp_bounds(a, b, num2, den);
    if 0 < num1 && num2 < den {
        let n1 = a * (den - num1) + b * num1;
        let n2 = a * (den - num2) + b * num2;
        assert(n1 <= n2) by (nonlinear_arith)
            requires
                a <= b,
                0 <= num1 <= num2 <= den,
                n1 == a * (den - num1) + b * num1,
                n2 == a * (den - num2) + b * num2,
        ;
        assert((2 * n1 + den) / (2 * den) <= (2 * n2 + den) / (2 * den)) by (nonlinear_arith)
            requires
                n1 <= n2,
                0 < den,
        ;
    }
}

impl OperatorPromotionAttributes {
    /// The attributes with the trust bonus added on top of health, attack
    /// and defense.
    pub fn with_trust_bonus(self, bonus: OperatorTrustAttributes) -> (r:
        OperatorPromotionAttributes)
        requires
            self.max_hp + bonus.max_hp <= u32::MAX,
            self.atk + bonus.atk <= u32::MAX,
            self.def + bonus.def <= u32::MAX,
        ensures
            r == (OperatorPromotionAttributes {
                max_hp: (self.max_hp + bonus.max_hp) as u32,
                atk: (self.atk + bonus.atk) as u32,
                def: (self.def + bonus.def) as u32,
                ..self
            }),
    {
        OperatorPromotionAttributes {
            max_hp: self.max_hp + bonus.max_hp,
            atk: self.atk + bonus.atk,
            def: self.def + bonus.def,
            ..self
        }
    }
}

impl OperatorTrustAttributes {
    /// The bonus curve at a trust value: the fraction `min(trust, 200) / 200`
    /// of the stored bonus, each field rounded to the nearest whole.
    pub open spec fn spec_trust_level_attributes(self, trust: u32) -> OperatorTrustAttributes {
        let t: int = if trust > 200 {
            200
        } else {
            trust as int
        };
        OperatorTrustAttributes {
            max_hp: lerp(0, self.max_hp, t, 200) as u32,
            atk: lerp(0, self.atk, t, 200) as u32,
            def: lerp(0, self.def, t, 200) as u32,
        }
    }

    /// Calculates the bonus attributes granted at a trust value.
    pub fn get_trust_level_attributes(&self, trust: u32) -> (r: OperatorTrustAttributes)
        ensures
            r == self.spec_trust_level_attributes(trust),
    {
        let t: u32 = if trust > 200 {
            200
        } else {
            trust
        };
        proof {
            lemma_lerp_bounds(0, self.max_hp, t as int, 200);
            lemma_lerp_bounds(0, self.atk, t as int, 200);
            lemma_lerp_bounds(0, self.def, t as int, 200);
        }
        OperatorTrustAttributes {
            max_hp: lerp_u32(0, self.max_hp, t, 200),
            atk: lerp_u32(0, self.atk, t, 200),
            def: lerp_u32(0, self.def, t, 200),
        }
    }

    /// At zero trust the bonus is zero everywhere.
    pub proof fn lemma_trust_zero(self)
        ensures
            self.spec_trust_level_attributes(0) == (OperatorTrustAttributes {
                max_hp: 0,
                atk: 0,
                def: 0,
            }),
    {
    }

    /// From trust 200 on, the bonus is the full stored curve.
    pub proof fn lemma_trust_full(self, trust: u32)
        requires
            trust >= 200,
        ensures
            self.spec_trust_level_attributes(trust) == self,
    {
    }

    /// The bonus never decreases as trust grows.
    pub proof fn lemma_trust_monotone(self, trust1: u32, trust2: u32)
        requires
            trust1 <= trust2,
        ensures
            self.spec_trust_level_attributes(trust1).max_hp <= self.spec_trust_level_attributes(
                trust2,
            ).max_hp,
            self.spec_trust_level_attributes(trust1).atk <= self.spec_trust_level_attributes(
                trust2,
            ).atk,
            self.spec_trust_level_attributes(trust1).def <= self.spec_trust_level_attributes(
                trust2,
            ).def,
    {
        let t1: int = if trust1 > 200 {
            200
        } else {
            trust1 as int
        };
        let t2: int = if trust2 > 200 {
            200
        } else {
            trust2 as int
        };
        lemma_lerp_monotone(0, self.max_hp, t1, t2, 200);
        lemma_lerp_monotone(0, self.atk, t1, t2, 200);
        lemma_lerp_monotone(0, self.def, t1, t2, 200);
        lemma_lerp_bounds(0, self.max_hp, t1, 200);
        lemma_lerp_bounds(0, self.max_hp, t2, 200);
        lemma_lerp_bounds(0, self.atk, t1, 200);
        lemma_lerp_bounds(0, self.atk, t2, 200);
        lemma_lerp_bounds(0, self.def, t1, 200);
        lemma_lerp_bounds(0, self.def, t2, 200);
    }
}

impl Default for OperatorTrustAttributes {
    /// The zero bonus curve, used when the source supplies no trust
    /// keyframes.
    fn default() -> (r: OperatorTrustAttributes)
        ensures
            r == (OperatorTrustAttributes { max_hp: 0, atk: 0, def: 0 }),
    {
        OperatorTrustAttributes { max_hp: 0, atk: 0, def: 0 }
    }
}

/// An unlockable promotion tier of an operator.
#[derive(Debug)]
pub struct OperatorPromotion {
    /// The ID of the attack range this tier grants, if any.
    pub attack_range_id: Option<String>,
    /// The attributes at this tier's first level.
    pub min_attributes: OperatorPromotionAttributes,
    /// The attributes at this tier's last level.
    pub max_attributes: OperatorPromotionAttributes,
    /// The highest level reachable at this tier.
    pub max_level: u32,
    /// The items that obtaining this tier costs.
    pub upgrade_cost: ItemsCost,
    /// The outfit unlocked together with this tier, if any.
    pub skin_id: Option<String>,
}

impl OperatorPromotion {
    /// The attributes of a level within this tier: the level is clamped to
    /// the keyframe band, health, attack and defense are interpolated, and
    /// every other field comes from the first keyframe.
    pub open spec fn spec_level_attributes(self, level: u32) -> OperatorPromotionAttributes {
        let minl = self.min_attributes.level as int;
        let maxl = self.max_attributes.level as int;
        let num = if level as int <= minl {
            0
        } else if level as int >= maxl {
            maxl - minl
        } else {
            level as int - minl
        };
        let den = maxl - minl;
        OperatorPromotionAttributes {
            level,
            max_hp: lerp(self.min_attributes.max_hp, self.max_attributes.max_hp, num, den) as u32,
            atk: lerp(self.min_attributes.atk, self.max_attributes.atk, num, den) as u32,
            def: lerp(self.min_attributes.def, self.max_attributes.def, num, den) as u32,
            ..self.min_attributes
        }
    }

    /// Calculates the attributes of a specific level within this tier.
    pub fn get_level_attributes(&self, level: u32) -> (r: OperatorPromotionAttributes)
        ensures
            r == self.spec_level_attributes(level),
    {
        let minl = self.min_attributes.level;
        let maxl = self.max_attributes.level;
        let num: u32 = if level <= minl {
            0
        } else if level >= maxl {
            if maxl >= minl {
                maxl - minl
            } else {
                0
            }
        } else {
            level - minl
        };
        let den: u32 = if maxl >= minl {
            maxl - minl
        } else {
            0
        };
        proof {
            lemma_lerp_bounds(
                self.min_attributes.max_hp,
                self.max_attributes.max_hp,
                num as int,
                den as int,
            );
            lemma_lerp_bounds(self.min_attributes.atk, self.max_attributes.atk, num as int, den as int);
            lemma_lerp_bounds(self.min_attributes.def, self.max_attributes.def, num as int, den as int);
        }
        OperatorPromotionAttributes {
            level,
            max_hp: lerp_u32(self.min_attributes.max_hp, self.max_attributes.max_hp, num, den),
            atk: lerp_u32(self.min_attributes.atk, self.max_attributes.atk, num, den),
            def: lerp_u32(self.min_attributes.def, self.max_attributes.def, num, den),
            ..self.min_attributes
        }
    }

    /// At the keyframe levels the computed attributes are the keyframes
    /// themselves: the first level gives the first keyframe's health, attack
    /// and defense, the last level the last keyframe's.
    pub proof fn lemma_keyframe_levels(self)
        requires
            self.min_attributes.level < self.max_attributes.level,
        ensures
            self.spec_level_attributes(self.min_attributes.level).max_hp
                == self.min_attributes.max_hp,
            self.spec_level_attributes(self.min_attributes.level).atk == self.min_attributes.atk,
            self.spec_level_attributes(self.min_attributes.level).def == self.min_attributes.def,
            self.spec_level_attributes(self.max_attributes.level).max_hp
                == self.max_attributes.max_hp,
            self.spec_level_attributes(self.max_attributes.level).atk == self.max_attributes.atk,
            self.spec_level_attributes(self.max_attributes.level).def == self.max_attributes.def,
    {
    }
}

impl OperatorPromotion {
    /// Health, attack and defense computed at any level stay within the
    /// band the two keyframes span.
    pub proof fn lemma_level_attribute_bounds(self, level: u32)
        ensures
            self.spec_level_attributes(level).max_hp <= self.min_attributes.max_hp
                || self.spec_level_attributes(level).max_hp <= self.max_attributes.max_hp,
            self.spec_level_attributes(level).atk <= self.min_attributes.atk
                || self.spec_level_attributes(level).atk <= self.max_attributes.atk,
            self.spec_level_attributes(level).def <= self.min_attributes.def
                || self.spec_level_attributes(level).def <= self.max_attributes.def,
    {
        let minl = self.min_attributes.level as int;
        let maxl = self.max_attributes.level as int;
        let num = if level as int <= minl {
            0
        } else if level as int >= maxl {
            maxl - minl
        } else {
            level as int - minl
        };
        let den = maxl - minl;
        lemma_lerp_bounds(self.min_attributes.max_hp, self.max_attributes.max_hp, num, den);
        lemma_lerp_bounds(self.min_attributes.atk, self.max_attributes.atk, num, den);
        lemma_lerp_bounds(self.min_attributes.def, self.max_attributes.def, num, den);
    }
}

impl OperatorTrustAttributes {
    /// The bonus at any trust value never exceeds the stored bonus curve.
    pub proof fn lemma_trust_bonus_bounds(self, trust: u32)
        ensures
            self.spec_trust_level_attributes(trust).max_hp <= self.max_hp,
            self.spec_trust_level_attributes(trust).atk <= self.atk,
            self.spec_trust_level_attributes(trust).def <= self.def,
    {
        let t: int = if trust > 200 {
            200
        } else {
            trust as int
        };
        lemma_lerp_bounds(0, self.max_hp, t, 200);
        lemma_lerp_bounds(0, self.atk, t, 200);
        lemma_lerp_bounds(0, self.def, t, 200);
    }
}

/// An operator's promotion ladder: the mandatory base tier and up to two
/// elite tiers, resolved in order.
#[derive(Debug)]
pub struct OperatorPromotions {
    /// The base tier.
    pub base: OperatorPromotion,
    /// The first elite tier.
    pub elite1: Option<OperatorPromotion>,
    /// The second elite tier.
    pub elite2: Option<OperatorPromotion>,
}

impl OperatorPromotions {
    /// The tier record a [`Promotion`] names, if that tier is present.
    pub open spec fn spec_get(self, promotion: Promotion) -> Option<OperatorPromotion> {
        match promotion {
            Promotion::Base => Some(self.base),
            Promotion::Elite1 => self.elite1,
            Promotion::Elite2 => self.elite2,
        }
    }

    /// Borrows the tier record a [`Promotion`] names, if present.
    pub fn get(&self, promotion: Promotion) -> (r: Option<&OperatorPromotion>)
        ensures
            match r {
                Some(p) => self.spec_get(promotion) == Some(*p),
                None => self.spec_get(promotion) is None,
            },
    {
        match promotion {
            Promotion::Base => Some(&self.base),
            Promotion::Elite1 => self.elite1.as_ref(),
            Promotion::Elite2 => self.elite2.as_ref(),
        }
    }

    /// The attributes at a promotion and level, when the tier is present.
    pub open spec fn spec_attributes(self, promotion_and_level: PromotionAndLevel) -> Option<
        OperatorPromotionAttributes,
    > {
        match self.spec_get(promotion_and_level.promotion) {
            Some(p) => Some(p.spec_level_attributes(promotion_and_level.level)),
            None => None,
        }
    }

    /// Calculates the attributes at a promotion and level; `None` when the
    /// named tier has not been resolved for this operator.
    pub fn get_attributes(&self, promotion_and_level: PromotionAndLevel) -> (r: Option<
        OperatorPromotionAttributes,
    >)
        ensures
            r == self.spec_attributes(promotion_and_level),
    {
        match self.get(promotion_and_level.promotion) {
            Some(p) => Some(p.get_level_attributes(promotion_and_level.level)),
            None => None,
        }
    }

    /// The tiers that are present, in ladder order.
    pub open spec fn present_seq(self) -> Seq<OperatorPromotion> {
        let head = seq![self.base];
        let mid = match self.elite1 {
            Some(p) => head.push(p),
            None => head,
        };
        match self.elite2 {
            Some(p) => mid.push(p),
            None => mid,
        }
    }

    /// Borrows the present tiers, in ladder order.
    pub fn iter(&self) -> (r: Vec<&OperatorPromotion>)
        ensures
            r@.map_values(|p: &OperatorPromotion| *p) == self.present_seq(),
    {
        let mut out: Vec<&OperatorPromotion> = Vec::new();
        out.push(&self.base);
        match &self.elite1 {
            Some(p) => { out.push(p) },
            None => {},
        }
        match &self.elite2 {
            Some(p) => { out.push(p) },
            None => {},
        }
        proof {
            assert(out@.map_values(|p: &OperatorPromotion| *p) =~= self.present_seq());
        }
        out
    }
}

/// Crossing a tier boundary does not jump: when the next tier's first
/// keyframe repeats the previous tier's last keyframe for health, attack and
/// defense, the attributes computed at the last level of the previous tier
/// equal those computed at the first level of the next.
pub proof fn lemma_tier_continuity(prev: OperatorPromotion, next: OperatorPromotion)
    requires
        prev.min_attributes.level < prev.max_attributes.level,
        next.min_attributes.level < next.max_attributes.level,
        next.min_attributes.max_hp == prev.max_attributes.max_hp,
        next.min_attributes.atk == prev.max_attributes.atk,
        next.min_attributes.def == prev.max_attributes.def,
    ensures
        prev.spec_level_attributes(prev.max_attributes.level).max_hp == next.spec_level_attributes(
            next.min_attributes.level,
        ).max_hp,
        prev.spec_level_attributes(prev.max_attributes.level).atk == next.spec_level_attributes(
            next.min_attributes.level,
        ).atk,
        prev.spec_level_attributes(prev.max_attributes.level).def == next.spec_level_attributes(
            next.min_attributes.level,
        ).def,
{
    prev.lemma_keyframe_levels();
    next.lemma_keyframe_levels();
}

} // verus!
