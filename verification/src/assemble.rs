//! The assembler: consumes a [`RawTableSet`] and produces a
//! [`GameData`] snapshot, resolving cross-table references and draining
//! side tables as records are attached to entities.

use vstd::prelude::*;
use crate::attributes::{OperatorPromotion, OperatorPromotionAttributes, OperatorTrustAttributes};
use crate::buildings::{Building, BuildingUpgrade};
use crate::dict::Dict;
use crate::events::{Event, EventType, HeadhuntingBanner, HeadhuntingBannerType};
use crate::fixed::FixedValue;
use crate::base_skills::{OperatorBaseSkill, OperatorBaseSkillPhase};
use crate::files::{OperatorFile, OperatorFileEntry, OperatorFileUnlock};
use crate::game_data::{AlterPair, GameData};
use crate::raw::RawGachaTable;
use crate::items::{Item, ItemClass, ItemsCost};
use crate::attributes::OperatorPromotions;
use crate::modules::{OperatorModule, OperatorModuleMission};
use crate::operator::Operator;
use crate::profession::{Position, Profession, SubProfession};
use crate::promotion::{Promotion, PromotionAndLevel};
use crate::skills::{
    OperatorSkill, OperatorSkillLevel, OperatorSkillMastery, SkillActivation, SkillRecovery,
};
use crate::template::{StrictnessMode, TemplateError};
use crate::raw::{
    RawActivityEntry, RawActivityKind, RawBuff, RawBuildingData, RawCharBuff, RawCharBuffPhase,
    RawCharacter, RawCondition, RawEquip, RawEquipMission, RawEquipTable, RawGachaPool,
    RawGachaRuleType, RawHandbookEntry, RawItem, RawItemClassify, RawItemCost,
    RawKeyFrame, RawMasteryUpgrade, RawPosition, RawProfession, RawRangeEntry, RawRecruitTag,
    RawRoom, RawRoomPhase, RawSkillEntry, RawSkillLevel, RawSkillRef, RawStoryEntry,
    RawSubProfession, RawTableSet, RawBlackboardEntry, RawSpData, RawEvolutions, RawSkin,
    RawSkinTable, RawPhase, RawPotentialRank, RawTalent, RawTalentCandidate,
};
use crate::ranges::{AttackRange, GridPoint};
use crate::talents::{OperatorPotential, OperatorTalent, OperatorTalentPhase};
use crate::skins::{OperatorSkin, OperatorSkinGroup};

verus! {

/// The promotion-and-level pair a raw condition stands for, when its phase
/// index is known.
pub open spec fn condition_of(c: RawCondition) -> Option<PromotionAndLevel> {
    match Promotion::spec_from_phase(c.phase) {
        Some(p) => Some(PromotionAndLevel { promotion: p, level: c.level }),
        None => None,
    }
}

/// Converts a raw condition; an unknown phase index is rejected.
pub fn convert_condition(c: &RawCondition) -> (r: Option<PromotionAndLevel>)
    ensures
        r == condition_of(*c),
{
    match Promotion::from_phase(c.phase) {
        Some(p) => Some(p.with_level(c.level)),
        None => None,
    }
}

/// The cost mapping a raw cost list builds: item IDs to counts, later
/// entries overriding earlier ones.
pub open spec fn items_cost_map(s: Seq<RawItemCost>) -> Map<Seq<char>, u32>
    decreases s.len(),
{
    if s.len() == 0 {
        Map::empty()
    } else {
        items_cost_map(s.drop_last()).insert(s.last().item_id@, s.last().count)
    }
}

/// Builds the cost mapping of a raw cost list.
pub fn convert_item_costs(list: Vec<RawItemCost>) -> (r: ItemsCost)
    ensures
        r.wf(),
        r@ == items_cost_map(list@),
{
    let mut out: ItemsCost = Dict::new();
    let n = list.len();
    let mut i: usize = 0;
    proof {
        assert(list@.take(0) =~= Seq::<RawItemCost>::empty());
        assert(out@ =~= items_cost_map(list@.take(0)));
    }
    while i < n
        invariant
            i <= n,
            n == list@.len(),
            out.wf(),
            out@ == items_cost_map(list@.take(i as int)),
        decreases n - i,
    {
        proof {
            assert(list@.take(i + 1).drop_last() =~= list@.take(i as int));
            assert(list@.take(i + 1).last() == list@[i as int]);
        }
        let key = list[i].item_id.clone();
        let count = list[i].count;
        out.insert(key, count);
        i = i + 1;
    }
    proof {
        assert(list@.take(n as int) =~= list@);
    }
    out
}

/// The stance a raw stance tag maps to, if any.
pub open spec fn position_of(p: RawPosition) -> Option<Position> {
    match p {
        RawPosition::Melee => Some(Position::Melee),
        RawPosition::Ranged => Some(Position::Ranged),
        RawPosition::All => None,
        RawPosition::NoPosition => None,
    }
}

/// Converts a raw stance tag; an unmapped tag is rejected.
pub fn convert_position(p: RawPosition) -> (r: Option<Position>)
    ensures
        r == position_of(p),
{
    match p {
        RawPosition::Melee => Some(Position::Melee),
        RawPosition::Ranged => Some(Position::Ranged),
        RawPosition::All => None,
        RawPosition::NoPosition => None,
    }
}

/// The profession a raw profession tag maps to, if any.
pub open spec fn profession_of(p: RawProfession) -> Option<Profession> {
    match p {
        RawProfession::Caster => Some(Profession::Caster),
        RawProfession::Medic => Some(Profession::Medic),
        RawProfession::Vanguard => Some(Profession::Vanguard),
        RawProfession::Sniper => Some(Profession::Sniper),
        RawProfession::Specialist => Some(Profession::Specialist),
        RawProfession::Support => Some(Profession::Support),
        RawProfession::Tank => Some(Profession::Tank),
        RawProfession::Guard => Some(Profession::Guard),
        RawProfession::Token => None,
        RawProfession::Trap => None,
    }
}

/// Converts a raw profession tag; token and trap records are rejected.
pub fn convert_profession(p: RawProfession) -> (r: Option<Profession>)
    ensures
        r == profession_of(p),
{
    match p {
        RawProfession::Caster => Some(Profession::Caster),
        RawProfession::Medic => Some(Profession::Medic),
        RawProfession::Vanguard => Some(Profession::Vanguard),
        RawProfession::Sniper => Some(Profession::Sniper),
        RawProfession::Specialist => Some(Profession::Specialist),
        RawProfession::Support => Some(Profession::Support),
        RawProfession::Tank => Some(Profession::Tank),
        RawProfession::Guard => Some(Profession::Guard),
        RawProfession::Token => None,
        RawProfession::Trap => None,
    }
}

/// The attributes snapshot a raw keyframe stands for.
pub open spec fn attributes_of_key_frame(k: RawKeyFrame) -> OperatorPromotionAttributes {
    OperatorPromotionAttributes {
        level: k.level,
        max_hp: k.data.max_hp,
        atk: k.data.atk,
        def: k.data.def,
        magic_resistance: k.data.magic_resistance,
        deployment_cost: k.data.cost,
        block_count: k.data.block_count,
        move_speed: k.data.move_speed,
        attack_speed: k.data.attack_speed,
        base_attack_time: k.data.base_attack_time,
        redeploy_time: k.data.respawn_time,
        hp_recovery_per_sec: k.data.hp_recovery_per_sec,
        sp_recovery_per_sec: k.data.sp_recovery_per_sec,
        max_deploy_count: k.data.max_deploy_count,
        max_deck_stack_count: k.data.max_deck_stack_count,
        taunt_level: k.data.taunt_level,
        is_stun_immune: k.data.is_stun_immune,
        is_silence_immune: k.data.is_silence_immune,
        is_sleep_immune: k.data.is_sleep_immune,
        is_frozen_immune: k.data.is_frozen_immune,
    }
}

/// Converts a raw keyframe into an attributes snapshot.
pub fn convert_key_frame(k: &RawKeyFrame) -> (r: OperatorPromotionAttributes)
    ensures
        r == attributes_of_key_frame(*k),
{
    OperatorPromotionAttributes {
        level: k.level,
        max_hp: k.data.max_hp,
        atk: k.data.atk,
        def: k.data.def,
        magic_resistance: k.data.magic_resistance,
        deployment_cost: k.data.cost,
        block_count: k.data.block_count,
        move_speed: k.data.move_speed,
        attack_speed: k.data.attack_speed,
        base_attack_time: k.data.base_attack_time,
        redeploy_time: k.data.respawn_time,
        hp_recovery_per_sec: k.data.hp_recovery_per_sec,
        sp_recovery_per_sec: k.data.sp_recovery_per_sec,
        max_deploy_count: k.data.max_deploy_count,
        max_deck_stack_count: k.data.max_deck_stack_count,
        taunt_level: k.data.taunt_level,
        is_stun_immune: k.data.is_stun_immune,
        is_silence_immune: k.data.is_silence_immune,
        is_sleep_immune: k.data.is_sleep_immune,
        is_frozen_immune: k.data.is_frozen_immune,
    }
}

/// The trust bonus curve a raw keyframe stands for: its health, attack and
/// defense.
pub open spec fn trust_attributes_of_key_frame(k: RawKeyFrame) -> OperatorTrustAttributes {
    OperatorTrustAttributes { max_hp: k.data.max_hp, atk: k.data.atk, def: k.data.def }
}

/// Converts a raw keyframe into a trust bonus curve.
pub fn convert_trust_key_frame(k: &RawKeyFrame) -> (r: OperatorTrustAttributes)
    ensures
        r == trust_attributes_of_key_frame(*k),
{
    OperatorTrustAttributes { max_hp: k.data.max_hp, atk: k.data.atk, def: k.data.def }
}

/// The item class a raw classification tag maps to; every tag maps.
pub open spec fn item_class_of(c: RawItemClassify) -> ItemClass {
    match c {
        RawItemClassify::Consume => ItemClass::Consumable,
        RawItemClassify::Normal => ItemClass::BasicItem,
        RawItemClassify::Material => ItemClass::Material,
        RawItemClassify::NoClass => ItemClass::Other,
    }
}

/// Whether an item carries exactly the fields of a raw item record.
pub open spec fn item_matches(item: Item, raw: RawItem) -> bool {
    &&& item.id == raw.id
    &&& item.name == raw.name
    &&& item.description == raw.description
    &&& item.rarity == raw.rarity
    &&& item.usage == raw.usage
    &&& item.obtain == raw.obtain
    &&& item.item_class == item_class_of(raw.classify)
    &&& item.item_type == raw.item_type
}

/// Converts a raw item record.
pub fn convert_item(raw: RawItem) -> (r: Item)
    ensures
        item_matches(r, raw),
{
    let item_class = match raw.classify {
        RawItemClassify::Consume => ItemClass::Consumable,
        RawItemClassify::Normal => ItemClass::BasicItem,
        RawItemClassify::Material => ItemClass::Material,
        RawItemClassify::NoClass => ItemClass::Other,
    };
    Item {
        id: raw.id,
        name: raw.name,
        description: raw.description,
        rarity: raw.rarity,
        usage: raw.usage,
        obtain: raw.obtain,
        item_class,
        item_type: raw.item_type,
    }
}

/// Converts the item table, keeping every key and converting each record.
pub fn convert_items(raw: Dict<RawItem>) -> (r: Dict<Item>)
    requires
        raw.wf(),
    ensures
        r.wf(),
        r.entry_seq().len() == raw.entry_seq().len(),
        forall|i: int|
            0 <= i < raw.entry_seq().len() ==> (#[trigger] r.entry_seq()[i]).0
                == raw.entry_seq()[i].0 && item_matches(r.entry_seq()[i].1, raw.entry_seq()[i].1),
    {
    let ghost raw_entries = raw.entry_seq();
    proof {
        raw.lemma_entry_keys_distinct();
    }
    let mut entries = raw.into_entries();
    let mut out: Dict<Item> = Dict::new();
    let n = entries.len();
    let mut i: usize = 0;
    while i < n
        invariant
            i <= n,
            n == raw_entries.len(),
            entries@ == raw_entries.skip(i as int),
            out.wf(),
            out.entry_seq().len() == i,
            forall|j: int|
                0 <= j < i ==> (#[trigger] out.entry_seq()[j]).0 == raw_entries[j].0
                    && item_matches(out.entry_seq()[j].1, raw_entries[j].1),
            forall|p: int, q: int|
                0 <= p < q < raw_entries.len() ==> raw_entries[p].0@ != raw_entries[q].0@,
        decreases n - i,
    {
        let (key, value) = entries.remove(0);
        proof {
            assert(raw_entries.skip(i as int)[0] == raw_entries[i as int]);
            assert(entries@ =~= raw_entries.skip(i + 1));
            assert(!out.spec_contains(key@)) by {
                if out.spec_contains(key@) {
                    let j = choose|j: int|
                        0 <= j < out.entry_seq().len() && out.entry_seq()[j].0@ == key@;
                    assert(raw_entries[j].0@ == raw_entries[i as int].0@);
                }
            }
        }
        let item = convert_item(value);
        out.insert(key, item);
        i = i + 1;
    }
    proof {
        assert(forall|p: int, q: int|
            0 <= p < q < out.entry_seq().len() ==> (#[trigger] out.entry_seq()[p]).0@ != (
            #[trigger] out.entry_seq()[q]).0@);
    }
    out
}

/// Whether an attack range carries exactly the tiles of a raw range
/// record, each converted from (row, column) to (x, y).
pub open spec fn range_matches(range: AttackRange, raw: RawRangeEntry) -> bool {
    &&& range.points@.len() == raw.grids@.len()
    &&& forall|i: int|
        0 <= i < raw.grids@.len() ==> (#[trigger] range.points@[i]) == (GridPoint {
            x: raw.grids@[i].col,
            y: raw.grids@[i].row,
        })
}

/// Converts a raw range record, turning each (row, column) tile into
/// (x, y) form.
pub fn convert_range(raw: &RawRangeEntry) -> (r: AttackRange)
    ensures
        range_matches(r, *raw),
{
    let mut points: Vec<GridPoint> = Vec::new();
    let n = raw.grids.len();
    let mut i: usize = 0;
    while i < n
        invariant
            i <= n,
            n == raw.grids@.len(),
            points@.len() == i,
            forall|j: int|
                0 <= j < i ==> (#[trigger] points@[j]) == (GridPoint {
                    x: raw.grids@[j].col,
                    y: raw.grids@[j].row,
                }),
        decreases n - i,
    {
        points.push(GridPoint { x: raw.grids[i].col, y: raw.grids[i].row });
        i = i + 1;
    }
    AttackRange { points }
}

/// Converts the range table, keeping every key and converting each record.
pub fn convert_ranges(raw: Dict<RawRangeEntry>) -> (r: Dict<AttackRange>)
    requires
        raw.wf(),
    ensures
        r.wf(),
        r.entry_seq().len() == raw.entry_seq().len(),
        forall|i: int|
            0 <= i < raw.entry_seq().len() ==> (#[trigger] r.entry_seq()[i]).0
                == raw.entry_seq()[i].0 && range_matches(r.entry_seq()[i].1, raw.entry_seq()[i].1),
{
    let ghost raw_entries = raw.entry_seq();
    proof {
        raw.lemma_entry_keys_distinct();
    }
    let mut entries = raw.into_entries();
    let mut out: Dict<AttackRange> = Dict::new();
    let n = entries.len();
    let mut i: usize = 0;
    while i < n
        invariant
            i <= n,
            n == raw_entries.len(),
            entries@ == raw_entries.skip(i as int),
            out.wf(),
            out.entry_seq().len() == i,
            forall|j: int|
                0 <= j < i ==> (#[trigger] out.entry_seq()[j]).0 == raw_entries[j].0
                    && range_matches(out.entry_seq()[j].1, raw_entries[j].1),
            forall|p: int, q: int|
                0 <= p < q < raw_entries.len() ==> raw_entries[p].0@ != raw_entries[q].0@,
        decreases n - i,
    {
        let (key, value) = entries.remove(0);
        proof {
            assert(raw_entries.skip(i as int)[0] == raw_entries[i as int]);
            assert(entries@ =~= raw_entries.skip(i + 1));
            assert(!out.spec_contains(key@)) by {
                if out.spec_contains(key@) {
                    let j = choose|j: int|
                        0 <= j < out.entry_seq().len() && out.entry_seq()[j].0@ == key@;
                    assert(raw_entries[j].0@ == raw_entries[i as int].0@);
                }
            }
        }
        let range = convert_range(&value);
        out.insert(key, range);
        i = i + 1;
    }
    out
}

/// The sub-profession a raw sub-profession tag maps to, if any.
pub open spec fn sub_profession_of(p: RawSubProfession) -> Option<SubProfession> {
    match p {
        RawSubProfession::BlastCaster => Some(SubProfession::BlastCaster),
        RawSubProfession::ChainCaster => Some(SubProfession::ChainCaster),
        RawSubProfession::CoreCaster => Some(SubProfession::CoreCaster),
        RawSubProfession::MechAccordCaster => Some(SubProfession::MechAccordCaster),
        RawSubProfession::MysticCaster => Some(SubProfession::MysticCaster),
        RawSubProfession::PhalanxCaster => Some(SubProfession::PhalanxCaster),
        RawSubProfession::SplashCaster => Some(SubProfession::SplashCaster),
        RawSubProfession::Therapist => Some(SubProfession::Therapist),
        RawSubProfession::Medic => Some(SubProfession::Medic),
        RawSubProfession::MultiTargetMedic => Some(SubProfession::MultiTargetMedic),
        RawSubProfession::WanderingMedic => Some(SubProfession::WanderingMedic),
        RawSubProfession::StandardBearer => Some(SubProfession::StandardBearer),
        RawSubProfession::Charger => Some(SubProfession::Charger),
        RawSubProfession::Pioneer => Some(SubProfession::Pioneer),
        RawSubProfession::Tactician => Some(SubProfession::Tactician),
        RawSubProfession::Artilleryman => Some(SubProfession::Artilleryman),
        RawSubProfession::Flinger => Some(SubProfession::Flinger),
        RawSubProfession::Heavyshooter => Some(SubProfession::Heavyshooter),
        RawSubProfession::Marksman => Some(SubProfession::Marksman),
        RawSubProfession::Deadeye => Some(SubProfession::Deadeye),
        RawSubProfession::Spreadshooter => Some(SubProfession::Spreadshooter),
        RawSubProfession::Besieger => Some(SubProfession::Besieger),
        RawSubProfession::Dollkeeper => Some(SubProfession::Dollkeeper),
        RawSubProfession::Executor => Some(SubProfession::Executor),
        RawSubProfession::Geek => Some(SubProfession::Geek),
        RawSubProfession::Hookmaster => Some(SubProfession::Hookmaster),
        RawSubProfession::Merchant => Some(SubProfession::Merchant),
        RawSubProfession::PushStroker => Some(SubProfession::PushStroker),
        RawSubProfession::Ambusher => Some(SubProfession::Ambusher),
        RawSubProfession::Trapmaster => Some(SubProfession::Trapmaster),
        RawSubProfession::Bard => Some(SubProfession::Bard),
        RawSubProfession::Abjurer => Some(SubProfession::Abjurer),
        RawSubProfession::Artificer => Some(SubProfession::Artificer),
        RawSubProfession::DecelBinder => Some(SubProfession::DecelBinder),
        RawSubProfession::Summoner => Some(SubProfession::Summoner),
        RawSubProfession::Hexer => Some(SubProfession::Hexer),
        RawSubProfession::ArtsProtector => Some(SubProfession::ArtsProtector),
        RawSubProfession::Duelist => Some(SubProfession::Duelist),
        RawSubProfession::Fortress => Some(SubProfession::Fortress),
        RawSubProfession::Guardian => Some(SubProfession::Guardian),
        RawSubProfession::Protector => Some(SubProfession::Protector),
        RawSubProfession::Juggernaut => Some(SubProfession::Juggernaut),
        RawSubProfession::ArtsFighter => Some(SubProfession::ArtsFighter),
        RawSubProfession::Centurion => Some(SubProfession::Centurion),
        RawSubProfession::Dreadnought => Some(SubProfession::Dreadnought),
        RawSubProfession::Fighter => Some(SubProfession::Fighter),
        RawSubProfession::Instructor => Some(SubProfession::Instructor),
        RawSubProfession::Liberator => Some(SubProfession::Liberator),
        RawSubProfession::Lord => Some(SubProfession::Lord),
        RawSubProfession::Musha => Some(SubProfession::Musha),
        RawSubProfession::Reaper => Some(SubProfession::Reaper),
        RawSubProfession::Swordmaster => Some(SubProfession::Swordmaster),
        RawSubProfession::None1 => None,
        RawSubProfession::None2 => None,
        RawSubProfession::NotChar1 => None,
        RawSubProfession::NotChar2 => None,
    }
}

/// Converts a raw sub-profession tag; filler tags are rejected.
pub fn convert_sub_profession(p: RawSubProfession) -> (r: Option<SubProfession>)
    ensures
        r == sub_profession_of(p),
{
    match p {
        RawSubProfession::BlastCaster => Some(SubProfession::BlastCaster),
        RawSubProfession::ChainCaster => Some(SubProfession::ChainCaster),
        RawSubProfession::CoreCaster => Some(SubProfession::CoreCaster),
        RawSubProfession::MechAccordCaster => Some(SubProfession::MechAccordCaster),
        RawSubProfession::MysticCaster => Some(SubProfession::MysticCaster),
        RawSubProfession::PhalanxCaster => Some(SubProfession::PhalanxCaster),
        RawSubProfession::SplashCaster => Some(SubProfession::SplashCaster),
        RawSubProfession::Therapist => Some(SubProfession::Therapist),
        RawSubProfession::Medic => Some(SubProfession::Medic),
        RawSubProfession::MultiTargetMedic => Some(SubProfession::MultiTargetMedic),
        RawSubProfession::WanderingMedic => Some(SubProfession::WanderingMedic),
        RawSubProfession::StandardBearer => Some(SubProfession::StandardBearer),
        RawSubProfession::Charger => Some(SubProfession::Charger),
        RawSubProfession::Pioneer => Some(SubProfession::Pioneer),
        RawSubProfession::Tactician => Some(SubProfession::Tactician),
        RawSubProfession::Artilleryman => Some(SubProfession::Artilleryman),
        RawSubProfession::Flinger => Some(SubProfession::Flinger),
        RawSubProfession::Heavyshooter => Some(SubProfession::Heavyshooter),
        RawSubProfession::Marksman => Some(SubProfession::Marksman),
        RawSubProfession::Deadeye => Some(SubProfession::Deadeye),
        RawSubProfession::Spreadshooter => Some(SubProfession::Spreadshooter),
        RawSubProfession::Besieger => Some(SubProfession::Besieger),
        RawSubProfession::Dollkeeper => Some(SubProfession::Dollkeeper),
        RawSubProfession::Executor => Some(SubProfession::Executor),
        RawSubProfession::Geek => Some(SubProfession::Geek),
        RawSubProfession::Hookmaster => Some(SubProfession::Hookmaster),
        RawSubProfession::Merchant => Some(SubProfession::Merchant),
        RawSubProfession::PushStroker => Some(SubProfession::PushStroker),
        RawSubProfession::Ambusher => Some(SubProfession::Ambusher),
        RawSubProfession::Trapmaster => Some(SubProfession::Trapmaster),
        RawSubProfession::Bard => Some(SubProfession::Bard),
        RawSubProfession::Abjurer => Some(SubProfession::Abjurer),
        RawSubProfession::Artificer => Some(SubProfession::Artificer),
        RawSubProfession::DecelBinder => Some(SubProfession::DecelBinder),
        RawSubProfession::Summoner => Some(SubProfession::Summoner),
        RawSubProfession::Hexer => Some(SubProfession::Hexer),
        RawSubProfession::ArtsProtector => Some(SubProfession::ArtsProtector),
        RawSubProfession::Duelist => Some(SubProfession::Duelist),
        RawSubProfession::Fortress => Some(SubProfession::Fortress),
        RawSubProfession::Guardian => Some(SubProfession::Guardian),
        RawSubProfession::Protector => Some(SubProfession::Protector),
        RawSubProfession::Juggernaut => Some(SubProfession::Juggernaut),
        RawSubProfession::ArtsFighter => Some(SubProfession::ArtsFighter),
        RawSubProfession::Centurion => Some(SubProfession::Centurion),
        RawSubProfession::Dreadnought => Some(SubProfession::Dreadnought),
        RawSubProfession::Fighter => Some(SubProfession::Fighter),
        RawSubProfession::Instructor => Some(SubProfession::Instructor),
        RawSubProfession::Liberator => Some(SubProfession::Liberator),
        RawSubProfession::Lord => Some(SubProfession::Lord),
        RawSubProfession::Musha => Some(SubProfession::Musha),
        RawSubProfession::Reaper => Some(SubProfession::Reaper),
        RawSubProfession::Swordmaster => Some(SubProfession::Swordmaster),
        RawSubProfession::None1 => None,
        RawSubProfession::None2 => None,
        RawSubProfession::NotChar1 => None,
        RawSubProfession::NotChar2 => None,
    }
}

/// Whether a building upgrade carries exactly the fields of a raw room
/// upgrade step.
pub open spec fn upgrade_matches(u: BuildingUpgrade, p: RawRoomPhase) -> bool {
    &&& u.unlock_condition == p.unlock_condition
    &&& u.construction_cost.wf()
    &&& u.construction_cost@ == items_cost_map(p.build_cost_items@)
    &&& u.construction_drones == p.build_cost_labor
    &&& u.power == p.electricity
    &&& u.operator_capacity == p.station_capacity
    &&& u.manpower_cost == p.manpower_cost
}

/// Whether a building carries exactly the fields of a raw room record;
/// the raw (row, column) size becomes (width, height).
pub open spec fn building_matches(b: Building, raw: RawRoom) -> bool {
    &&& b.building_type == raw.building_type
    &&& b.name == raw.name
    &&& b.description == raw.description
    &&& b.max_count == raw.max_count
    &&& b.category == raw.category
    &&& b.size == (raw.size_col, raw.size_row)
    &&& b.upgrades@.len() == raw.phases@.len()
    &&& forall|i: int|
        0 <= i < raw.phases@.len() ==> upgrade_matches(
            #[trigger] b.upgrades@[i],
            raw.phases@[i],
        )
}

/// Converts a raw room record into a building.
pub fn convert_building(raw: RawRoom) -> (r: Building)
    ensures
        building_matches(r, raw),
{
    let ghost raw_phases = raw.phases@;
    let mut phases = raw.phases;
    let mut upgrades: Vec<BuildingUpgrade> = Vec::new();
    while phases.len() > 0
        invariant
            upgrades@.len() + phases@.len() == raw_phases.len(),
            phases@ == raw_phases.skip(upgrades@.len() as int),
            forall|i: int|
                0 <= i < upgrades@.len() ==> upgrade_matches(
                    #[trigger] upgrades@[i],
                    raw_phases[i],
                ),
        decreases phases@.len(),
    {
        let ghost done = upgrades@.len() as int;
        let ph = phases.remove(0);
        proof {
            assert(ph == raw_phases[done]);
            assert(phases@ =~= raw_phases.skip(done + 1));
        }
        let cost = convert_item_costs(ph.build_cost_items);
        upgrades.push(
            BuildingUpgrade {
                unlock_condition: ph.unlock_condition,
                construction_cost: cost,
                construction_drones: ph.build_cost_labor,
                power: ph.electricity,
                operator_capacity: ph.station_capacity,
                manpower_cost: ph.manpower_cost,
            },
        );
    }
    Building {
        building_type: raw.building_type,
        name: raw.name,
        description: raw.description,
        max_count: raw.max_count,
        category: raw.category,
        size: (raw.size_col, raw.size_row),
        upgrades,
    }
}

/// Converts the room table into the building list, in table order.
pub fn convert_buildings(rooms: Dict<RawRoom>) -> (r: Vec<Building>)
    requires
        rooms.wf(),
    ensures
        r@.len() == rooms.entry_seq().len(),
        forall|i: int|
            0 <= i < r@.len() ==> building_matches(
                #[trigger] r@[i],
                rooms.entry_seq()[i].1,
            ),
{
    let ghost raw_entries = rooms.entry_seq();
    let mut entries = rooms.into_entries();
    let mut out: Vec<Building> = Vec::new();
    while entries.len() > 0
        invariant
            out@.len() + entries@.len() == raw_entries.len(),
            entries@ == raw_entries.skip(out@.len() as int),
            forall|i: int|
                0 <= i < out@.len() ==> building_matches(#[trigger] out@[i], raw_entries[i].1),
        decreases entries@.len(),
    {
        let ghost done = out@.len() as int;
        let (_, room) = entries.remove(0);
        proof {
            assert((raw_entries.skip(done))[0] == raw_entries[done]);
            assert(entries@ =~= raw_entries.skip(done + 1));
        }
        out.push(convert_building(room));
    }
    out
}

/// The event a raw activity record stands for, when it names an event
/// kind.
pub open spec fn event_matches(e: Event, raw: RawActivityEntry) -> bool {
    &&& raw.kind is Some
    &&& e.id == raw.id
    &&& e.name == raw.name
    &&& e.event_type == (match raw.kind {
        Some(RawActivityKind::Branchline) => EventType::Intermezzi,
        Some(RawActivityKind::SideStory) => EventType::SideStory,
        Some(RawActivityKind::MiniStory) => EventType::Vignette,
        None => EventType::Vignette,
    })
    &&& e.open_time == raw.start_time
    &&& e.close_time == raw.end_time
    &&& e.close_time_rewards == raw.end_time_rewards
    &&& e.is_rerun == raw.is_rerun
}

/// Converts a raw activity record; records without an event kind are
/// passed over.
pub fn convert_event(raw: RawActivityEntry) -> (r: Option<Event>)
    ensures
        match r {
            Some(e) => event_matches(e, raw),
            None => raw.kind is None,
        },
{
    let event_type = match raw.kind {
        Some(RawActivityKind::Branchline) => EventType::Intermezzi,
        Some(RawActivityKind::SideStory) => EventType::SideStory,
        Some(RawActivityKind::MiniStory) => EventType::Vignette,
        None => {
            return None;
        },
    };
    Some(
        Event {
            id: raw.id,
            name: raw.name,
            event_type,
            open_time: raw.start_time,
            close_time: raw.end_time,
            close_time_rewards: raw.end_time_rewards,
            is_rerun: raw.is_rerun,
        },
    )
}

/// How many records of an activity table prefix name an event kind.
pub open spec fn event_count(s: Seq<(String, RawActivityEntry)>) -> int
    decreases s.len(),
{
    if s.len() == 0 {
        0
    } else {
        event_count(s.drop_last()) + (if s.last().1.kind is Some {
            1int
        } else {
            0int
        })
    }
}

/// Converts the activity table into the event list, keeping table order
/// and passing over records without an event kind.
pub fn convert_events(activities: Dict<RawActivityEntry>) -> (r: Vec<Event>)
    requires
        activities.wf(),
    ensures
        r@.len() == event_count(activities.entry_seq()),
        forall|i: int|
            0 <= i < r@.len() ==> exists|j: int|
                0 <= j < activities.entry_seq().len() && event_matches(
                    #[trigger] r@[i],
                    activities.entry_seq()[j].1,
                ),
{
    let ghost raw_entries = activities.entry_seq();
    let mut entries = activities.into_entries();
    let mut out: Vec<Event> = Vec::new();
    let ghost consumed: int = 0;
    while entries.len() > 0
        invariant
            0 <= consumed <= raw_entries.len(),
            entries@ == raw_entries.skip(consumed),
            out@.len() == event_count(raw_entries.take(consumed)),
            forall|i: int|
                0 <= i < out@.len() ==> exists|j: int|
                    0 <= j < raw_entries.len() && event_matches(
                        #[trigger] out@[i],
                        raw_entries[j].1,
                    ),
        decreases entries@.len(),
    {
        let (_, act) = entries.remove(0);
        proof {
            assert((raw_entries.skip(consumed))[0] == raw_entries[consumed]);
            assert(entries@ =~= raw_entries.skip(consumed + 1));
            assert(raw_entries.take(consumed + 1).drop_last() =~= raw_entries.take(consumed));
            assert(raw_entries.take(consumed + 1).last() == raw_entries[consumed]);
        }
        let ghost old_consumed = consumed;
        match convert_event(act) {
            Some(e) => {
                out.push(e);
            },
            None => {},
        }
        proof {
            consumed = old_consumed + 1;
        }
    }
    proof {
        assert(raw_entries.take(raw_entries.len() as int) =~= raw_entries);
    }
    out
}

/// Whether a banner carries exactly the fields of a raw banner record.
pub open spec fn banner_matches(b: HeadhuntingBanner, raw: RawGachaPool) -> bool {
    &&& b.id == raw.gacha_pool_id
    &&& b.name == raw.gacha_pool_name
    &&& b.summary == raw.gacha_pool_summary
    &&& b.index == raw.gacha_index
    &&& b.open_time == raw.open_time
    &&& b.close_time == raw.end_time
    &&& b.item_id == raw.data_contract_item_id
    &&& b.banner_type == (match raw.gacha_rule_type {
        RawGachaRuleType::Normal => HeadhuntingBannerType::Normal,
        RawGachaRuleType::Limited => HeadhuntingBannerType::Limited,
        RawGachaRuleType::Linkage => HeadhuntingBannerType::Special,
        RawGachaRuleType::Attain => HeadhuntingBannerType::Special,
    })
}

/// Converts a raw banner record.
pub fn convert_banner(raw: RawGachaPool) -> (r: HeadhuntingBanner)
    ensures
        banner_matches(r, raw),
{
    let banner_type = match raw.gacha_rule_type {
        RawGachaRuleType::Normal => HeadhuntingBannerType::Normal,
        RawGachaRuleType::Limited => HeadhuntingBannerType::Limited,
        RawGachaRuleType::Linkage => HeadhuntingBannerType::Special,
        RawGachaRuleType::Attain => HeadhuntingBannerType::Special,
    };
    HeadhuntingBanner {
        id: raw.gacha_pool_id,
        name: raw.gacha_pool_name,
        summary: raw.gacha_pool_summary,
        index: raw.gacha_index,
        open_time: raw.open_time,
        close_time: raw.end_time,
        item_id: raw.data_contract_item_id,
        banner_type,
    }
}

/// The tag mapping a raw tag list builds: tag names to tag IDs, later
/// entries overriding earlier ones.
pub open spec fn tags_map(s: Seq<RawRecruitTag>) -> Map<Seq<char>, u32>
    decreases s.len(),
{
    if s.len() == 0 {
        Map::empty()
    } else {
        tags_map(s.drop_last()).insert(s.last().name@, s.last().id)
    }
}

/// Builds the recruitment tag mapping of a raw tag list.
pub fn convert_recruit_tags(list: Vec<RawRecruitTag>) -> (r: Dict<u32>)
    ensures
        r.wf(),
        r@ == tags_map(list@),
{
    let ghost raw_list = list@;
    let mut list = list;
    let mut out: Dict<u32> = Dict::new();
    let ghost consumed: int = 0;
    proof {
        assert(raw_list.take(0) =~= Seq::<RawRecruitTag>::empty());
        assert(out@ =~= tags_map(raw_list.take(0)));
    }
    while list.len() > 0
        invariant
            0 <= consumed <= raw_list.len(),
            list@ == raw_list.skip(consumed),
            out.wf(),
            out@ == tags_map(raw_list.take(consumed)),
        decreases list@.len(),
    {
        let tag = list.remove(0);
        proof {
            assert((raw_list.skip(consumed))[0] == raw_list[consumed]);
            assert(list@ =~= raw_list.skip(consumed + 1));
            assert(raw_list.take(consumed + 1).drop_last() =~= raw_list.take(consumed));
            assert(raw_list.take(consumed + 1).last() == raw_list[consumed]);
        }
        out.insert(tag.name, tag.id);
        proof {
            consumed = consumed + 1;
        }
    }
    proof {
        assert(raw_list.take(raw_list.len() as int) =~= raw_list);
    }
    out
}

/// The alternate-form pairs of a group table: every group of exactly two
/// IDs, in table order.
pub open spec fn alters_count(s: Seq<(String, Vec<String>)>) -> int
    decreases s.len(),
{
    if s.len() == 0 {
        0
    } else {
        alters_count(s.drop_last()) + (if s.last().1@.len() == 2 {
            1int
        } else {
            0int
        })
    }
}

/// Whether an alternate pair holds exactly a two-ID group.
pub open spec fn alter_matches(a: AlterPair, group: Vec<String>) -> bool {
    group@.len() == 2 && a.first == group@[0] && a.second == group@[1]
}

/// Converts the group table into alternate-form pairs: groups of exactly
/// two IDs become pairs, all other groups are passed over.
pub fn convert_alters(groups: Dict<Vec<String>>) -> (r: Vec<AlterPair>)
    requires
        groups.wf(),
    ensures
        r@.len() == alters_count(groups.entry_seq()),
        forall|i: int|
            0 <= i < r@.len() ==> exists|j: int|
                0 <= j < groups.entry_seq().len() && alter_matches(
                    #[trigger] r@[i],
                    groups.entry_seq()[j].1,
                ),
{
    let ghost raw_entries = groups.entry_seq();
    let mut entries = groups.into_entries();
    let mut out: Vec<AlterPair> = Vec::new();
    let ghost consumed: int = 0;
    while entries.len() > 0
        invariant
            0 <= consumed <= raw_entries.len(),
            entries@ == raw_entries.skip(consumed),
            out@.len() == alters_count(raw_entries.take(consumed)),
            forall|i: int|
                0 <= i < out@.len() ==> exists|j: int|
                    0 <= j < raw_entries.len() && alter_matches(
                        #[trigger] out@[i],
                        raw_entries[j].1,
                    ),
        decreases entries@.len(),
    {
        let (_, group) = entries.remove(0);
        proof {
            assert((raw_entries.skip(consumed))[0] == raw_entries[consumed]);
            assert(entries@ =~= raw_entries.skip(consumed + 1));
            assert(raw_entries.take(consumed + 1).drop_last() =~= raw_entries.take(consumed));
            assert(raw_entries.take(consumed + 1).last() == raw_entries[consumed]);
        }
        if group.len() == 2 {
            let ghost g = group@;
            let mut group = group;
            let first = group.remove(0);
            let second = group.remove(0);
            proof {
                assert(first == g[0] && second == g[1]);
            }
            out.push(AlterPair { first, second });
        }
        proof {
            consumed = consumed + 1;
        }
    }
    proof {
        assert(raw_entries.take(raw_entries.len() as int) =~= raw_entries);
    }
    out
}

/// Whether a base-skill phase resolves a raw buff phase: the buff
/// definition exists and the condition's phase index is known.
pub open spec fn base_phase_matches(
    p: OperatorBaseSkillPhase,
    raw: RawCharBuffPhase,
    buffs: Map<Seq<char>, RawBuff>,
) -> bool {
    &&& buffs.contains_key(raw.buff_id@)
    &&& condition_of(raw.condition) == Some(p.condition)
    &&& p.name == buffs[raw.buff_id@].name
    &&& p.sort == buffs[raw.buff_id@].sort
    &&& p.category == buffs[raw.buff_id@].category
    &&& p.building_type == buffs[raw.buff_id@].room_type
}

/// Whether every phase of a raw buff resolves.
pub open spec fn buff_resolvable(raw: RawCharBuff, buffs: Map<Seq<char>, RawBuff>) -> bool {
    forall|i: int|
        0 <= i < raw.phases@.len() ==> buffs.contains_key(
            (#[trigger] raw.phases@[i]).buff_id@,
        ) && condition_of(raw.phases@[i].condition) is Some
}

/// Whether a base skill resolves a raw buff: the buff is non-empty, every
/// phase resolves, and the phases map over in order.
pub open spec fn base_skill_matches(
    s: OperatorBaseSkill,
    raw: RawCharBuff,
    buffs: Map<Seq<char>, RawBuff>,
) -> bool {
    &&& raw.phases@.len() > 0
    &&& buff_resolvable(raw, buffs)
    &&& s.phases@.len() == raw.phases@.len()
    &&& forall|i: int|
        0 <= i < raw.phases@.len() ==> base_phase_matches(
            #[trigger] s.phases@[i],
            raw.phases@[i],
            buffs,
        )
}

/// How many buffs of a prefix resolve into base skills.
pub open spec fn base_skill_count(s: Seq<RawCharBuff>, buffs: Map<Seq<char>, RawBuff>) -> int
    decreases s.len(),
{
    if s.len() == 0 {
        0
    } else {
        base_skill_count(s.drop_last(), buffs) + (
        if s.last().phases@.len() > 0 && buff_resolvable(s.last(), buffs) {
            1int
        } else {
            0int
        })
    }
}

/// Converts one raw buff into a base skill; an empty buff or one with an
/// unresolvable phase is passed over.
fn convert_base_skill(raw: &RawCharBuff, buffs: &Dict<RawBuff>) -> (r: Option<OperatorBaseSkill>)
    requires
        buffs.wf(),
    ensures
        match r {
            Some(s) => base_skill_matches(s, *raw, buffs@),
            None => raw.phases@.len() == 0 || !buff_resolvable(*raw, buffs@),
        },
{
    let n = raw.phases.len();
    if n == 0 {
        return None;
    }
    let mut phases: Vec<OperatorBaseSkillPhase> = Vec::new();
    let mut i: usize = 0;
    while i < n
        invariant
            i <= n,
            n == raw.phases@.len(),
            buffs.wf(),
            phases@.len() == i,
            forall|j: int|
                0 <= j < i ==> base_phase_matches(
                    #[trigger] phases@[j],
                    raw.phases@[j],
                    buffs@,
                ),
        decreases n - i,
    {
        let phase = &raw.phases[i];
        let condition = match convert_condition(&phase.condition) {
            Some(c) => c,
            None => {
                return None;
            },
        };
        match buffs.get(phase.buff_id.as_str()) {
            Some(buff) => {
                phases.push(
                    OperatorBaseSkillPhase {
                        name: buff.name.clone(),
                        condition,
                        sort: buff.sort,
                        category: buff.category,
                        building_type: buff.room_type,
                    },
                );
            },
            None => {
                return None;
            },
        }
        i = i + 1;
    }
    proof {
        assert forall|j: int|
            0 <= j < raw.phases@.len() implies buffs@.contains_key(
            (#[trigger] raw.phases@[j]).buff_id@,
        ) && condition_of(raw.phases@[j].condition) is Some by {
            assert(base_phase_matches(phases@[j], raw.phases@[j], buffs@));
        }
    }
    Some(OperatorBaseSkill { phases })
}

/// Resolves the base skills of one entity: its record in the per-character
/// buff table, each buff mapped against the buff definitions. An entity
/// absent from the table simply has no base skills; this is not an error.
pub fn get_operator_base_skill(building: &RawBuildingData, id: &str) -> (r: Vec<OperatorBaseSkill>)
    requires
        building.wf(),
    ensures
        building.chars@.contains_key(id@) ==> r@.len() == base_skill_count(
            building.chars@[id@].buffs@,
            building.buffs@,
        ) && (forall|i: int|
            0 <= i < r@.len() ==> exists|j: int|
                0 <= j < building.chars@[id@].buffs@.len() && base_skill_matches(
                    #[trigger] r@[i],
                    building.chars@[id@].buffs@[j],
                    building.buffs@,
                )),
        !building.chars@.contains_key(id@) ==> r@.len() == 0,
{
    let record = match building.chars.get(id) {
        Some(rec) => rec,
        None => {
            return Vec::new();
        },
    };
    let ghost raw_buffs = record.buffs@;
    let n = record.buffs.len();
    let mut out: Vec<OperatorBaseSkill> = Vec::new();
    let mut i: usize = 0;
    proof {
        assert(raw_buffs.take(0) =~= Seq::<RawCharBuff>::empty());
    }
    while i < n
        invariant
            i <= n,
            n == raw_buffs.len(),
            building.wf(),
            record.buffs@ == raw_buffs,
            out@.len() == base_skill_count(raw_buffs.take(i as int), building.buffs@),
            forall|p: int|
                0 <= p < out@.len() ==> exists|j: int|
                    0 <= j < raw_buffs.len() && base_skill_matches(
                        #[trigger] out@[p],
                        raw_buffs[j],
                        building.buffs@,
                    ),
        decreases n - i,
    {
        proof {
            assert(raw_buffs.take(i + 1).drop_last() =~= raw_buffs.take(i as int));
            assert(raw_buffs.take(i + 1).last() == raw_buffs[i as int]);
        }
        match convert_base_skill(&record.buffs[i], &building.buffs) {
            Some(s) => {
                out.push(s);
            },
            None => {},
        }
        i = i + 1;
    }
    proof {
        assert(raw_buffs.take(n as int) =~= raw_buffs);
    }
    out
}

/// Whether `c` is an ASCII digit.
pub open spec fn is_digit(c: char) -> bool {
    48 <= c as u32 <= 57
}

/// The value of a digit string, most significant first.
pub open spec fn digits_value(s: Seq<char>) -> int
    decreases s.len(),
{
    if s.len() == 0 {
        0
    } else {
        digits_value(s.drop_last()) * 10 + (s.last() as u32 - 48)
    }
}

/// The number a digit string stands for, when it is non-empty, all
/// digits, and fits 32 bits.
pub open spec fn digits_parse(t: Seq<char>) -> Option<u32> {
    if t.len() > 0 && (forall|i: int| 0 <= i < t.len() ==> is_digit(#[trigger] t[i]))
        && digits_value(t) <= u32::MAX {
        Some(digits_value(t) as u32)
    } else {
        None
    }
}

/// The number an unsigned decimal literal stands for: an optional `+`,
/// then only digits, with a value that fits 32 bits.
pub open spec fn parse_u32_spec(s: Seq<char>) -> Option<u32> {
    if s.len() > 0 && s[0] == '+' {
        digits_parse(s.skip(1))
    } else {
        digits_parse(s)
    }
}

/// Parses the window of `s` between `from` and `to` as an unsigned decimal
/// literal.
fn parse_u32_exec(s: &Vec<char>, from: usize, to: usize) -> (r: Option<u32>)
    requires
        from <= to <= s@.len(),
    ensures
        r == parse_u32_spec(s@.subrange(from as int, to as int)),
{
    let ghost w = s@.subrange(from as int, to as int);
    let start: usize = if from < to && s[from] == '+' {
        from + 1
    } else {
        from
    };
    let ghost t = s@.subrange(start as int, to as int);
    proof {
        if from < to && w[0] == '+' {
            assert(t =~= w.skip(1));
        } else {
            assert(t =~= w);
        }
    }
    proof {
        assert(parse_u32_spec(w) == digits_parse(t));
    }
    if start >= to {
        return None;
    }
    let mut value: u64 = 0;
    let mut i: usize = start;
    proof {
        assert(t.take(0) =~= Seq::<char>::empty());
    }
    while i < to
        invariant
            start <= i <= to <= s@.len(),
            t == s@.subrange(start as int, to as int),
            parse_u32_spec(s@.subrange(from as int, to as int)) == digits_parse(t),
            forall|j: int| 0 <= j < i - start ==> is_digit(#[trigger] t[j]),
            value == digits_value(t.take(i - start)),
            value <= 0xffffffffff,
        decreases to - i,
    {
        let c = s[i];
        proof {
            assert(t[i - start] == s@[i as int]);
        }
        let u = c as u32;
        if !(48 <= u && u <= 57) {
            proof {
                assert(!is_digit(t[i - start]));
            }
            return None;
        }
        if value > 0xffffffff {
            proof {
                if forall|k: int| 0 <= k < t.len() ==> is_digit(#[trigger] t[k]) {
                    lemma_digits_value_grows(t, (i - start) as int, t.len() as int);
                    assert(t.take(t.len() as int) =~= t);
                }
            }
            return None;
        }
        value = value * 10 + ((u - 48) as u64);
        i = i + 1;
        proof {
            assert(t.take(i - start).drop_last() =~= t.take(i - start - 1));
            assert(t.take(i - start).last() == t[i - start - 1]);
        }
    }
    proof {
        assert(t.take(to - start) =~= t);
    }
    if value > 0xffffffff {
        proof {
            assert(value == digits_value(t));
        }
        return None;
    }
    Some(value as u32)
}

/// A digit string's value only grows as digits are appended.
proof fn lemma_digits_value_grows(t: Seq<char>, i: int, j: int)
    requires
        0 <= i <= j <= t.len(),
        forall|k: int| 0 <= k < t.len() ==> is_digit(#[trigger] t[k]),
    ensures
        digits_value(t.take(i)) <= digits_value(t.take(j)),
    decreases j - i,
{
    if i < j {
        lemma_digits_value_grows(t, i, j - 1);
        assert(forall|k: int| 0 <= k < t.take(j - 1).len() ==> is_digit(
            #[trigger] t.take(j - 1)[k],
        ));
        lemma_digits_value_nonneg(t.take(j - 1));
        assert(t.take(j).drop_last() =~= t.take(j - 1));
        assert(is_digit(t[j - 1]));
        assert(digits_value(t.take(j)) == digits_value(t.take(j - 1)) * 10 + (t.take(j).last()
            as u32 - 48));
        assert(digits_value(t.take(j - 1)) * 10 >= digits_value(t.take(j - 1))) by (nonlinear_arith)
            requires
                digits_value(t.take(j - 1)) >= 0,
        ;
    }
}

/// A digit string's value is never negative.
proof fn lemma_digits_value_nonneg(s: Seq<char>)
    requires
        forall|k: int| 0 <= k < s.len() ==> is_digit(#[trigger] s[k]),
    ensures
        digits_value(s) >= 0,
    decreases s.len(),
{
    if s.len() > 0 {
        assert(forall|k: int| 0 <= k < s.drop_last().len() ==> is_digit(
            #[trigger] s.drop_last()[k],
        ));
        lemma_digits_value_nonneg(s.drop_last());
        assert(is_digit(s.last()));
        assert(digits_value(s.drop_last()) * 10 >= 0) by (nonlinear_arith)
            requires
                digits_value(s.drop_last()) >= 0,
        ;
    }
}

/// The position of the first `;` at or after `i`, or the text's length.
pub open spec fn next_semicolon(s: Seq<char>, i: int) -> int
    decreases s.len() - i,
{
    if 0 <= i < s.len() {
        if s[i] == ';' {
            i
        } else {
            next_semicolon(s, i + 1)
        }
    } else {
        s.len() as int
    }
}

/// The promotion-and-level pair a `phase;level` literal stands for, when
/// both halves parse and the phase index is known.
pub open spec fn parse_condition_spec(s: Seq<char>) -> Option<PromotionAndLevel> {
    let k = next_semicolon(s, 0);
    if k < s.len() {
        match (parse_u32_spec(s.take(k)), parse_u32_spec(s.skip(k + 1))) {
            (Some(phase), Some(level)) => condition_of(RawCondition { phase, level }),
            _ => None,
        }
    } else {
        None
    }
}

/// How an archive unlock condition reads a raw story entry's parameter:
/// an empty parameter is always unlocked; a number is a trust threshold; a
/// `phase;level` pair is a promotion threshold; anything else names an
/// operator when the unlock type says so, and is otherwise always
/// unlocked.
pub open spec fn file_unlock_matches(
    u: OperatorFileUnlock,
    param: Seq<char>,
    unlock_type: u32,
) -> bool {
    if param.len() == 0 {
        u is AlwaysUnlocked
    } else if parse_u32_spec(param) is Some {
        u == OperatorFileUnlock::Trust(parse_u32_spec(param).unwrap())
    } else if parse_condition_spec(param) is Some {
        u == OperatorFileUnlock::PromotionLevel(parse_condition_spec(param).unwrap())
    } else if unlock_type == 6 {
        u matches OperatorFileUnlock::OperatorUnlocked(cid) && cid@ == param
    } else {
        u is AlwaysUnlocked
    }
}

/// Reads a raw story entry's unlock parameter into an unlock condition.
pub fn convert_file_unlock(param: String, unlock_type: u32) -> (r: OperatorFileUnlock)
    ensures
        file_unlock_matches(r, param@, unlock_type),
{
    let chars = crate::chars::string_to_chars(param.as_str());
    let n = chars.len();
    if n == 0 {
        return OperatorFileUnlock::AlwaysUnlocked;
    }
    proof {
        assert(chars@.subrange(0, n as int) =~= chars@);
    }
    match parse_u32_exec(&chars, 0, n) {
        Some(trust) => {
            return OperatorFileUnlock::Trust(trust);
        },
        None => {},
    }
    let k = next_semicolon_exec(&chars);
    if k < n {
        let phase = parse_u32_exec(&chars, 0, k);
        proof {
            assert(chars@.subrange(0, k as int) =~= chars@.take(k as int));
            assert(chars@.subrange(k + 1, n as int) =~= chars@.skip(k + 1));
        }
        let level = parse_u32_exec(&chars, k + 1, n);
        match (phase, level) {
            (Some(ph), Some(lv)) => {
                match convert_condition(&RawCondition { phase: ph, level: lv }) {
                    Some(c) => {
                        return OperatorFileUnlock::PromotionLevel(c);
                    },
                    None => {},
                }
            },
            _ => {},
        }
    }
    if unlock_type == 6 {
        OperatorFileUnlock::OperatorUnlocked(param)
    } else {
        OperatorFileUnlock::AlwaysUnlocked
    }
}

/// Finds the first `;` in the text.
fn next_semicolon_exec(s: &Vec<char>) -> (r: usize)
    ensures
        r as int == next_semicolon(s@, 0),
        r <= s@.len(),
{
    let n = s.len();
    let mut j: usize = 0;
    while j < n && s[j] != ';'
        invariant
            j <= n,
            n == s@.len(),
            next_semicolon(s@, 0) == next_semicolon(s@, j as int),
        decreases n - j,
    {
        j = j + 1;
    }
    j
}

/// Whether an archive file entry carries a raw story entry.
pub open spec fn file_entry_matches(e: OperatorFileEntry, raw: RawStoryEntry) -> bool {
    &&& e.title == raw.story_title
    &&& e.text == raw.story_text
    &&& file_unlock_matches(e.unlock_condition, raw.unlock_param@, raw.unlock_type)
}

/// Whether an archive file carries a raw handbook record.
pub open spec fn file_matches(f: OperatorFile, raw: RawHandbookEntry) -> bool {
    &&& f.operator_id == raw.char_id
    &&& f.illustrator_name == raw.illustrator_name
    &&& f.entries@.len() == raw.story_entries@.len()
    &&& forall|i: int|
        0 <= i < raw.story_entries@.len() ==> file_entry_matches(
            #[trigger] f.entries@[i],
            raw.story_entries@[i],
        )
}

/// Converts a raw handbook record into an archive file.
fn convert_file(raw: RawHandbookEntry) -> (r: OperatorFile)
    ensures
        file_matches(r, raw),
{
    let ghost raw_stories = raw.story_entries@;
    let mut stories = raw.story_entries;
    let mut entries: Vec<OperatorFileEntry> = Vec::new();
    while stories.len() > 0
        invariant
            entries@.len() + stories@.len() == raw_stories.len(),
            stories@ == raw_stories.skip(entries@.len() as int),
            forall|i: int|
                0 <= i < entries@.len() ==> file_entry_matches(
                    #[trigger] entries@[i],
                    raw_stories[i],
                ),
        decreases stories@.len(),
    {
        let ghost done = entries@.len() as int;
        let story = stories.remove(0);
        proof {
            assert(story == raw_stories[done]);
            assert(stories@ =~= raw_stories.skip(done + 1));
        }
        let unlock_condition = convert_file_unlock(story.unlock_param, story.unlock_type);
        entries.push(
            OperatorFileEntry { title: story.story_title, text: story.story_text, unlock_condition },
        );
    }
    OperatorFile {
        operator_id: raw.char_id,
        illustrator_name: raw.illustrator_name,
        entries,
    }
}

/// Removes an entity's handbook record and converts it into its archive
/// file; the record, once taken, can never be attached to another entity.
pub fn take_operator_file(handbook: &mut Dict<RawHandbookEntry>, id: &str) -> (r: Option<
    OperatorFile,
>)
    requires
        old(handbook).wf(),
    ensures
        final(handbook).wf(),
        match r {
            Some(f) => old(handbook)@.contains_key(id@) && file_matches(f, old(handbook)@[id@])
                && final(handbook)@ == old(handbook)@.remove(id@),
            None => !old(handbook)@.contains_key(id@) && *final(handbook) == *old(handbook),
        },
{
    match handbook.remove(id) {
        Some(record) => Some(convert_file(record)),
        None => None,
    }
}

/// The activation mode a raw activation tag maps to, if any.
pub open spec fn activation_of(t: u32) -> Option<SkillActivation> {
    if t == 0 {
        Some(SkillActivation::Passive)
    } else if t == 1 {
        Some(SkillActivation::Manual)
    } else if t == 2 {
        Some(SkillActivation::Auto)
    } else {
        None
    }
}

/// Converts a raw activation tag; an unknown tag is rejected.
pub fn convert_activation(t: u32) -> (r: Option<SkillActivation>)
    ensures
        r == activation_of(t),
{
    if t == 0 {
        Some(SkillActivation::Passive)
    } else if t == 1 {
        Some(SkillActivation::Manual)
    } else if t == 2 {
        Some(SkillActivation::Auto)
    } else {
        None
    }
}

/// The recovery mode a raw recovery tag maps to, if any.
pub open spec fn recovery_of(t: u32) -> Option<SkillRecovery> {
    if t == 1 {
        Some(SkillRecovery::AutoRecovery)
    } else if t == 2 {
        Some(SkillRecovery::OffensiveRecovery)
    } else if t == 4 {
        Some(SkillRecovery::DefensiveRecovery)
    } else if t == 8 {
        Some(SkillRecovery::Passive)
    } else {
        None
    }
}

/// Converts a raw recovery tag; an unknown tag is rejected.
pub fn convert_recovery(t: u32) -> (r: Option<SkillRecovery>)
    ensures
        r == recovery_of(t),
{
    if t == 1 {
        Some(SkillRecovery::AutoRecovery)
    } else if t == 2 {
        Some(SkillRecovery::OffensiveRecovery)
    } else if t == 4 {
        Some(SkillRecovery::DefensiveRecovery)
    } else if t == 8 {
        Some(SkillRecovery::Passive)
    } else {
        None
    }
}

/// The key/value pairs of a raw blackboard, in order.
pub open spec fn pairs_of(s: Seq<RawBlackboardEntry>) -> Seq<(String, FixedValue)>
    decreases s.len(),
{
    if s.len() == 0 {
        Seq::empty()
    } else {
        pairs_of(s.drop_last()).push((s.last().key, s.last().value))
    }
}

/// The blackboard of one text instance: the instance's own pairs with
/// lower-cased keys, and its duration under the key `duration`.
pub open spec fn level_blackboard(s: Seq<RawBlackboardEntry>, duration: FixedValue) -> Map<
    Seq<char>,
    FixedValue,
> {
    crate::template::blackboard_map(pairs_of(s)).insert("duration"@, duration)
}

/// Every value a raw blackboard carries can be negated without leaving
/// the machine range.
pub open spec fn blackboard_values_ok(s: Seq<RawBlackboardEntry>) -> bool {
    forall|i: int| 0 <= i < s.len() ==> (#[trigger] s[i]).value.units > i64::MIN
}

/// Whether a resolved skill level carries a raw skill level: plain fields
/// copied, and the description rendered against the level's blackboard.
/// A missing description, or the bare placeholder `-`, resolves to none.
pub open spec fn skill_level_matches(l: OperatorSkillLevel, raw: RawSkillLevel) -> bool {
    &&& l.attack_range_id == raw.range_id
    &&& l.prefab_key == raw.prefab_key
    &&& l.duration == raw.duration
    &&& l.max_charge_time == raw.sp_data.max_charge_time
    &&& l.sp_cost == raw.sp_data.sp_cost
    &&& l.initial_sp == raw.sp_data.init_sp
    &&& l.increment == raw.sp_data.increment
    &&& match raw.description {
        Some(d) => if d@ == "-"@ {
            l.description is None
        } else {
            l.description matches Some(t) && t@ == crate::template::apply_templates_spec(
                d@,
                level_blackboard(raw.blackboard@, raw.duration),
            )
        },
        None => l.description is None,
    }
}

/// The spelled-out placeholder text that marks a level as having no
/// description.
fn dash_string() -> (r: String)
    ensures
        r@ == "-"@,
{
    let mut v: Vec<char> = Vec::new();
    v.push('-');
    proof {
        reveal_strlit("-");
        assert(v@ =~= "-"@);
    }
    crate::chars::chars_to_string(&v)
}

/// Converts one raw skill level, rendering its description against the
/// level's own blackboard.
fn convert_skill_level(raw: RawSkillLevel, mode: StrictnessMode) -> (r: Result<
    OperatorSkillLevel,
    TemplateError,
>)
    requires
        blackboard_values_ok(raw.blackboard@),
        raw.duration.units > i64::MIN,
    ensures
        match r {
            Ok(l) => skill_level_matches(l, raw),
            Err(_) => mode == StrictnessMode::Strict,
        },
        mode == StrictnessMode::Lenient ==> r is Ok,
{
    let ghost raw_bb = raw.blackboard@;
    let mut bb_entries = raw.blackboard;
    let mut pairs: Vec<(String, FixedValue)> = Vec::new();
    while bb_entries.len() > 0
        invariant
            blackboard_values_ok(raw_bb),
            pairs@.len() + bb_entries@.len() == raw_bb.len(),
            bb_entries@ == raw_bb.skip(pairs@.len() as int),
            pairs@ == pairs_of(raw_bb.take(pairs@.len() as int)),
            forall|i: int| 0 <= i < pairs@.len() ==> (#[trigger] pairs@[i]).1.units > i64::MIN,
        decreases bb_entries@.len(),
    {
        let ghost done = pairs@.len() as int;
        let entry = bb_entries.remove(0);
        proof {
            assert(entry == raw_bb[done]);
            assert(bb_entries@ =~= raw_bb.skip(done + 1));
            assert(raw_bb.take(done + 1).drop_last() =~= raw_bb.take(done));
            assert(raw_bb.take(done + 1).last() == raw_bb[done]);
        }
        pairs.push((entry.key, entry.value));
        proof {
            assert(pairs@ =~= pairs_of(raw_bb.take(done + 1)));
        }
    }
    proof {
        assert(raw_bb.take(raw_bb.len() as int) =~= raw_bb);
    }
    let bb = crate::template::build_blackboard(pairs, raw.duration);
    let description: Option<String> = match raw.description {
        Some(d) => {
            let dash = dash_string();
            if d == dash {
                None
            } else {
                match crate::template::apply_templates(d.as_str(), &bb, mode) {
                    Ok(text) => Some(text),
                    Err(e) => {
                        return Err(e);
                    },
                }
            }
        },
        None => None,
    };
    Ok(
        OperatorSkillLevel {
            description,
            attack_range_id: raw.range_id,
            prefab_key: raw.prefab_key,
            duration: raw.duration,
            max_charge_time: raw.sp_data.max_charge_time,
            sp_cost: raw.sp_data.sp_cost,
            initial_sp: raw.sp_data.init_sp,
            increment: raw.sp_data.increment,
        },
    )
}

/// Whether every level of a raw skill entry shares one name, one
/// activation tag and one recovery tag.
pub open spec fn levels_all_equal(s: Seq<RawSkillLevel>) -> bool {
    forall|i: int|
        0 <= i < s.len() ==> (#[trigger] s[i]).name@ == s[0].name@ && s[i].skill_type
            == s[0].skill_type && s[i].sp_data.sp_type == s[0].sp_data.sp_type
}

/// Every blackboard value and duration of a raw skill entry stays inside
/// the machine range.
pub open spec fn skill_entry_values_ok(e: RawSkillEntry) -> bool {
    forall|i: int|
        0 <= i < e.levels@.len() ==> blackboard_values_ok((#[trigger] e.levels@[i]).blackboard@)
            && e.levels@[i].duration.units > i64::MIN
}

/// Whether a raw skill reference resolves against the skill table: it
/// names a skill the table holds, whose levels agree on name and tags,
/// with known tags, at least seven levels, a known unlock condition, and
/// known mastery conditions.
pub open spec fn skill_ref_resolvable(
    r: RawSkillRef,
    skills: Map<Seq<char>, RawSkillEntry>,
) -> bool {
    &&& r.id is Some
    &&& skills.contains_key(r.id.unwrap()@)
    &&& {
        let e = skills[r.id.unwrap()@];
        &&& e.levels@.len() >= 7
        &&& levels_all_equal(e.levels@)
        &&& activation_of(e.levels@[0].skill_type) is Some
        &&& recovery_of(e.levels@[0].sp_data.sp_type) is Some
        &&& condition_of(r.unlock_condition) is Some
        &&& match r.mastery_upgrades {
            Some(m) => m@.len() == 3 && e.levels@.len() == 10 ==> forall|i: int|
                0 <= i < 3 ==> condition_of((#[trigger] m@[i]).unlock_condition) is Some,
            None => true,
        }
    }
}

/// Whether a mastery step carries a raw mastery upgrade and the raw level
/// it grants.
pub open spec fn mastery_matches(
    m: OperatorSkillMastery,
    raw: RawMasteryUpgrade,
    raw_level: RawSkillLevel,
) -> bool {
    &&& condition_of(raw.unlock_condition) == Some(m.condition)
    &&& m.upgrade_time == raw.level_up_time
    &&& m.upgrade_cost.wf()
    &&& m.upgrade_cost@ == items_cost_map(raw.level_up_cost@)
    &&& skill_level_matches(m.level, raw_level)
}

/// Whether a resolved skill carries a raw skill reference and the table
/// entry it names: exactly the first seven levels, and exactly three
/// mastery steps when the reference and the table supply them.
pub open spec fn skill_matches(s: OperatorSkill, r: RawSkillRef, e: RawSkillEntry) -> bool {
    &&& r.id matches Some(id) && s.id == id
    &&& e.levels@.len() >= 7
    &&& s.name == e.levels@[0].name
    &&& s.prefab_key == r.override_prefab_key
    &&& condition_of(r.unlock_condition) == Some(s.condition)
    &&& activation_of(e.levels@[0].skill_type) == Some(s.activation)
    &&& recovery_of(e.levels@[0].sp_data.sp_type) == Some(s.recovery)
    &&& s.levels@.len() == 7
    &&& forall|i: int| 0 <= i < 7 ==> skill_level_matches(#[trigger] s.levels@[i], e.levels@[i])
    &&& match r.mastery_upgrades {
        Some(m) => if m@.len() == 3 && e.levels@.len() == 10 {
            s.mastery matches Some(ms) && ms@.len() == 3 && (forall|i: int|
                0 <= i < 3 ==> mastery_matches(#[trigger] ms@[i], m@[i], e.levels@[7 + i]))
        } else {
            s.mastery is None
        },
        None => s.mastery is None,
    }
}

/// Duplicates a raw skill level; the copy agrees with the original on
/// every field, the blackboard compared entry for entry.
fn clone_skill_level(l: &RawSkillLevel) -> (r: RawSkillLevel)
    ensures
        r.name == l.name,
        r.range_id == l.range_id,
        r.description == l.description,
        r.skill_type == l.skill_type,
        r.sp_data == l.sp_data,
        r.prefab_key == l.prefab_key,
        r.duration == l.duration,
        r.blackboard@ == l.blackboard@,
{
    let mut blackboard: Vec<RawBlackboardEntry> = Vec::new();
    let n = l.blackboard.len();
    let mut i: usize = 0;
    while i < n
        invariant
            i <= n,
            n == l.blackboard@.len(),
            blackboard@.len() == i,
            forall|j: int| 0 <= j < i ==> #[trigger] blackboard@[j] == l.blackboard@[j],
        decreases n - i,
    {
        blackboard.push(
            RawBlackboardEntry { key: l.blackboard[i].key.clone(), value: l.blackboard[i].value },
        );
        i = i + 1;
    }
    proof {
        assert(blackboard@ =~= l.blackboard@);
    }
    RawSkillLevel {
        name: l.name.clone(),
        range_id: clone_opt_string(&l.range_id),
        description: clone_opt_string(&l.description),
        skill_type: l.skill_type,
        sp_data: RawSpData {
            sp_type: l.sp_data.sp_type,
            max_charge_time: l.sp_data.max_charge_time,
            sp_cost: l.sp_data.sp_cost,
            init_sp: l.sp_data.init_sp,
            increment: l.sp_data.increment,
        },
        prefab_key: clone_opt_string(&l.prefab_key),
        duration: l.duration,
        blackboard,
    }
}

/// Duplicates an optional string.
fn clone_opt_string(s: &Option<String>) -> (r: Option<String>)
    ensures
        r == *s,
{
    match s {
        Some(v) => Some(v.clone()),
        None => None,
    }
}

/// Every skill entry of the table keeps its numeric values inside the
/// machine range.
pub open spec fn skills_values_ok(m: Map<Seq<char>, RawSkillEntry>) -> bool {
    forall|k: Seq<char>| #[trigger] m.contains_key(k) ==> skill_entry_values_ok(m[k])
}

/// Resolves one raw skill reference against the skill table: requires the
/// named entry to agree on name and tags across its levels and to hold at
/// least seven of them; the first seven become the skill's levels and a
/// well-shaped mastery block becomes its mastery steps.
pub fn convert_skill(r: RawSkillRef, skills: &Dict<RawSkillEntry>, mode: StrictnessMode) -> (res:
    Result<Option<OperatorSkill>, TemplateError>)
    requires
        skills.wf(),
        skills_values_ok(skills@),
    ensures
        res matches Ok(Some(s)) ==> skill_ref_resolvable(r, skills@) && skill_matches(
            s,
            r,
            skills@[r.id.unwrap()@],
        ),
        res matches Ok(None) ==> !skill_ref_resolvable(r, skills@),
        res is Err ==> mode == StrictnessMode::Strict,
        mode == StrictnessMode::Lenient ==> res is Ok,
{
    let ghost gref = r;
    let RawSkillRef { id, override_prefab_key, mastery_upgrades, unlock_condition } = r;
    let id = match id {
        Some(id) => id,
        None => {
            return Ok(None);
        },
    };
    let entry = match skills.get(id.as_str()) {
        Some(e) => e,
        None => {
            return Ok(None);
        },
    };
    let ghost gentry = skills@[id@];
    let n = entry.levels.len();
    if n < 7 {
        return Ok(None);
    }
    let mut i: usize = 1;
    while i < n
        invariant
            1 <= i <= n,
            n == gentry.levels@.len(),
            *entry == gentry,
            gref == r,
            gref.id is Some,
            skills.wf(),
            skills@.contains_key(gref.id.unwrap()@),
            skills@[gref.id.unwrap()@] == gentry,
            forall|j: int|
                0 <= j < i ==> (#[trigger] gentry.levels@[j]).name@ == gentry.levels@[0].name@
                    && gentry.levels@[j].skill_type == gentry.levels@[0].skill_type
                    && gentry.levels@[j].sp_data.sp_type == gentry.levels@[0].sp_data.sp_type,
        decreases n - i,
    {
        let same = entry.levels[i].name == entry.levels[0].name && entry.levels[i].skill_type
            == entry.levels[0].skill_type && entry.levels[i].sp_data.sp_type
            == entry.levels[0].sp_data.sp_type;
        if !same {
            proof {
                assert(!levels_all_equal(gentry.levels@)) by {
                    assert(!((gentry.levels@[i as int]).name@ == gentry.levels@[0].name@
                        && gentry.levels@[i as int].skill_type == gentry.levels@[0].skill_type
                        && gentry.levels@[i as int].sp_data.sp_type
                        == gentry.levels@[0].sp_data.sp_type));
                }
            }
            return Ok(None);
        }
        i = i + 1;
    }
    let activation = match convert_activation(entry.levels[0].skill_type) {
        Some(a) => a,
        None => {
            return Ok(None);
        },
    };
    let recovery = match convert_recovery(entry.levels[0].sp_data.sp_type) {
        Some(rec) => rec,
        None => {
            return Ok(None);
        },
    };
    let condition = match convert_condition(&unlock_condition) {
        Some(c) => c,
        None => {
            return Ok(None);
        },
    };
    proof {
        assert(skill_entry_values_ok(gentry));
    }
    let name = entry.levels[0].name.clone();
    let mut levels: Vec<OperatorSkillLevel> = Vec::new();
    let mut k: usize = 0;
    while k < 7
        invariant
            k <= 7,
            7 <= gentry.levels@.len(),
            *entry == gentry,
            skill_entry_values_ok(gentry),
            mode == StrictnessMode::Strict || mode == StrictnessMode::Lenient,
            levels@.len() == k,
            forall|j: int|
                0 <= j < k ==> skill_level_matches(#[trigger] levels@[j], gentry.levels@[j]),
        decreases 7 - k,
    {
        let raw_level = clone_skill_level(&entry.levels[k]);
        match convert_skill_level(raw_level, mode) {
            Ok(l) => {
                levels.push(l);
            },
            Err(e) => {
                return Err(e);
            },
        }
        k = k + 1;
    }
    let mastery: Option<Vec<OperatorSkillMastery>> = match mastery_upgrades {
        Some(ups) => {
            if ups.len() == 3 && n == 10 {
                let ghost gups = ups@;
                let mut ups = ups;
                let mut steps: Vec<OperatorSkillMastery> = Vec::new();
                while ups.len() > 0
                    invariant
                        steps@.len() + ups@.len() == 3,
                        gups.len() == 3,
                        ups@ == gups.skip(steps@.len() as int),
                        gentry.levels@.len() == 10,
                        *entry == gentry,
                        skill_entry_values_ok(gentry),
                        gref == r,
                        gref.id is Some,
                        skills.wf(),
                        skills@.contains_key(gref.id.unwrap()@),
                        skills@[gref.id.unwrap()@] == gentry,
                        gref.mastery_upgrades matches Some(u) && u@ == gups,
                        mode == StrictnessMode::Strict || mode == StrictnessMode::Lenient,
                        forall|j: int|
                            0 <= j < steps@.len() ==> mastery_matches(
                                #[trigger] steps@[j],
                                gups[j],
                                gentry.levels@[7 + j],
                            ),
                    decreases ups@.len(),
                {
                    let ghost done = steps@.len() as int;
                    let up = ups.remove(0);
                    proof {
                        assert(up == gups[done]);
                        assert(ups@ =~= gups.skip(done + 1));
                    }
                    let cond = match convert_condition(&up.unlock_condition) {
                        Some(c) => c,
                        None => {
                            proof {
                                assert(condition_of(gups[done].unlock_condition) is None);
                                assert(!skill_ref_resolvable(gref, skills@));
                            }
                            return Ok(None);
                        },
                    };
                    let raw_level = clone_skill_level(&entry.levels[7 + steps.len()]);
                    let level = match convert_skill_level(raw_level, mode) {
                        Ok(l) => l,
                        Err(e) => {
                            return Err(e);
                        },
                    };
                    steps.push(
                        OperatorSkillMastery {
                            condition: cond,
                            upgrade_time: up.level_up_time,
                            upgrade_cost: convert_item_costs(up.level_up_cost),
                            level,
                        },
                    );
                }
                Some(steps)
            } else {
                None
            }
        },
        None => None,
    };
    let skill = OperatorSkill {
        id,
        name,
        prefab_key: override_prefab_key,
        condition,
        activation,
        recovery,
        levels,
        mastery,
    };
    proof {
        match gref.mastery_upgrades {
            Some(m) => {
                if m@.len() == 3 && gentry.levels@.len() == 10 {
                    assert(skill.mastery is Some);
                    let ms = skill.mastery.unwrap();
                    assert forall|j: int| 0 <= j < 3 implies condition_of(
                        (#[trigger] m@[j]).unlock_condition,
                    ) is Some by {
                        assert(mastery_matches(ms@[j], m@[j], gentry.levels@[7 + j]));
                    }
                }
            },
            None => {},
        }
        assert(skill_ref_resolvable(gref, skills@));
        assert(skill_matches(skill, gref, skills@[gref.id.unwrap()@]));
    }
    Ok(Some(skill))
}

/// One step state of draining mission records: whether every ID so far
/// was present, and the mission table after the removals.
pub open spec fn drain_missions_st(
    missions: Map<Seq<char>, RawEquipMission>,
    mids: Seq<String>,
    i: int,
) -> (bool, Map<Seq<char>, RawEquipMission>)
    decreases mids.len() - i when 0 <= i
{
    if i >= mids.len() {
        (true, missions)
    } else if missions.contains_key(mids[i]@) {
        drain_missions_st(missions.remove(mids[i]@), mids, i + 1)
    } else {
        (false, missions)
    }
}

/// One step state of draining module records: whether every module so far
/// resolved, and the module and mission tables after the removals. A
/// module resolves when its record is present, its unlock phase is known,
/// and every mission it names can be taken.
pub open spec fn drain_modules_st(
    equips: Map<Seq<char>, RawEquip>,
    missions: Map<Seq<char>, RawEquipMission>,
    ids: Seq<String>,
    i: int,
) -> (bool, Map<Seq<char>, RawEquip>, Map<Seq<char>, RawEquipMission>)
    decreases ids.len() - i when 0 <= i
{
    if i >= ids.len() {
        (true, equips, missions)
    } else if !equips.contains_key(ids[i]@) {
        (false, equips, missions)
    } else {
        let e = equips[ids[i]@];
        let eq1 = equips.remove(ids[i]@);
        let dm = drain_missions_st(missions, e.mission_ids@, 0);
        if !dm.0 || condition_of(
            RawCondition { phase: e.unlock_phase, level: e.unlock_level },
        ) is None {
            (false, eq1, dm.1)
        } else {
            drain_modules_st(eq1, dm.1, ids, i + 1)
        }
    }
}

/// Whether a mission carries a raw mission record.
pub open spec fn mission_matches(m: OperatorModuleMission, raw: RawEquipMission) -> bool {
    m.description == raw.description && m.sort == raw.sort
}

/// Whether a module carries a raw module record, its missions resolved
/// against the mission table as it stood before the drain.
pub open spec fn module_matches(
    m: OperatorModule,
    e: RawEquip,
    missions0: Map<Seq<char>, RawEquipMission>,
) -> bool {
    &&& m.id == e.id
    &&& m.name == e.name
    &&& m.description == e.description
    &&& condition_of(RawCondition { phase: e.unlock_phase, level: e.unlock_level }) == Some(
        m.condition,
    )
    &&& m.required_trust == crate::trust::spec_trust_points_to_percent(e.unlock_trust_points)
    &&& m.upgrade_cost.wf()
    &&& m.upgrade_cost@ == items_cost_map(
        match e.item_cost {
            Some(c) => c@,
            None => Seq::empty(),
        },
    )
    &&& missions_dict_matches(m.missions, e.mission_ids@, missions0)
}

/// Draining missions only removes entries: whatever the drained table
/// still holds, the original held with the same record.
proof fn lemma_drain_missions_submap(
    missions: Map<Seq<char>, RawEquipMission>,
    mids: Seq<String>,
    i: int,
)
    requires
        0 <= i,
    ensures
        forall|k: Seq<char>| #[trigger]
            drain_missions_st(missions, mids, i).1.contains_key(k) ==> missions.contains_key(k)
                && drain_missions_st(missions, mids, i).1[k] == missions[k],
    decreases mids.len() - i,
{
    if i < mids.len() && missions.contains_key(mids[i]@) {
        lemma_drain_missions_submap(missions.remove(mids[i]@), mids, i + 1);
        assert forall|k: Seq<char>| #[trigger]
            drain_missions_st(missions, mids, i).1.contains_key(k) implies missions.contains_key(
            k,
        ) && drain_missions_st(missions, mids, i).1[k] == missions[k] by {
            assert(drain_missions_st(missions.remove(mids[i]@), mids, i + 1).1.contains_key(k));
            assert(missions.remove(mids[i]@).contains_key(k));
        }
    }
}

/// The first `count` entries of a mission dictionary hold the first
/// `count` named missions, in order, each carrying its record from the
/// given table.
pub open spec fn missions_entries_match(
    entries: Seq<(String, OperatorModuleMission)>,
    mids: Seq<String>,
    m0: Map<Seq<char>, RawEquipMission>,
    count: int,
) -> bool
    decreases count,
{
    if count <= 0 {
        true
    } else {
        &&& missions_entries_match(entries, mids, m0, count - 1)
        &&& count <= entries.len()
        &&& count <= mids.len()
        &&& entries[count - 1].0@ == mids[count - 1]@
        &&& m0.contains_key(mids[count - 1]@)
        &&& mission_matches(entries[count - 1].1, m0[mids[count - 1]@])
    }
}

/// Matching a prefix only reads that prefix: two entry lists that agree
/// on the first `count` entries match the same missions.
proof fn lemma_missions_entries_prefix(
    e1: Seq<(String, OperatorModuleMission)>,
    e2: Seq<(String, OperatorModuleMission)>,
    mids: Seq<String>,
    m0: Map<Seq<char>, RawEquipMission>,
    count: int,
)
    requires
        missions_entries_match(e1, mids, m0, count),
        count <= e2.len(),
        forall|j: int| 0 <= j < count ==> e1[j] == #[trigger] e2[j],
    ensures
        missions_entries_match(e2, mids, m0, count),
    decreases count,
{
    if count > 0 {
        lemma_missions_entries_prefix(e1, e2, mids, m0, count - 1);
    }
}

/// Reads a matched mission dictionary at one position.
pub proof fn lemma_missions_entries_at(
    entries: Seq<(String, OperatorModuleMission)>,
    mids: Seq<String>,
    m0: Map<Seq<char>, RawEquipMission>,
    count: int,
    j: int,
)
    requires
        missions_entries_match(entries, mids, m0, count),
        0 <= j < count,
    ensures
        j < entries.len() && j < mids.len(),
        entries[j].0@ == mids[j]@,
        m0.contains_key(mids[j]@),
        mission_matches(entries[j].1, m0[mids[j]@]),
    decreases count,
{
    if j < count - 1 {
        lemma_missions_entries_at(entries, mids, m0, count - 1, j);
    }
}

/// A matched mission dictionary still matches against a larger table
/// that holds every record the smaller one holds, unchanged.
proof fn lemma_missions_entries_weaken(
    entries: Seq<(String, OperatorModuleMission)>,
    mids: Seq<String>,
    m_small: Map<Seq<char>, RawEquipMission>,
    m_big: Map<Seq<char>, RawEquipMission>,
    count: int,
)
    requires
        missions_entries_match(entries, mids, m_small, count),
        forall|k: Seq<char>| #[trigger]
            m_small.contains_key(k) ==> m_big.contains_key(k) && m_small[k] == m_big[k],
    ensures
        missions_entries_match(entries, mids, m_big, count),
    decreases count,
{
    if count > 0 {
        lemma_missions_entries_weaken(entries, mids, m_small, m_big, count - 1);
    }
}

/// Whether a mission dictionary holds exactly the named missions, in
/// order, each carrying its record from the given table.
pub open spec fn missions_dict_matches(
    d: Dict<OperatorModuleMission>,
    mids: Seq<String>,
    m0: Map<Seq<char>, RawEquipMission>,
) -> bool {
    &&& d.wf()
    &&& d.entry_seq().len() == mids.len()
    &&& missions_entries_match(d.entry_seq(), mids, m0, mids.len() as int)
}

/// Takes every mission a module names out of the mission table, in order;
/// a missing or doubly-named mission stops the drain and fails.
fn drain_missions(missions: &mut Dict<RawEquipMission>, mids: &Vec<String>) -> (r: Option<
    Dict<OperatorModuleMission>,
>)
    requires
        old(missions).wf(),
    ensures
        final(missions).wf(),
        final(missions)@ == drain_missions_st(old(missions)@, mids@, 0).1,
        r is Some <==> drain_missions_st(old(missions)@, mids@, 0).0,
        r matches Some(d) ==> missions_dict_matches(d, mids@, old(missions)@),
{
    let ghost m0 = old(missions)@;
    let ghost st = drain_missions_st(m0, mids@, 0);
    let mut out: Dict<OperatorModuleMission> = Dict::new();
    let n = mids.len();
    let mut i: usize = 0;
    while i < n
        invariant
            i <= n,
            n == mids@.len(),
            missions.wf(),
            out.wf(),
            m0 == old(missions)@,
            st == drain_missions_st(m0, mids@, 0),
            st == drain_missions_st(missions@, mids@, i as int),
            forall|k: Seq<char>| #[trigger]
                missions@.contains_key(k) ==> m0.contains_key(k) && missions@[k] == m0[k],
            forall|j: int| 0 <= j < i ==> !missions@.contains_key((#[trigger] mids@[j])@),
            out.entry_seq().len() == i,
            missions_entries_match(out.entry_seq(), mids@, m0, i as int),
        decreases n - i,
    {
        match missions.remove(mids[i].as_str()) {
            Some(record) => {
                proof {
                    assert(!out.spec_contains(mids@[i as int]@)) by {
                        if out.spec_contains(mids@[i as int]@) {
                            let j = choose|j: int|
                                0 <= j < out.entry_seq().len() && out.entry_seq()[j].0@
                                    == mids@[i as int]@;
                            lemma_missions_entries_at(out.entry_seq(), mids@, m0, i as int, j);
                            assert(mids@[j]@ == mids@[i as int]@);
                            assert(false);
                        }
                    }
                }
                let key = mids[i].clone();
                let mission = OperatorModuleMission {
                    description: record.description,
                    sort: record.sort,
                };
                let ghost entries_before = out.entry_seq();
                out.insert(key, mission);
                i = i + 1;
                proof {
                    lemma_missions_entries_prefix(
                        entries_before,
                        out.entry_seq(),
                        mids@,
                        m0,
                        i - 1,
                    );
                    assert(out.entry_seq()[i - 1].0@ == mids@[i - 1]@);
                    assert(missions_entries_match(out.entry_seq(), mids@, m0, i as int));
                }
            },
            None => {
                return None;
            },
        }
    }
    proof {
        assert(missions_dict_matches(out, mids@, old(missions)@));
    }
    Some(out)
}

/// Whether a module list is the successful outcome the drain owes for an
/// entity's ID list against the given tables: one module per ID after
/// slot 0, in order, each carrying its record.
pub open spec fn modules_entries_match(
    ms: Seq<OperatorModule>,
    ids: Seq<String>,
    equips_map: Map<Seq<char>, RawEquip>,
    missions_map: Map<Seq<char>, RawEquipMission>,
) -> bool
    decreases ms.len(),
{
    if ms.len() == 0 {
        true
    } else {
        &&& modules_entries_match(ms.drop_last(), ids, equips_map, missions_map)
        &&& ms.len() < ids.len()
        &&& equips_map.contains_key(ids[ms.len() as int]@)
        &&& module_matches(ms.last(), equips_map[ids[ms.len() as int]@], missions_map)
    }
}

/// Reads the drain outcome at one position: the module at position `j`
/// carries the record keyed by the ID at list slot `j + 1`.
pub proof fn lemma_entries_match_at(
    ms: Seq<OperatorModule>,
    ids: Seq<String>,
    equips_map: Map<Seq<char>, RawEquip>,
    missions_map: Map<Seq<char>, RawEquipMission>,
    j: int,
)
    requires
        modules_entries_match(ms, ids, equips_map, missions_map),
        0 <= j < ms.len(),
    ensures
        j + 1 < ids.len(),
        equips_map.contains_key(ids[j + 1]@),
        module_matches(ms[j], equips_map[ids[j + 1]@], missions_map),
    decreases ms.len(),
{
    if j == ms.len() - 1 {
        assert(ms[j] == ms.last());
    } else {
        lemma_entries_match_at(ms.drop_last(), ids, equips_map, missions_map, j);
        assert(ms.drop_last()[j] == ms[j]);
    }
}

pub open spec fn modules_list_matches(
    ms: Seq<OperatorModule>,
    equips0: RawEquipTable,
    id: Seq<char>,
) -> bool {
    &&& equips0.character_equip@.contains_key(id)
    &&& ms.len() == (if equips0.character_equip@[id]@.len() >= 1 {
        equips0.character_equip@[id]@.len() - 1
    } else {
        0
    })
    &&& modules_entries_match(
        ms,
        equips0.character_equip@[id]@,
        equips0.equips@,
        equips0.missions@,
    )
}

/// Removes an entity's module ID list and resolves it: slot 0 is the
/// reserved default and is skipped; each remaining module's record and
/// mission records are taken from their tables. An entity without a list
/// has no modules; a module that cannot be resolved fails the whole list,
/// leaving the records drained so far consumed.
#[verifier::rlimit(100)]
pub fn take_operator_modules(equips: &mut RawEquipTable, id: &str) -> (r: Option<
    Vec<OperatorModule>,
>)
    requires
        old(equips).wf(),
    ensures
        final(equips).wf(),
        !old(equips).character_equip@.contains_key(id@) ==> r is None && final(equips).equips@
            == old(equips).equips@ && final(equips).missions@ == old(equips).missions@
            && final(equips).character_equip@ == old(equips).character_equip@,
        old(equips).character_equip@.contains_key(id@) ==> {
            let ids = old(equips).character_equip@[id@]@;
            let rest = if ids.len() >= 1 {
                ids.skip(1)
            } else {
                ids
            };
            let st = drain_modules_st(old(equips).equips@, old(equips).missions@, rest, 0);
            &&& final(equips).character_equip@ == old(equips).character_equip@.remove(id@)
            &&& final(equips).equips@ == st.1
            &&& final(equips).missions@ == st.2
            &&& (r is Some <==> st.0)
        },
        r matches Some(ms) ==> modules_list_matches(ms@, *old(equips), id@),
{
    let ghost e0 = old(equips).equips@;
    let ghost mi0 = old(equips).missions@;
    let list = match equips.character_equip.remove(id) {
        Some(list) => list,
        None => {
            return None;
        },
    };
    let ghost ids = list@;
    let ghost rest = if ids.len() >= 1 {
        ids.skip(1)
    } else {
        ids
    };
    let ghost st = drain_modules_st(e0, mi0, rest, 0);
    let mut out: Vec<OperatorModule> = Vec::new();
    let n = list.len();
    let mut i: usize = 1;
    if n == 0 {
        proof {
            assert(rest =~= ids);
            assert(old(equips).character_equip@.contains_key(id@));
            assert(ids == old(equips).character_equip@[id@]@);
            assert(ids.len() == 0);
            assert(out@.len() == 0);
            assert(out@.len() == (if old(equips).character_equip@[id@]@.len() >= 1 {
                old(equips).character_equip@[id@]@.len() - 1
            } else {
                0
            }));
            assert(modules_list_matches(out@, *old(equips), id@));
        }
        return Some(out);
    }
    proof {
        assert(rest.len() == ids.len() - 1);
    }
    while i < n
        invariant
            1 <= i <= n,
            n == ids.len(),
            n >= 1,
            rest == ids.skip(1),
            list@ == ids,
            equips.wf(),
            e0 == old(equips).equips@,
            mi0 == old(equips).missions@,
            old(equips).character_equip@.contains_key(id@),
            ids == old(equips).character_equip@[id@]@,
            st == drain_modules_st(e0, mi0, rest, 0),
            st == drain_modules_st(equips.equips@, equips.missions@, rest, i - 1),
            equips.character_equip@ == old(equips).character_equip@.remove(id@),
            forall|k: Seq<char>| #[trigger]
                equips.equips@.contains_key(k) ==> e0.contains_key(k) && equips.equips@[k] == e0[k],
            forall|k: Seq<char>| #[trigger]
                equips.missions@.contains_key(k) ==> mi0.contains_key(k) && equips.missions@[k]
                    == mi0[k],
            out@.len() == i - 1,
            modules_entries_match(out@, ids, e0, mi0),
        decreases n - i,
    {
        proof {
            assert(rest[i - 1] == ids[i as int]);
        }
        let record = match equips.equips.remove(list[i].as_str()) {
            Some(rec) => rec,
            None => {
                return None;
            },
        };
        let ghost grecord = record;
        proof {
            assert(grecord == e0[rest[i - 1]@]);
        }
        let RawEquip {
            id: module_id,
            name,
            description,
            unlock_phase,
            unlock_level,
            unlock_trust_points,
            mission_ids,
            item_cost,
        } = record;
        let ghost mi_before = equips.missions@;
        let missions = match drain_missions(&mut equips.missions, &mission_ids) {
            Some(d) => d,
            None => {
                proof {
                    lemma_drain_missions_submap(mi_before, grecord.mission_ids@, 0);
                }
                return None;
            },
        };
        proof {
            lemma_drain_missions_submap(mi_before, grecord.mission_ids@, 0);
        }
        let condition = match convert_condition(
            &RawCondition { phase: unlock_phase, level: unlock_level },
        ) {
            Some(c) => c,
            None => {
                return None;
            },
        };
        let required_trust = crate::trust::trust_points_to_percent(unlock_trust_points);
        let upgrade_cost = match item_cost {
            Some(c) => convert_item_costs(c),
            None => {
                let ghost empty_costs = Seq::<RawItemCost>::empty();
                let d: ItemsCost = Dict::new();
                proof {
                    assert(d@ =~= items_cost_map(empty_costs));
                }
                d
            },
        };
        let module = OperatorModule {
            id: module_id,
            name,
            description,
            condition,
            required_trust,
            upgrade_cost,
            missions,
        };
        proof {
            assert(missions_dict_matches(module.missions, grecord.mission_ids@, mi_before));
            lemma_missions_entries_weaken(
                module.missions.entry_seq(),
                grecord.mission_ids@,
                mi_before,
                mi0,
                grecord.mission_ids@.len() as int,
            );
            assert(missions_dict_matches(module.missions, grecord.mission_ids@, mi0));
            assert(module_matches(module, e0[rest[i - 1]@], mi0));
        }
        let ghost out_before = out@;
        out.push(module);
        i = i + 1;
        proof {
            assert(out@.drop_last() =~= out_before);
            assert(out@.last() == module);
            assert(modules_entries_match(out@, ids, e0, mi0));
        }
    }
    proof {
        assert(st == drain_modules_st(equips.equips@, equips.missions@, rest, rest.len() as int));
        assert(modules_list_matches(out@, *old(equips), id@));
    }
    Some(out)
}


/// Whether a raw outfit record carries everything a resolved outfit
/// needs.
pub open spec fn skin_resolvable(raw: RawSkin) -> bool {
    &&& raw.display_skin.model_name is Some
    &&& raw.illustration_id is Some
    &&& raw.avatar_id is Some
    &&& raw.portrait_id is Some
    &&& raw.display_skin.illustrator is Some
    &&& raw.display_skin.group is Some
}

/// Whether a resolved outfit carries a raw outfit record, its dialog text
/// taken from the dialog or, failing that, the content field, with tags
/// stripped.
pub open spec fn skin_matches(s: OperatorSkin, raw: RawSkin) -> bool {
    &&& skin_resolvable(raw)
    &&& s.id == raw.id
    &&& s.name == raw.display_skin.name
    &&& s.model_id == raw.character_id
    &&& raw.display_skin.model_name matches Some(mn) && s.model_name == mn
    &&& s.is_paid == raw.is_paid_skin
    &&& raw.illustration_id matches Some(v) && s.illustration_id == v
    &&& s.illustration_live_id == raw.illustration_live_id
    &&& raw.avatar_id matches Some(v) && s.avatar_id == v
    &&& raw.portrait_id matches Some(v) && s.portrait_id == v
    &&& raw.display_skin.illustrator matches Some(v) && s.illustrator == v
    &&& raw.display_skin.group matches Some(v) && s.group == v
    &&& match raw.display_skin.dialog {
        Some(d) => s.dialog matches Some(t) && t@ == crate::template::strip_tags_spec(d@),
        None => match raw.display_skin.content {
            Some(c) => s.dialog matches Some(t) && t@ == crate::template::strip_tags_spec(c@),
            None => s.dialog is None,
        },
    }
    &&& s.usage == raw.display_skin.usage
    &&& s.description == raw.display_skin.description
    &&& s.obtain == raw.display_skin.obtain
}

/// Converts a raw outfit record; a record missing a required field is
/// passed over.
pub fn convert_operator_skin(raw: RawSkin) -> (r: Option<OperatorSkin>)
    ensures
        match r {
            Some(s) => skin_matches(s, raw),
            None => !skin_resolvable(raw),
        },
{
    let RawSkin {
        id,
        character_id,
        illustration_id,
        illustration_live_id,
        avatar_id,
        portrait_id,
        is_paid_skin,
        display_skin,
    } = raw;
    let model_name = match display_skin.model_name {
        Some(v) => v,
        None => {
            return None;
        },
    };
    let illustration_id = match illustration_id {
        Some(v) => v,
        None => {
            return None;
        },
    };
    let avatar_id = match avatar_id {
        Some(v) => v,
        None => {
            return None;
        },
    };
    let portrait_id = match portrait_id {
        Some(v) => v,
        None => {
            return None;
        },
    };
    let illustrator = match display_skin.illustrator {
        Some(v) => v,
        None => {
            return None;
        },
    };
    let group = match display_skin.group {
        Some(v) => v,
        None => {
            return None;
        },
    };
    let dialog: Option<String> = match display_skin.dialog {
        Some(d) => Some(crate::template::strip_tags(d.as_str())),
        None => match display_skin.content {
            Some(c) => Some(crate::template::strip_tags(c.as_str())),
            None => None,
        },
    };
    Some(
        OperatorSkin {
            id,
            name: display_skin.name,
            model_id: character_id,
            model_name,
            is_paid: is_paid_skin,
            illustration_id,
            illustration_live_id,
            avatar_id,
            portrait_id,
            illustrator,
            group,
            dialog,
            usage: display_skin.usage,
            description: display_skin.description,
            obtain: display_skin.obtain,
        },
    )
}

/// Whether an outfit group is built from the raw outfit table: every
/// outfit it holds comes from a resolvable record of this group's
/// operator.
pub open spec fn skin_group_sound(
    g: OperatorSkinGroup,
    m: Seq<char>,
    entries: Seq<(String, RawSkin)>,
    evolve0: Map<Seq<char>, RawEvolutions>,
) -> bool {
    &&& g.skins.wf()
    &&& evolve0.contains_key(m)
    &&& g.default_skins == (evolve0[m].elite0, evolve0[m].elite1, evolve0[m].elite2)
    &&& forall|k: Seq<char>| #[trigger]
        g.skins@.contains_key(k) ==> exists|j: int|
            0 <= j < entries.len() && (#[trigger] entries[j]).0@ == k
                && entries[j].1.character_id@ == m && skin_matches(g.skins@[k], entries[j].1)
}

/// Groups the raw outfit table by operator: every resolvable outfit whose
/// operator has a default-outfit record lands in that operator's group,
/// keyed by skin ID, and the group carries the operator's default outfit
/// of each tier.
pub fn build_skin_groups(skins: RawSkinTable) -> (r: Dict<OperatorSkinGroup>)
    requires
        skins.wf(),
    ensures
        r.wf(),
        forall|m: Seq<char>| #[trigger]
            r@.contains_key(m) ==> skin_group_sound(
                r@[m],
                m,
                skins.character_skins.entry_seq(),
                skins.default_evolve_map@,
            ),
        forall|j: int|
            0 <= j < skins.character_skins.entry_seq().len() ==> (skin_resolvable(
                (#[trigger] skins.character_skins.entry_seq()[j]).1,
            ) && skins.default_evolve_map@.contains_key(
                skins.character_skins.entry_seq()[j].1.character_id@,
            ) ==> {
                let m = skins.character_skins.entry_seq()[j].1.character_id@;
                &&& r@.contains_key(m)
                &&& r@[m].skins@.contains_key(skins.character_skins.entry_seq()[j].0@)
                &&& skin_matches(
                    r@[m].skins@[skins.character_skins.entry_seq()[j].0@],
                    skins.character_skins.entry_seq()[j].1,
                )
            }),
{
    let ghost table = skins.character_skins.entry_seq();
    let ghost evolve0 = skins.default_evolve_map@;
    proof {
        skins.character_skins.lemma_entry_keys_distinct();
    }
    let RawSkinTable { character_skins, default_evolve_map } = skins;
    let mut evolve = default_evolve_map;
    let mut entries = character_skins.into_entries();
    let mut groups: Dict<OperatorSkinGroup> = Dict::new();
    let ghost consumed: int = 0;
    while entries.len() > 0
        invariant
            0 <= consumed <= table.len(),
            entries@ == table.skip(consumed),
            forall|p: int, q: int|
                0 <= p < q < table.len() ==> (#[trigger] table[p]).0@ != (#[trigger] table[q]).0@,
            evolve.wf(),
            groups.wf(),
            forall|k: Seq<char>| #[trigger]
                evolve@.contains_key(k) ==> evolve0.contains_key(k) && evolve@[k] == evolve0[k]
                    && !groups@.contains_key(k),
            forall|m: Seq<char>| #[trigger]
                groups@.contains_key(m) ==> skin_group_sound(groups@[m], m, table, evolve0),
            forall|m: Seq<char>| #[trigger]
                evolve0.contains_key(m) && !evolve@.contains_key(m) ==> groups@.contains_key(m),
            forall|j: int|
                0 <= j < consumed ==> (skin_resolvable((#[trigger] table[j]).1)
                    && evolve0.contains_key(table[j].1.character_id@) ==> {
                    let m = table[j].1.character_id@;
                    &&& groups@.contains_key(m)
                    &&& groups@[m].skins@.contains_key(table[j].0@)
                    &&& skin_matches(groups@[m].skins@[table[j].0@], table[j].1)
                }),
        decreases entries@.len(),
    {
        let (id, raw) = entries.remove(0);
        proof {
            assert((table.skip(consumed))[0] == table[consumed]);
            assert(entries@ =~= table.skip(consumed + 1));
        }
        let ghost graw = raw;
        let model_key = raw.character_id.clone();
        match convert_operator_skin(raw) {
            Some(skin) => {
                match groups.remove(model_key.as_str()) {
                    Some(mut group) => {
                        proof {
                            assert(!evolve@.contains_key(model_key@));
                        }
                        group.skins.insert(id, skin);
                        groups.insert(model_key, group);
                        proof {
                            assert(forall|k: Seq<char>| #[trigger]
                                evolve@.contains_key(k) ==> k != model_key@);
                        }
                    },
                    None => {
                        match evolve.remove(model_key.as_str()) {
                            Some(ev) => {
                                let mut skins_dict: Dict<OperatorSkin> = Dict::new();
                                skins_dict.insert(id, skin);
                                let group = OperatorSkinGroup {
                                    skins: skins_dict,
                                    default_skins: (ev.elite0, ev.elite1, ev.elite2),
                                };
                                groups.insert(model_key, group);
                                proof {
                                    assert(!evolve@.contains_key(model_key@));
                                }
                            },
                            None => {},
                        }
                    },
                }
            },
            None => {},
        }
        proof {
            consumed = consumed + 1;
        }
    }
    proof {
        assert(table.skip(table.len() as int) =~= Seq::<(String, RawSkin)>::empty());
    }
    groups
}

/// Removes and hands over one operator's outfit group; the group, once
/// taken, can never be attached to another entity.
pub fn take_character_entry(groups: &mut Dict<OperatorSkinGroup>, character_id: &str) -> (r:
    Option<OperatorSkinGroup>)
    requires
        old(groups).wf(),
    ensures
        final(groups).wf(),
        match r {
            Some(g) => old(groups)@.contains_key(character_id@) && g == old(groups)@[character_id@]
                && final(groups)@ == old(groups)@.remove(character_id@),
            None => !old(groups)@.contains_key(character_id@) && *final(groups) == *old(groups),
        },
{
    groups.remove(character_id)
}

/// The effect mapping a raw talent blackboard builds: effect names to
/// values, later entries overriding earlier ones.
pub open spec fn effects_map(s: Seq<RawBlackboardEntry>) -> Map<Seq<char>, FixedValue>
    decreases s.len(),
{
    if s.len() == 0 {
        Map::empty()
    } else {
        effects_map(s.drop_last()).insert(s.last().key@, s.last().value)
    }
}

/// Builds the effect mapping of a raw talent blackboard.
fn convert_effects(list: Vec<RawBlackboardEntry>) -> (r: Dict<FixedValue>)
    ensures
        r.wf(),
        r@ == effects_map(list@),
{
    let mut out: Dict<FixedValue> = Dict::new();
    let n = list.len();
    let mut i: usize = 0;
    proof {
        assert(list@.take(0) =~= Seq::<RawBlackboardEntry>::empty());
        assert(out@ =~= effects_map(list@.take(0)));
    }
    while i < n
        invariant
            i <= n,
            n == list@.len(),
            out.wf(),
            out@ == effects_map(list@.take(i as int)),
        decreases n - i,
    {
        proof {
            assert(list@.take(i + 1).drop_last() =~= list@.take(i as int));
            assert(list@.take(i + 1).last() == list@[i as int]);
        }
        let key = list[i].key.clone();
        let value = list[i].value;
        out.insert(key, value);
        i = i + 1;
    }
    proof {
        assert(list@.take(n as int) =~= list@);
    }
    out
}

/// Whether a raw talent candidate carries everything a talent phase
/// needs: a name, a description and a known unlock phase.
pub open spec fn talent_phase_resolvable(c: RawTalentCandidate) -> bool {
    c.name is Some && c.description is Some && condition_of(c.unlock_condition) is Some
}

/// Whether a talent phase carries a raw candidate, its description
/// stripped of tags.
pub open spec fn talent_phase_matches(p: OperatorTalentPhase, c: RawTalentCandidate) -> bool {
    &&& talent_phase_resolvable(c)
    &&& c.name matches Some(n) && p.name == n
    &&& c.description matches Some(d) && p.description@ == crate::template::strip_tags_spec(d@)
    &&& condition_of(c.unlock_condition) == Some(p.condition)
    &&& p.required_potential == c.required_potential_rank
    &&& p.prefab_key == c.prefab_key
    &&& p.attack_range_id == c.range_id
    &&& p.effects.wf()
    &&& p.effects@ == effects_map(c.blackboard@)
}

/// Whether every candidate phase of a raw talent resolves.
pub open spec fn talent_resolvable(raw: RawTalent) -> bool {
    forall|i: int| 0 <= i < raw.phases@.len() ==> talent_phase_resolvable(#[trigger] raw.phases@[i])
}

/// Whether a talent carries a raw talent, phase for phase.
pub open spec fn talent_matches(t: OperatorTalent, raw: RawTalent) -> bool {
    &&& t.phases@.len() == raw.phases@.len()
    &&& forall|i: int|
        0 <= i < raw.phases@.len() ==> talent_phase_matches(#[trigger] t.phases@[i], raw.phases@[i])
}

/// Converts a raw talent; a candidate phase missing its name or
/// description, or with an unknown unlock phase, fails the talent.
pub fn convert_talent(raw: RawTalent) -> (r: Option<OperatorTalent>)
    ensures
        match r {
            Some(t) => talent_resolvable(raw) && talent_matches(t, raw),
            None => !talent_resolvable(raw),
        },
{
    let ghost raw_phases = raw.phases@;
    let mut candidates = raw.phases;
    let mut phases: Vec<OperatorTalentPhase> = Vec::new();
    while candidates.len() > 0
        invariant
            raw_phases == raw.phases@,
            phases@.len() + candidates@.len() == raw_phases.len(),
            candidates@ == raw_phases.skip(phases@.len() as int),
            forall|i: int|
                0 <= i < phases@.len() ==> talent_phase_matches(
                    #[trigger] phases@[i],
                    raw_phases[i],
                ),
        decreases candidates@.len(),
    {
        let ghost done = phases@.len() as int;
        let c = candidates.remove(0);
        proof {
            assert(c == raw_phases[done]);
            assert(candidates@ =~= raw_phases.skip(done + 1));
        }
        let ghost gc = c;
        let RawTalentCandidate {
            unlock_condition,
            required_potential_rank,
            prefab_key,
            name,
            description,
            range_id,
            blackboard,
        } = c;
        let name = match name {
            Some(n) => n,
            None => {
                return None;
            },
        };
        let description = match description {
            Some(d) => d,
            None => {
                return None;
            },
        };
        let condition = match convert_condition(&unlock_condition) {
            Some(cd) => cd,
            None => {
                return None;
            },
        };
        phases.push(
            OperatorTalentPhase {
                name,
                description: crate::template::strip_tags(description.as_str()),
                condition,
                required_potential: required_potential_rank,
                prefab_key,
                attack_range_id: range_id,
                effects: convert_effects(blackboard),
            },
        );
    }
    proof {
        assert(raw_phases.skip(raw_phases.len() as int) =~= Seq::<RawTalentCandidate>::empty());
        assert forall|i: int|
            0 <= i < raw.phases@.len() implies talent_phase_resolvable(
            #[trigger] raw.phases@[i],
        ) by {
            assert(talent_phase_matches(phases@[i], raw_phases[i]));
        }
    }
    Some(OperatorTalent { phases })
}

/// Whether a potential upgrade carries a raw potential rank, its
/// description stripped of tags.
pub open spec fn potential_matches(p: OperatorPotential, raw: RawPotentialRank) -> bool {
    p.potential_type == raw.potential_type && p.description@ == crate::template::strip_tags_spec(
        raw.description@,
    )
}

/// Converts a raw potential rank.
pub fn convert_potential(raw: RawPotentialRank) -> (r: OperatorPotential)
    ensures
        potential_matches(r, raw),
{
    OperatorPotential {
        potential_type: raw.potential_type,
        description: crate::template::strip_tags(raw.description.as_str()),
    }
}

/// Whether a promotion tier carries a raw tier record, with the outfit
/// reference the tier's slot in the default-outfit record supplies.
pub open spec fn promotion_matches(
    p: OperatorPromotion,
    raw: RawPhase,
    skin_id: Option<String>,
) -> bool {
    &&& p.attack_range_id == raw.range_id
    &&& p.min_attributes == attributes_of_key_frame(raw.key_frame_first)
    &&& p.max_attributes == attributes_of_key_frame(raw.key_frame_last)
    &&& p.max_level == raw.max_level
    &&& p.upgrade_cost.wf()
    &&& p.upgrade_cost@ == items_cost_map(raw.upgrade_cost@)
    &&& p.skin_id == skin_id
}

/// Converts a raw promotion tier, attaching the tier's default outfit
/// reference.
pub fn convert_promotion(raw: RawPhase, skin_id: Option<String>) -> (r: OperatorPromotion)
    ensures
        promotion_matches(r, raw, skin_id),
{
    let ghost graw = raw;
    let ghost gskin = skin_id;
    let RawPhase { range_id, max_level, key_frame_first, key_frame_last, upgrade_cost } = raw;
    OperatorPromotion {
        attack_range_id: range_id,
        min_attributes: convert_key_frame(&key_frame_first),
        max_attributes: convert_key_frame(&key_frame_last),
        max_level,
        upgrade_cost: convert_item_costs(upgrade_cost),
        skin_id,
    }
}

/// The trust bonus curve a character's trust keyframes supply: the second
/// of exactly two keyframes; anything else is the zero curve.
pub open spec fn trust_bonus_of(frames: Option<Vec<RawKeyFrame>>) -> OperatorTrustAttributes {
    match frames {
        Some(v) => if v@.len() == 2 {
            trust_attributes_of_key_frame(v@[1])
        } else {
            OperatorTrustAttributes { max_hp: 0, atk: 0, def: 0 }
        },
        None => OperatorTrustAttributes { max_hp: 0, atk: 0, def: 0 },
    }
}

/// Converts a character's trust keyframes into its bonus curve.
pub fn convert_trust_bonus(frames: Option<Vec<RawKeyFrame>>) -> (r: OperatorTrustAttributes)
    ensures
        r == trust_bonus_of(frames),
{
    match frames {
        Some(v) => {
            if v.len() == 2 {
                convert_trust_key_frame(&v[1])
            } else {
                OperatorTrustAttributes { max_hp: 0, atk: 0, def: 0 }
            }
        },
        None => OperatorTrustAttributes { max_hp: 0, atk: 0, def: 0 },
    }
}

/// The checks an entity must pass before any side table is touched:
/// it is obtainable, its scalar fields map to known domain values, its
/// promotion ladder has a base tier, and its skills and talents resolve.
pub open spec fn entity_pre_keeps(raw: RawCharacter, skills: Map<Seq<char>, RawSkillEntry>) -> bool {
    &&& !raw.is_unobtainable
    &&& raw.display_number is Some
    &&& profession_of(raw.profession) is Some
    &&& sub_profession_of(raw.sub_profession) is Some
    &&& position_of(raw.position) is Some
    &&& raw.phases@.len() >= 1
    &&& forall|i: int|
        0 <= i < raw.skills@.len() ==> skill_ref_resolvable(#[trigger] raw.skills@[i], skills)
    &&& forall|i: int| 0 <= i < raw.talents@.len() ==> talent_resolvable(#[trigger] raw.talents@[i])
}

/// Whether an entity is kept: it passes every check and its archive
/// record exists.
pub open spec fn entity_keeps(
    raw: RawCharacter,
    skills: Map<Seq<char>, RawSkillEntry>,
    handbook: Map<Seq<char>, RawHandbookEntry>,
    id: Seq<char>,
) -> bool {
    entity_pre_keeps(raw, skills) && handbook.contains_key(id)
}

/// The star count of a raw rarity value: one more, capped at the machine
/// limit.
pub open spec fn rarity_of(raw: u8) -> u8 {
    if raw < 255 {
        (raw + 1) as u8
    } else {
        255
    }
}

/// Whether a resolved operator carries a raw character record: identity
/// fields copied, tags mapped, promotion tiers converted with the given
/// default outfit references, and skills, talents and potential resolved.
pub open spec fn operator_core_matches(
    op: Operator,
    id: String,
    raw: RawCharacter,
    skills: Map<Seq<char>, RawSkillEntry>,
    defaults: (Option<String>, Option<String>, Option<String>),
) -> bool {
    &&& op.id == id
    &&& op.name == raw.name
    &&& op.nation_id == raw.nation_id
    &&& op.group_id == raw.group_id
    &&& op.team_id == raw.team_id
    &&& raw.display_number matches Some(d) && op.display_number == d
    &&& op.appellation == raw.appellation
    &&& position_of(raw.position) == Some(op.position)
    &&& profession_of(raw.profession) == Some(op.profession)
    &&& sub_profession_of(raw.sub_profession) == Some(op.sub_profession)
    &&& op.recruitment_tags@ == raw.recruitment_tags@
    &&& op.rarity == rarity_of(raw.rarity)
    &&& op.potential_item_id == raw.potential_item_id
    &&& raw.phases@.len() >= 1
    &&& promotion_matches(op.promotions.base, raw.phases@[0], defaults.0)
    &&& if raw.phases@.len() >= 2 {
        op.promotions.elite1 matches Some(p) && promotion_matches(p, raw.phases@[1], defaults.1)
    } else {
        op.promotions.elite1 is None
    }
    &&& if raw.phases@.len() >= 3 {
        op.promotions.elite2 matches Some(p) && promotion_matches(p, raw.phases@[2], defaults.2)
    } else {
        op.promotions.elite2 is None
    }
    &&& op.potential@.len() == raw.potential_ranks@.len()
    &&& forall|i: int|
        0 <= i < raw.potential_ranks@.len() ==> potential_matches(
            #[trigger] op.potential@[i],
            raw.potential_ranks@[i],
        )
    &&& op.skills@.len() == raw.skills@.len()
    &&& forall|i: int|
        0 <= i < raw.skills@.len() ==> skill_matches(
            #[trigger] op.skills@[i],
            raw.skills@[i],
            skills[raw.skills@[i].id.unwrap()@],
        )
    &&& op.talents@.len() == raw.talents@.len()
    &&& forall|i: int|
        0 <= i < raw.talents@.len() ==> talent_matches(#[trigger] op.talents@[i], raw.talents@[i])
    &&& op.trust_bonus == trust_bonus_of(raw.favor_key_frames)
}

/// Whether an operator's modules are the outcome the module drain owes
/// for its ID list, as the tables stood before the drain.
pub open spec fn operator_modules_match(op: Operator, equips0: RawEquipTable, id: Seq<char>) -> bool {
    if equips0.character_equip@.contains_key(id) {
        let ids = equips0.character_equip@[id]@;
        let rest = if ids.len() >= 1 {
            ids.skip(1)
        } else {
            ids
        };
        let st = drain_modules_st(equips0.equips@, equips0.missions@, rest, 0);
        if st.0 {
            modules_list_matches(op.modules@, equips0, id)
        } else {
            op.modules@.len() == 0
        }
    } else {
        op.modules@.len() == 0
    }
}

/// Every outfit group on the table has a well-formed outfit mapping.
pub open spec fn skin_groups_ok(m: Map<Seq<char>, OperatorSkinGroup>) -> bool {
    forall|k: Seq<char>| #[trigger] m.contains_key(k) ==> m[k].skins.wf()
}

/// Resolves one entity: converts its scalar fields, promotion ladder,
/// skills, talents and potential; takes its outfit group, modules and
/// archive record from their side tables; and reads its base skills.
/// An entity that fails a check is dropped, leaving whatever it had
/// already consumed drained; dropping is a filter, not an error.
#[verifier::rlimit(100)]
pub fn into_operator(
    id: String,
    raw: RawCharacter,
    skills: &Dict<RawSkillEntry>,
    building: &RawBuildingData,
    equips: &mut RawEquipTable,
    handbook: &mut Dict<RawHandbookEntry>,
    skin_groups: &mut Dict<OperatorSkinGroup>,
    mode: StrictnessMode,
) -> (r: Result<Option<Operator>, TemplateError>)
    requires
        skills.wf(),
        skills_values_ok(skills@),
        building.wf(),
        old(equips).wf(),
        old(handbook).wf(),
        old(skin_groups).wf(),
        skin_groups_ok(old(skin_groups)@),
    ensures
        final(equips).wf(),
        final(handbook).wf(),
        final(skin_groups).wf(),
        mode == StrictnessMode::Lenient ==> r is Ok,
        r is Err ==> mode == StrictnessMode::Strict && *final(equips) == *old(equips)
            && *final(handbook) == *old(handbook) && *final(skin_groups) == *old(skin_groups),
        r matches Ok(None) ==> !entity_keeps(raw, skills@, old(handbook)@, id@),
        !entity_pre_keeps(raw, skills@) && r is Ok ==> (r matches Ok(None)) && *final(equips)
            == *old(equips) && *final(handbook) == *old(handbook)
            && *final(skin_groups) == *old(skin_groups),
        entity_pre_keeps(raw, skills@) && r is Ok ==> final(skin_groups)@
            == old(skin_groups)@.remove(id@) && final(handbook)@ == old(handbook)@.remove(id@)
            && (old(equips).character_equip@.contains_key(id@)
            ==> final(equips).character_equip@ == old(equips).character_equip@.remove(id@))
            && (!old(equips).character_equip@.contains_key(id@)
            ==> final(equips).character_equip@ == old(equips).character_equip@
            && final(equips).equips@ == old(equips).equips@
            && final(equips).missions@ == old(equips).missions@),
        r matches Ok(Some(op)) ==> {
            &&& entity_keeps(raw, skills@, old(handbook)@, id@)
            &&& operator_core_matches(
                op,
                id,
                raw,
                skills@,
                if old(skin_groups)@.contains_key(id@) {
                    old(skin_groups)@[id@].default_skins
                } else {
                    (None, None, None)
                },
            )
            &&& op.skins.wf()
            &&& (old(skin_groups)@.contains_key(id@)
                ==> op.skins@ == old(skin_groups)@[id@].skins@)
            &&& (!old(skin_groups)@.contains_key(id@) ==> op.skins@ == Map::<
                Seq<char>,
                OperatorSkin,
            >::empty())
            &&& operator_modules_match(op, *old(equips), id@)
            &&& file_matches(op.file, old(handbook)@[id@])
            &&& (building.chars@.contains_key(id@) ==> op.base_skills@.len() == base_skill_count(
                building.chars@[id@].buffs@,
                building.buffs@,
            ))
            &&& (!building.chars@.contains_key(id@) ==> op.base_skills@.len() == 0)
        },
{
    let ghost gid = id;
    let ghost graw = raw;
    let RawCharacter {
        name,
        potential_item_id,
        nation_id,
        group_id,
        team_id,
        display_number,
        appellation,
        position,
        recruitment_tags,
        is_unobtainable,
        rarity,
        profession,
        sub_profession,
        phases,
        skills: skill_refs,
        talents,
        potential_ranks,
        favor_key_frames,
    } = raw;
    if is_unobtainable {
        return Ok(None);
    }
    let display_number = match display_number {
        Some(d) => d,
        None => {
            return Ok(None);
        },
    };
    let profession = match convert_profession(profession) {
        Some(p) => p,
        None => {
            return Ok(None);
        },
    };
    let sub_profession = match convert_sub_profession(sub_profession) {
        Some(p) => p,
        None => {
            return Ok(None);
        },
    };
    let position = match convert_position(position) {
        Some(p) => p,
        None => {
            return Ok(None);
        },
    };
    if phases.len() == 0 {
        return Ok(None);
    }
    // resolve skills before any table is drained
    let ghost graw_skills = skill_refs@;
    let mut skill_refs = skill_refs;
    let mut resolved_skills: Vec<OperatorSkill> = Vec::new();
    while skill_refs.len() > 0
        invariant
            skills.wf(),
            skills_values_ok(skills@),
            equips.wf(),
            *equips == *old(equips),
            handbook.wf(),
            *handbook == *old(handbook),
            skin_groups.wf(),
            *skin_groups == *old(skin_groups),
            graw == raw,
            graw_skills == graw.skills@,
            resolved_skills@.len() + skill_refs@.len() == graw_skills.len(),
            skill_refs@ == graw_skills.skip(resolved_skills@.len() as int),
            mode == StrictnessMode::Strict || mode == StrictnessMode::Lenient,
            forall|i: int|
                0 <= i < resolved_skills@.len() ==> skill_ref_resolvable(
                    #[trigger] graw_skills[i],
                    skills@,
                ) && skill_matches(
                    resolved_skills@[i],
                    graw_skills[i],
                    skills@[graw_skills[i].id.unwrap()@],
                ),
        decreases skill_refs@.len(),
    {
        let ghost done = resolved_skills@.len() as int;
        let skill_ref = skill_refs.remove(0);
        proof {
            assert(skill_ref == graw_skills[done]);
            assert(skill_refs@ =~= graw_skills.skip(done + 1));
        }
        match convert_skill(skill_ref, skills, mode) {
            Ok(Some(s)) => {
                resolved_skills.push(s);
            },
            Ok(None) => {
                proof {
                    assert(!skill_ref_resolvable(raw.skills@[done], skills@));
                    assert(!entity_pre_keeps(raw, skills@));
                }
                return Ok(None);
            },
            Err(e) => {
                return Err(e);
            },
        }
    }
    proof {
        assert(graw_skills.skip(graw_skills.len() as int) =~= Seq::<RawSkillRef>::empty());
    }
    // resolve talents, also before any drain
    let ghost graw_talents = talents@;
    let mut talents = talents;
    let mut resolved_talents: Vec<OperatorTalent> = Vec::new();
    while talents.len() > 0
        invariant
            equips.wf(),
            *equips == *old(equips),
            handbook.wf(),
            *handbook == *old(handbook),
            skin_groups.wf(),
            *skin_groups == *old(skin_groups),
            graw == raw,
            graw_talents == graw.talents@,
            resolved_talents@.len() + talents@.len() == graw_talents.len(),
            talents@ == graw_talents.skip(resolved_talents@.len() as int),
            forall|i: int|
                0 <= i < resolved_talents@.len() ==> talent_resolvable(#[trigger] graw_talents[i])
                    && talent_matches(resolved_talents@[i], graw_talents[i]),
        decreases talents@.len(),
    {
        let ghost done = resolved_talents@.len() as int;
        let talent = talents.remove(0);
        proof {
            assert(talent == graw_talents[done]);
            assert(talents@ =~= graw_talents.skip(done + 1));
        }
        match convert_talent(talent) {
            Some(t) => {
                resolved_talents.push(t);
            },
            None => {
                proof {
                    assert(!talent_resolvable(raw.talents@[done]));
                    assert(!entity_pre_keeps(raw, skills@));
                }
                return Ok(None);
            },
        }
    }
    proof {
        assert(graw_talents.skip(graw_talents.len() as int) =~= Seq::<RawTalent>::empty());
        assert(entity_pre_keeps(graw, skills@));
    }
    // potential upgrades
    let ghost graw_potential = potential_ranks@;
    let mut potential_ranks = potential_ranks;
    let mut potential: Vec<OperatorPotential> = Vec::new();
    while potential_ranks.len() > 0
        invariant
            graw_potential == graw.potential_ranks@,
            potential@.len() + potential_ranks@.len() == graw_potential.len(),
            potential_ranks@ == graw_potential.skip(potential@.len() as int),
            forall|i: int|
                0 <= i < potential@.len() ==> potential_matches(
                    #[trigger] potential@[i],
                    graw_potential[i],
                ),
        decreases potential_ranks@.len(),
    {
        let ghost done = potential@.len() as int;
        let rank = potential_ranks.remove(0);
        proof {
            assert(rank == graw_potential[done]);
            assert(potential_ranks@ =~= graw_potential.skip(done + 1));
        }
        potential.push(convert_potential(rank));
    }
    proof {
        assert(graw_potential.skip(graw_potential.len() as int) =~= Seq::<RawPotentialRank>::empty());
    }
    // from here on the entity passes every pre-drain check
    let (operator_skins, default_skins) = match take_character_entry(skin_groups, id.as_str()) {
        Some(group) => (group.skins, group.default_skins),
        None => {
            let empty: Dict<OperatorSkin> = Dict::new();
            (empty, (None, None, None))
        },
    };
    proof {
        assert(final(skin_groups)@ =~= old(skin_groups)@.remove(gid@)) by {
            assert(skin_groups@ =~= old(skin_groups)@.remove(gid@));
        }
    }
    let ghost equips_at_call = *equips;
    let modules = match take_operator_modules(equips, id.as_str()) {
        Some(ms) => ms,
        None => Vec::new(),
    };
    proof {
        assert(equips_at_call == *old(equips));
        if equips_at_call.character_equip@.contains_key(gid@) {
            let eids = equips_at_call.character_equip@[gid@]@;
            let erest = if eids.len() >= 1 {
                eids.skip(1)
            } else {
                eids
            };
            let est = drain_modules_st(equips_at_call.equips@, equips_at_call.missions@, erest, 0);
            if est.0 {
                assert(modules_list_matches(modules@, equips_at_call, gid@));
            } else {
                assert(modules@.len() == 0);
            }
        } else {
            assert(modules@.len() == 0);
        }
    }
    let base_skills = get_operator_base_skill(building, id.as_str());
    let file = match take_operator_file(handbook, id.as_str()) {
        Some(f) => f,
        None => {
            proof {
                assert(handbook@ =~= old(handbook)@.remove(gid@));
            }
            return Ok(None);
        },
    };
    let trust_bonus = convert_trust_bonus(favor_key_frames);
    // the promotion ladder: base tier, then up to two elite tiers
    let ghost graw_phases = phases@;
    let mut phases = phases;
    let base_phase = phases.remove(0);
    proof {
        assert(base_phase == graw_phases[0]);
        assert(phases@ =~= graw_phases.skip(1));
    }
    let base = convert_promotion(base_phase, default_skins.0);
    let elite1 = if phases.len() > 0 {
        let p = phases.remove(0);
        proof {
            assert(p == graw_phases[1]);
            assert(phases@ =~= graw_phases.skip(2));
        }
        Some(convert_promotion(p, default_skins.1))
    } else {
        None
    };
    let elite2 = if phases.len() > 0 {
        let p = phases.remove(0);
        proof {
            assert(p == graw_phases[2]);
        }
        Some(convert_promotion(p, default_skins.2))
    } else {
        None
    };
    let rarity: u8 = if rarity < 255 {
        rarity + 1
    } else {
        255
    };
    let op = Operator {
        id,
        name,
        nation_id,
        group_id,
        team_id,
        display_number,
        appellation,
        position,
        recruitment_tags,
        rarity,
        profession,
        sub_profession,
        promotions: OperatorPromotions { base, elite1, elite2 },
        potential_item_id,
        potential,
        skills: resolved_skills,
        talents: resolved_talents,
        modules,
        skins: operator_skins,
        base_skills,
        trust_bonus,
        file,
    };
    proof {
        assert(entity_keeps(graw, skills@, old(handbook)@, gid@));
        let defaults = if old(skin_groups)@.contains_key(gid@) {
            old(skin_groups)@[gid@].default_skins
        } else {
            (None, None, None)
        };
        assert(operator_core_matches(op, gid, graw, skills@, defaults));
        assert(op.skins.wf());
        assert(old(skin_groups)@.contains_key(gid@) ==> op.skins@ == old(skin_groups)@[gid@].skins@);
        assert(!old(skin_groups)@.contains_key(gid@) ==> op.skins@ =~= Map::<Seq<char>, OperatorSkin>::empty());
        assert(operator_modules_match(op, *old(equips), gid@));
        assert(file_matches(op.file, old(handbook)@[gid@]));
    }
    Ok(Some(op))
}

/// The banner a raw banner record stands for.
pub open spec fn banner_of(p: RawGachaPool) -> HeadhuntingBanner {
    HeadhuntingBanner {
        id: p.gacha_pool_id,
        name: p.gacha_pool_name,
        summary: p.gacha_pool_summary,
        index: p.gacha_index,
        open_time: p.open_time,
        close_time: p.end_time,
        item_id: p.data_contract_item_id,
        banner_type: match p.gacha_rule_type {
            RawGachaRuleType::Normal => HeadhuntingBannerType::Normal,
            RawGachaRuleType::Limited => HeadhuntingBannerType::Limited,
            RawGachaRuleType::Linkage => HeadhuntingBannerType::Special,
            RawGachaRuleType::Attain => HeadhuntingBannerType::Special,
        },
    }
}

/// The banners a raw banner list stands for, in list order.
pub open spec fn banners_of(s: Seq<RawGachaPool>) -> Seq<HeadhuntingBanner>
    decreases s.len(),
{
    if s.len() == 0 {
        Seq::empty()
    } else {
        banners_of(s.drop_last()).push(banner_of(s.last()))
    }
}

/// The event a raw activity record stands for, where it names a kind.
pub open spec fn event_of(raw: RawActivityEntry) -> Event {
    Event {
        id: raw.id,
        name: raw.name,
        event_type: match raw.kind {
            Some(RawActivityKind::Branchline) => EventType::Intermezzi,
            Some(RawActivityKind::SideStory) => EventType::SideStory,
            Some(RawActivityKind::MiniStory) => EventType::Vignette,
            None => EventType::Vignette,
        },
        open_time: raw.start_time,
        close_time: raw.end_time,
        close_time_rewards: raw.end_time_rewards,
        is_rerun: raw.is_rerun,
    }
}

/// The events a raw activity table stands for, in table order, records
/// without an event kind passed over.
pub open spec fn events_of(s: Seq<(String, RawActivityEntry)>) -> Seq<Event>
    decreases s.len(),
{
    if s.len() == 0 {
        Seq::empty()
    } else if s.last().1.kind is Some {
        events_of(s.drop_last()).push(event_of(s.last().1))
    } else {
        events_of(s.drop_last())
    }
}

/// The default outfit references an entity's group supplies, or none.
pub open spec fn defaults_of(
    groups0: Map<Seq<char>, OperatorSkinGroup>,
    k: Seq<char>,
) -> (Option<String>, Option<String>, Option<String>) {
    if groups0.contains_key(k) {
        groups0[k].default_skins
    } else {
        (None, None, None)
    }
}

/// Whether an assembled operator under key `k` is owed by the raw tables:
/// its character record exists and was kept, its fields resolve from that
/// record under some tier default outfits, and its archive file carries
/// its own handbook record.
pub open spec fn assembled_operator_ok(
    k: String,
    op: Operator,
    chars0: Seq<(String, RawCharacter)>,
    skills0: Map<Seq<char>, RawSkillEntry>,
    handbook0: Map<Seq<char>, RawHandbookEntry>,
) -> bool {
    exists|cj: int|
        0 <= cj < chars0.len() && (#[trigger] chars0[cj]).0 == k && entity_keeps(
            chars0[cj].1,
            skills0,
            handbook0,
            k@,
        ) && (exists|defaults: (Option<String>, Option<String>, Option<String>)|
            operator_core_matches(op, k, chars0[cj].1, skills0, defaults)) && file_matches(
            op.file,
            handbook0[k@],
        ) && op.skins.wf()
}

/// Assembles the raw tables into one game data snapshot: converts the
/// simple tables, sorts banners and events by open time, and resolves
/// every character, draining the side tables so that no side record is
/// attached to two entities. Dropped entities are a filter; in lenient
/// mode assembly always succeeds.
#[verifier::rlimit(100)]
pub fn assemble(tables: RawTableSet, last_updated: Option<i64>, mode: StrictnessMode) -> (r:
    Result<GameData, TemplateError>)
    requires
        tables.wf(),
        skills_values_ok(tables.skills@),
    ensures
        mode == StrictnessMode::Lenient ==> r is Ok,
        r matches Err(_) ==> mode == StrictnessMode::Strict,
        r matches Ok(g) ==> {
            &&& g.wf()
            &&& g.last_updated == last_updated
            &&& g.items.entry_seq().len() == tables.items.entry_seq().len()
            &&& (forall|i: int|
                0 <= i < tables.items.entry_seq().len() ==> (#[trigger] g.items.entry_seq()[i]).0
                    == tables.items.entry_seq()[i].0 && item_matches(
                    g.items.entry_seq()[i].1,
                    tables.items.entry_seq()[i].1,
                ))
            &&& g.ranges.entry_seq().len() == tables.ranges.entry_seq().len()
            &&& (forall|i: int|
                0 <= i < tables.ranges.entry_seq().len() ==> (
                #[trigger] g.ranges.entry_seq()[i]).0 == tables.ranges.entry_seq()[i].0
                    && range_matches(g.ranges.entry_seq()[i].1, tables.ranges.entry_seq()[i].1))
            &&& g.buildings@.len() == tables.building.rooms.entry_seq().len()
            &&& (forall|i: int|
                0 <= i < g.buildings@.len() ==> building_matches(
                    #[trigger] g.buildings@[i],
                    tables.building.rooms.entry_seq()[i].1,
                ))
            &&& g.recruitment_tags@ == tags_map(tables.gacha.recruit_tags@)
            &&& g.headhunting_banners@.to_multiset() == banners_of(
                tables.gacha.gacha_pools@,
            ).to_multiset()
            &&& g.events@.to_multiset() == events_of(tables.activities.entry_seq()).to_multiset()
            &&& g.alters@.len() == alters_count(tables.character_groups.entry_seq())
            &&& (forall|j: int|
                0 <= j < g.operators.entry_seq().len() ==> assembled_operator_ok(
                    (#[trigger] g.operators.entry_seq()[j]).0,
                    g.operators.entry_seq()[j].1,
                    tables.characters.entry_seq(),
                    tables.skills@,
                    tables.handbook@,
                ))
            &&& (forall|cj: int|
                0 <= cj < tables.characters.entry_seq().len() && entity_keeps(
                    (#[trigger] tables.characters.entry_seq()[cj]).1,
                    tables.skills@,
                    tables.handbook@,
                    tables.characters.entry_seq()[cj].0@,
                ) ==> g.operators@.contains_key(tables.characters.entry_seq()[cj].0@))
        },
{
    let ghost chars0 = tables.characters.entry_seq();
    let ghost skills0 = tables.skills@;
    let ghost handbook0 = tables.handbook@;
    let ghost gtables = tables;
    let RawTableSet {
        activities,
        building,
        character_groups,
        characters,
        equips,
        gacha,
        handbook,
        items,
        ranges,
        skills,
        skins,
    } = tables;
    let alters = convert_alters(character_groups);
    let items = convert_items(items);
    let ranges = convert_ranges(ranges);
    // banners and recruitment tags
    let RawGachaTable { recruit_tags, gacha_pools } = gacha;
    let recruitment_tags = convert_recruit_tags(recruit_tags);
    let ghost pools0 = gacha_pools@;
    let mut gacha_pools = gacha_pools;
    let mut banners: Vec<HeadhuntingBanner> = Vec::new();
    while gacha_pools.len() > 0
        invariant
            banners@.len() + gacha_pools@.len() == pools0.len(),
            gacha_pools@ == pools0.skip(banners@.len() as int),
            banners@ == banners_of(pools0.take(banners@.len() as int)),
        decreases gacha_pools@.len(),
    {
        let ghost done = banners@.len() as int;
        let pool = gacha_pools.remove(0);
        proof {
            assert(pool == pools0[done]);
            assert(gacha_pools@ =~= pools0.skip(done + 1));
            assert(pools0.take(done + 1).drop_last() =~= pools0.take(done));
            assert(pools0.take(done + 1).last() == pools0[done]);
        }
        let b = convert_banner(pool);
        proof {
            assert(b == banner_of(pools0[done]));
        }
        banners.push(b);
        proof {
            assert(banners@ =~= banners_of(pools0.take(done + 1)));
        }
    }
    proof {
        assert(pools0.take(pools0.len() as int) =~= pools0);
    }
    let headhunting_banners = crate::events::sort_banners_by_open_time(banners);
    // events
    let ghost acts0 = gtables.activities.entry_seq();
    proof {
        gtables.activities.lemma_entry_keys_distinct();
    }
    let mut act_entries = activities.into_entries();
    let mut events: Vec<Event> = Vec::new();
    let ghost consumed: int = 0;
    while act_entries.len() > 0
        invariant
            0 <= consumed <= acts0.len(),
            act_entries@ == acts0.skip(consumed),
            events@ == events_of(acts0.take(consumed)),
        decreases act_entries@.len(),
    {
        let (_, act) = act_entries.remove(0);
        proof {
            assert((acts0.skip(consumed))[0] == acts0[consumed]);
            assert(act_entries@ =~= acts0.skip(consumed + 1));
            assert(acts0.take(consumed + 1).drop_last() =~= acts0.take(consumed));
            assert(acts0.take(consumed + 1).last() == acts0[consumed]);
        }
        match convert_event(act) {
            Some(e) => {
                proof {
                    assert(e == event_of(acts0[consumed].1));
                }
                events.push(e);
            },
            None => {},
        }
        proof {
            consumed = consumed + 1;
            assert(events@ =~= events_of(acts0.take(consumed)));
        }
    }
    proof {
        assert(acts0.take(acts0.len() as int) =~= acts0);
    }
    let events = crate::events::sort_events_by_open_time(events);
    // outfit groups
    let mut skin_groups = build_skin_groups(skins);
    let ghost groups0 = skin_groups@;
    // resolve every character
    let mut equips = equips;
    let mut handbook = handbook;
    proof {
        gtables.characters.lemma_entry_keys_distinct();
    }
    let mut char_entries = characters.into_entries();
    let mut operators: Dict<Operator> = Dict::new();
    let ghost processed: int = 0;
    while char_entries.len() > 0
        invariant
            0 <= processed <= chars0.len(),
            char_entries@ == chars0.skip(processed),
            forall|p: int, q: int|
                0 <= p < q < chars0.len() ==> (#[trigger] chars0[p]).0@ != (
                #[trigger] chars0[q]).0@,
            skills.wf(),
            skills@ == skills0,
            skills_values_ok(skills0),
            building.wf(),
            equips.wf(),
            handbook.wf(),
            skin_groups.wf(),
            skin_groups_ok(skin_groups@),
            skin_groups_ok(groups0),
            mode == StrictnessMode::Strict || mode == StrictnessMode::Lenient,
            forall|k: Seq<char>| #[trigger]
                handbook@.contains_key(k) ==> handbook0.contains_key(k) && handbook@[k]
                    == handbook0[k],
            forall|k: Seq<char>| #[trigger]
                skin_groups@.contains_key(k) ==> groups0.contains_key(k) && skin_groups@[k]
                    == groups0[k],
            forall|k: Seq<char>|
                handbook0.contains_key(k) && !(#[trigger] handbook@.contains_key(k)) ==> exists|
                    p: int,
                |
                    0 <= p < processed && (#[trigger] chars0[p]).0@ == k,
            forall|k: Seq<char>|
                groups0.contains_key(k) && !(#[trigger] skin_groups@.contains_key(k)) ==> exists|
                    p: int,
                |
                    0 <= p < processed && (#[trigger] chars0[p]).0@ == k,
            operators.wf(),
            forall|j: int|
                0 <= j < operators.entry_seq().len() ==> exists|p: int|
                    0 <= p < processed && (#[trigger] operators.entry_seq()[j]).0@ == (
                    #[trigger] chars0[p]).0@,
            forall|j: int|
                0 <= j < operators.entry_seq().len() ==> assembled_operator_ok(
                    (#[trigger] operators.entry_seq()[j]).0,
                    operators.entry_seq()[j].1,
                    chars0,
                    skills0,
                    handbook0,
                ),
            forall|p: int|
                0 <= p < processed && entity_keeps(
                    (#[trigger] chars0[p]).1,
                    skills0,
                    handbook0,
                    chars0[p].0@,
                ) ==> operators@.contains_key(chars0[p].0@),
        decreases char_entries@.len(),
    {
        let (char_id, raw_char) = char_entries.remove(0);
        proof {
            assert((chars0.skip(processed))[0] == chars0[processed]);
            assert(char_entries@ =~= chars0.skip(processed + 1));
        }
        let ghost gchar_id = char_id;
        let ghost hb_before = handbook@;
        let ghost sg_before = skin_groups@;
        let op_id = char_id.clone();
        let result = into_operator(
            op_id,
            raw_char,
            &skills,
            &building,
            &mut equips,
            &mut handbook,
            &mut skin_groups,
            mode,
        );
        match result {
            Ok(Some(op)) => {
                proof {
                    assert(!operators.spec_contains(gchar_id@)) by {
                        if operators.spec_contains(gchar_id@) {
                            let j = choose|j: int|
                                0 <= j < operators.entry_seq().len() && operators.entry_seq()[j].0@
                                    == gchar_id@;
                            let p = choose|p: int|
                                0 <= p < processed && operators.entry_seq()[j].0@ == chars0[p].0@;
                            assert(chars0[p].0@ == chars0[processed as int].0@);
                        }
                    }
                    // the entity's own side records were still untouched,
                    // so the drained values are the original ones
                    assert(entity_keeps(chars0[processed as int].1, skills0, hb_before, gchar_id@));
                    assert(hb_before.contains_key(gchar_id@) ==> handbook0.contains_key(gchar_id@)
                        && hb_before[gchar_id@] == handbook0[gchar_id@]);
                    assert(handbook0.contains_key(gchar_id@) ==> hb_before.contains_key(gchar_id@))
                        by {
                        if handbook0.contains_key(gchar_id@) && !hb_before.contains_key(gchar_id@) {
                            let p = choose|p: int|
                                0 <= p < processed && chars0[p].0@ == gchar_id@;
                            assert(chars0[p].0@ == chars0[processed as int].0@);
                        }
                    }
                    assert(groups0.contains_key(gchar_id@) ==> sg_before.contains_key(gchar_id@))
                        by {
                        if groups0.contains_key(gchar_id@) && !sg_before.contains_key(gchar_id@) {
                            let p = choose|p: int|
                                0 <= p < processed && chars0[p].0@ == gchar_id@;
                            assert(chars0[p].0@ == chars0[processed as int].0@);
                        }
                    }
                    assert(assembled_operator_ok(
                        gchar_id,
                        op,
                        chars0,
                        skills0,
                        handbook0,
                    )) by {
                        assert(chars0[processed as int].0 == gchar_id);
                        assert(entity_keeps(
                            chars0[processed as int].1,
                            skills0,
                            handbook0,
                            gchar_id@,
                        ));
                        assert(operator_core_matches(
                            op,
                            gchar_id,
                            chars0[processed as int].1,
                            skills0,
                            defaults_of(sg_before, gchar_id@),
                        ));
                    }
                }
                operators.insert(char_id, op);
            },
            Ok(None) => {
                proof {
                    // the entity was not kept against the tables as they
                    // stood; its own records were still untouched, so it
                    // was not kept against the original tables either
                    if entity_keeps(chars0[processed as int].1, skills0, handbook0, gchar_id@) {
                        if !hb_before.contains_key(gchar_id@) {
                            let p = choose|p: int|
                                0 <= p < processed && chars0[p].0@ == gchar_id@;
                            assert(chars0[p].0@ == chars0[processed as int].0@);
                        }
                        assert(entity_keeps(
                            chars0[processed as int].1,
                            skills0,
                            hb_before,
                            gchar_id@,
                        ));
                        assert(false);
                    }
                }
            },
            Err(e) => {
                return Err(e);
            },
        }
        proof {
            processed = processed + 1;
        }
    }
    // the base rooms, now that base skills no longer need the tables
    let RawBuildingData { rooms, chars: _building_chars, buffs: _building_buffs } = building;
    let buildings = convert_buildings(rooms);
    let game_data = GameData {
        last_updated,
        alters,
        operators,
        items,
        buildings,
        ranges,
        recruitment_tags,
        headhunting_banners,
        events,
    };
    Ok(game_data)
}

/// Slot 0 of an entity's equipment list is never what a resolved module
/// came from: every module in a resolved list was drained from a list
/// slot after the first, and, as long as the list repeats no ID, that
/// slot's key differs from the reserved slot-0 key.
pub proof fn lemma_slot_zero_skipped(ms: Seq<OperatorModule>, equips0: RawEquipTable, id: Seq<char>)
    requires
        modules_list_matches(ms, equips0, id),
        equips0.character_equip@[id]@.len() >= 1,
        forall|p: int, q: int|
            0 <= p < q < equips0.character_equip@[id]@.len()
                ==> (#[trigger] equips0.character_equip@[id]@[p])@ != (
            #[trigger] equips0.character_equip@[id]@[q])@,
    ensures
        forall|j: int|
            0 <= j < ms.len() ==> (#[trigger] equips0.character_equip@[id]@[j + 1])@
                != equips0.character_equip@[id]@[0]@ && equips0.equips@.contains_key(
                equips0.character_equip@[id]@[j + 1]@,
            ) && module_matches(
                ms[j],
                equips0.equips@[equips0.character_equip@[id]@[j + 1]@],
                equips0.missions@,
            ),
{
    let ids = equips0.character_equip@[id]@;
    assert forall|j: int|
        0 <= j < ms.len() implies (#[trigger] ids[j + 1])@ != ids[0]@
            && equips0.equips@.contains_key(ids[j + 1]@) && module_matches(
            ms[j],
            equips0.equips@[ids[j + 1]@],
            equips0.missions@,
        ) by {
        lemma_entries_match_at(ms, ids, equips0.equips@, equips0.missions@, j);
    }
}

/// Every archive record is consumed by exactly one entity: each
/// assembled operator's file carries the record stored under that
/// operator's own key, and no two assembled operators share a key, so no
/// record is ever attached to two entities. Removal itself can also hand
/// a record out only once: after a record is taken, its key is gone from
/// the table.
pub proof fn lemma_side_records_consumed_once(
    operators: Dict<Operator>,
    chars0: Seq<(String, RawCharacter)>,
    skills0: Map<Seq<char>, RawSkillEntry>,
    handbook0: Map<Seq<char>, RawHandbookEntry>,
)
    requires
        operators.wf(),
        forall|j: int|
            0 <= j < operators.entry_seq().len() ==> assembled_operator_ok(
                (#[trigger] operators.entry_seq()[j]).0,
                operators.entry_seq()[j].1,
                chars0,
                skills0,
                handbook0,
            ),
    ensures
        forall|j: int|
            0 <= j < operators.entry_seq().len() ==> handbook0.contains_key(
                (#[trigger] operators.entry_seq()[j]).0@,
            ) && file_matches(
                operators.entry_seq()[j].1.file,
                handbook0[operators.entry_seq()[j].0@],
            ),
        forall|p: int, q: int|
            0 <= p < q < operators.entry_seq().len() ==> (#[trigger] operators.entry_seq()[p]).0@
                != (#[trigger] operators.entry_seq()[q]).0@,
{
    operators.lemma_entry_keys_distinct();
    assert forall|j: int|
        0 <= j < operators.entry_seq().len() implies handbook0.contains_key(
        (#[trigger] operators.entry_seq()[j]).0@,
    ) && file_matches(
        operators.entry_seq()[j].1.file,
        handbook0[operators.entry_seq()[j].0@],
    ) by {
        assert(assembled_operator_ok(
            operators.entry_seq()[j].0,
            operators.entry_seq()[j].1,
            chars0,
            skills0,
            handbook0,
        ));
        let cj = choose|cj: int|
            0 <= cj < chars0.len() && (#[trigger] chars0[cj]).0 == operators.entry_seq()[j].0
                && entity_keeps(chars0[cj].1, skills0, handbook0, operators.entry_seq()[j].0@) && (
            exists|defaults: (Option<String>, Option<String>, Option<String>)|
                operator_core_matches(
                    operators.entry_seq()[j].1,
                    operators.entry_seq()[j].0,
                    chars0[cj].1,
                    skills0,
                    defaults,
                )) && file_matches(
                operators.entry_seq()[j].1.file,
                handbook0[operators.entry_seq()[j].0@],
            ) && operators.entry_seq()[j].1.skins.wf();
    }
}

} // verus!
