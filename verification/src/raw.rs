//! The raw tables, as the decode layer hands them over.
//!
//! Every field is a plain value: strings, integers, fixed-point numbers,
//! lists and identifier-keyed mappings. Enum-like tags are closed raw
//! enums that include the tag values the model does not map; the assembler
//! tolerates those by dropping the entity that carries them.

use vstd::prelude::*;
use crate::base_skills::OperatorBaseSkillCategory;
use crate::buildings::BuildingType;
use crate::dict::Dict;
use crate::fixed::FixedValue;

verus! {

/// A raw promotion-and-level requirement: a phase index and a level.
#[derive(Debug, Clone, Copy, PartialEq, Eq, Structural, Hash)]
pub struct RawCondition {
    pub phase: u32,
    pub level: u32,
}

/// A raw item cost entry: an item ID and a count.
#[derive(Debug)]
pub struct RawItemCost {
    pub item_id: String,
    pub count: u32,
}

/// One numeric key/value pair attached to a text instance.
#[derive(Debug)]
pub struct RawBlackboardEntry {
    pub key: String,
    pub value: FixedValue,
}

/// The attribute snapshot inside a keyframe.
#[derive(Debug, Clone, Copy, PartialEq, Eq, Structural, Hash)]
pub struct RawKeyFrameData {
    pub max_hp: u32,
    pub atk: u32,
    pub def: u32,
    pub magic_resistance: FixedValue,
    pub cost: u32,
    pub block_count: u8,
    pub move_speed: FixedValue,
    pub attack_speed: FixedValue,
    pub base_attack_time: FixedValue,
    pub respawn_time: u32,
    pub hp_recovery_per_sec: FixedValue,
    pub sp_recovery_per_sec: FixedValue,
    pub max_deploy_count: u32,
    pub max_deck_stack_count: u32,
    pub taunt_level: i8,
    pub is_stun_immune: bool,
    pub is_silence_immune: bool,
    pub is_sleep_immune: bool,
    pub is_frozen_immune: bool,
}

/// An attribute snapshot at a specific level, an interpolation endpoint.
#[derive(Debug, Clone, Copy, PartialEq, Eq, Structural, Hash)]
pub struct RawKeyFrame {
    pub level: u32,
    pub data: RawKeyFrameData,
}

/// A raw stance tag.
#[derive(Debug, Clone, Copy, PartialEq, Eq, Structural, Hash)]
pub enum RawPosition {
    Melee,
    Ranged,
    /// Both stances; not mapped to a domain value.
    All,
    /// No stance; not mapped to a domain value.
    NoPosition,
}

/// A raw primary profession tag.
#[derive(Debug, Clone, Copy, PartialEq, Eq, Structural, Hash)]
pub enum RawProfession {
    Caster,
    Medic,
    Vanguard,
    Sniper,
    Specialist,
    Support,
    Tank,
    Guard,
    /// A summoned token; not mapped to a domain value.
    Token,
    /// A trap; not mapped to a domain value.
    Trap,
}

/// A raw sub-profession tag.
#[derive(Debug, Clone, Copy, PartialEq, Eq, Structural, Hash)]
pub enum RawSubProfession {
    BlastCaster,
    ChainCaster,
    CoreCaster,
    MechAccordCaster,
    MysticCaster,
    PhalanxCaster,
    SplashCaster,
    Therapist,
    Medic,
    MultiTargetMedic,
    WanderingMedic,
    StandardBearer,
    Charger,
    Pioneer,
    Tactician,
    Artilleryman,
    Flinger,
    Heavyshooter,
    Marksman,
    Deadeye,
    Spreadshooter,
    Besieger,
    Dollkeeper,
    Executor,
    Geek,
    Hookmaster,
    Merchant,
    PushStroker,
    Ambusher,
    Trapmaster,
    Bard,
    Abjurer,
    Artificer,
    DecelBinder,
    Summoner,
    Hexer,
    ArtsProtector,
    Duelist,
    Fortress,
    Guardian,
    Protector,
    Juggernaut,
    ArtsFighter,
    Centurion,
    Dreadnought,
    Fighter,
    Instructor,
    Liberator,
    Lord,
    Musha,
    Reaper,
    Swordmaster,
    /// Filler tags on non-operator records; not mapped to domain values.
    None1,
    None2,
    NotChar1,
    NotChar2,
}

/// A raw promotion tier: a range reference, the two keyframes, the level
/// cap and the promotion cost.
#[derive(Debug)]
pub struct RawPhase {
    pub range_id: Option<String>,
    pub max_level: u32,
    /// The keyframe at the tier's first level.
    pub key_frame_first: RawKeyFrame,
    /// The keyframe at the tier's last level.
    pub key_frame_last: RawKeyFrame,
    pub upgrade_cost: Vec<RawItemCost>,
}

/// A raw mastery upgrade step.
#[derive(Debug)]
pub struct RawMasteryUpgrade {
    pub unlock_condition: RawCondition,
    pub level_up_time: u32,
    pub level_up_cost: Vec<RawItemCost>,
}

/// A raw reference from a character to a skill, with its mastery steps.
#[derive(Debug)]
pub struct RawSkillRef {
    pub id: Option<String>,
    pub override_prefab_key: Option<String>,
    /// Exactly three mastery steps when present; any other shape counts as
    /// absent.
    pub mastery_upgrades: Option<Vec<RawMasteryUpgrade>>,
    pub unlock_condition: RawCondition,
}

/// A raw talent: its unlockable candidate phases.
#[derive(Debug)]
pub struct RawTalent {
    pub phases: Vec<RawTalentCandidate>,
}

/// A raw talent candidate phase.
#[derive(Debug)]
pub struct RawTalentCandidate {
    pub unlock_condition: RawCondition,
    pub required_potential_rank: u8,
    pub prefab_key: String,
    pub name: Option<String>,
    pub description: Option<String>,
    pub range_id: Option<String>,
    pub blackboard: Vec<RawBlackboardEntry>,
}

/// A raw potential rank.
#[derive(Debug)]
pub struct RawPotentialRank {
    pub potential_type: u32,
    pub description: String,
}

/// A raw character record.
#[derive(Debug)]
pub struct RawCharacter {
    pub name: String,
    pub potential_item_id: Option<String>,
    pub nation_id: Option<String>,
    pub group_id: Option<String>,
    pub team_id: Option<String>,
    pub display_number: Option<String>,
    pub appellation: Option<String>,
    pub position: RawPosition,
    pub recruitment_tags: Vec<String>,
    pub is_unobtainable: bool,
    /// The star count minus one, from 0 to 5, as the raw data states it.
    pub rarity: u8,
    pub profession: RawProfession,
    pub sub_profession: RawSubProfession,
    pub phases: Vec<RawPhase>,
    pub skills: Vec<RawSkillRef>,
    pub talents: Vec<RawTalent>,
    pub potential_ranks: Vec<RawPotentialRank>,
    /// Exactly two trust keyframes when present; any other shape counts as
    /// absent.
    pub favor_key_frames: Option<Vec<RawKeyFrame>>,
}

/// The recharge data of one raw skill level.
#[derive(Debug)]
pub struct RawSpData {
    /// The recovery tag: 1, 2, 4 or 8; other values are unknown.
    pub sp_type: u32,
    pub max_charge_time: u32,
    pub sp_cost: u32,
    pub init_sp: u32,
    pub increment: FixedValue,
}

/// One raw skill level.
#[derive(Debug)]
pub struct RawSkillLevel {
    pub name: String,
    pub range_id: Option<String>,
    pub description: Option<String>,
    /// The activation tag: 0, 1 or 2; other values are unknown.
    pub skill_type: u32,
    pub sp_data: RawSpData,
    pub prefab_key: Option<String>,
    pub duration: FixedValue,
    pub blackboard: Vec<RawBlackboardEntry>,
}

/// A raw skill entry: its level table.
#[derive(Debug)]
pub struct RawSkillEntry {
    pub levels: Vec<RawSkillLevel>,
}

/// A raw module record.
#[derive(Debug)]
pub struct RawEquip {
    pub id: String,
    pub name: String,
    pub description: String,
    /// The unlock phase index.
    pub unlock_phase: u32,
    pub unlock_level: u32,
    /// The unlock threshold in raw trust points.
    pub unlock_trust_points: u32,
    pub mission_ids: Vec<String>,
    pub item_cost: Option<Vec<RawItemCost>>,
}

/// A raw module mission record.
#[derive(Debug)]
pub struct RawEquipMission {
    pub description: String,
    pub sort: u32,
}

/// The raw module tables: module records, mission records, and each
/// character's module ID list.
#[derive(Debug)]
pub struct RawEquipTable {
    pub equips: Dict<RawEquip>,
    pub missions: Dict<RawEquipMission>,
    pub character_equip: Dict<Vec<String>>,
}

impl RawEquipTable {
    /// All three mappings are well formed.
    pub open spec fn wf(self) -> bool {
        self.equips.wf() && self.missions.wf() && self.character_equip.wf()
    }
}

/// A raw base room record.
#[derive(Debug)]
pub struct RawRoom {
    pub building_type: BuildingType,
    pub name: String,
    pub description: Option<String>,
    pub max_count: Option<u32>,
    pub category: String,
    pub size_row: u32,
    pub size_col: u32,
    pub phases: Vec<RawRoomPhase>,
}

/// A raw base room upgrade step.
#[derive(Debug)]
pub struct RawRoomPhase {
    pub unlock_condition: String,
    pub build_cost_items: Vec<RawItemCost>,
    pub build_cost_labor: u32,
    pub electricity: i32,
    pub station_capacity: u32,
    pub manpower_cost: u32,
}

/// A raw record of one character's base buffs.
#[derive(Debug)]
pub struct RawBuildingChar {
    pub buffs: Vec<RawCharBuff>,
}

/// One raw base buff of a character: its unlockable phases.
#[derive(Debug)]
pub struct RawCharBuff {
    pub phases: Vec<RawCharBuffPhase>,
}

/// One unlockable phase of a raw base buff.
#[derive(Debug)]
pub struct RawCharBuffPhase {
    pub buff_id: String,
    pub condition: RawCondition,
}

/// A raw base buff definition.
#[derive(Debug)]
pub struct RawBuff {
    pub name: String,
    pub sort: u32,
    pub category: OperatorBaseSkillCategory,
    pub room_type: BuildingType,
}

/// The raw base tables: rooms, per-character buffs, and buff definitions.
#[derive(Debug)]
pub struct RawBuildingData {
    pub rooms: Dict<RawRoom>,
    pub chars: Dict<RawBuildingChar>,
    pub buffs: Dict<RawBuff>,
}

impl RawBuildingData {
    /// All three mappings are well formed.
    pub open spec fn wf(self) -> bool {
        self.rooms.wf() && self.chars.wf() && self.buffs.wf()
    }
}

/// A raw archive entry of one character.
#[derive(Debug)]
pub struct RawHandbookEntry {
    pub char_id: String,
    pub illustrator_name: String,
    pub story_entries: Vec<RawStoryEntry>,
}

/// One raw story entry of an archive file.
#[derive(Debug)]
pub struct RawStoryEntry {
    pub story_title: String,
    pub story_text: String,
    pub unlock_type: u32,
    /// The unlock parameter as the raw data writes it: empty, a trust
    /// value, a `phase;level` pair, or a character ID.
    pub unlock_param: String,
}

/// A raw outfit record.
#[derive(Debug)]
pub struct RawSkin {
    pub id: String,
    pub character_id: String,
    pub illustration_id: Option<String>,
    pub illustration_live_id: Option<String>,
    pub avatar_id: Option<String>,
    pub portrait_id: Option<String>,
    pub is_paid_skin: bool,
    pub display_skin: RawDisplaySkin,
}

/// The display block of a raw outfit record.
#[derive(Debug)]
pub struct RawDisplaySkin {
    pub name: Option<String>,
    pub model_name: Option<String>,
    pub illustrator: Option<String>,
    pub group: Option<String>,
    pub content: Option<String>,
    pub dialog: Option<String>,
    pub usage: Option<String>,
    pub description: Option<String>,
    pub obtain: Option<String>,
}

/// The default outfit granted at each promotion tier.
#[derive(Debug)]
pub struct RawEvolutions {
    pub elite0: Option<String>,
    pub elite1: Option<String>,
    pub elite2: Option<String>,
}

/// The raw outfit tables: outfit records and the default-outfit map.
#[derive(Debug)]
pub struct RawSkinTable {
    pub character_skins: Dict<RawSkin>,
    pub default_evolve_map: Dict<RawEvolutions>,
}

impl RawSkinTable {
    /// Both mappings are well formed.
    pub open spec fn wf(self) -> bool {
        self.character_skins.wf() && self.default_evolve_map.wf()
    }
}

/// A raw recruitment tag.
#[derive(Debug)]
pub struct RawRecruitTag {
    pub id: u32,
    pub name: String,
}

/// A raw banner rule tag.
#[derive(Debug, Clone, Copy, PartialEq, Eq, Structural, Hash)]
pub enum RawGachaRuleType {
    Normal,
    Limited,
    Linkage,
    Attain,
}

/// A raw banner record.
#[derive(Debug)]
pub struct RawGachaPool {
    pub gacha_pool_id: String,
    pub gacha_index: u32,
    /// When the banner opens, as a unix timestamp in seconds.
    pub open_time: i64,
    /// When the banner closes.
    pub end_time: i64,
    pub gacha_pool_name: String,
    pub gacha_pool_summary: String,
    pub data_contract_item_id: Option<String>,
    pub gacha_rule_type: RawGachaRuleType,
}

/// The raw banner table: recruitment tags and banner records.
#[derive(Debug)]
pub struct RawGachaTable {
    pub recruit_tags: Vec<RawRecruitTag>,
    pub gacha_pools: Vec<RawGachaPool>,
}

/// A raw event kind tag.
#[derive(Debug, Clone, Copy, PartialEq, Eq, Structural, Hash)]
pub enum RawActivityKind {
    Branchline,
    SideStory,
    MiniStory,
}

/// A raw event record.
#[derive(Debug)]
pub struct RawActivityEntry {
    pub id: String,
    /// The display kind, absent on records that are no events.
    pub kind: Option<RawActivityKind>,
    pub name: String,
    pub start_time: i64,
    pub end_time: i64,
    pub end_time_rewards: i64,
    pub is_rerun: bool,
}

/// A raw item classification tag.
#[derive(Debug, Clone, Copy, PartialEq, Eq, Structural, Hash)]
pub enum RawItemClassify {
    Consume,
    Material,
    NoClass,
    Normal,
}

/// A raw item record.
#[derive(Debug)]
pub struct RawItem {
    pub id: String,
    pub name: String,
    pub description: Option<String>,
    pub rarity: u32,
    pub usage: Option<String>,
    pub obtain: Option<String>,
    pub classify: RawItemClassify,
    pub item_type: String,
}

/// One grid tile of a raw attack range, in (row, column) form.
#[derive(Debug, Clone, Copy, PartialEq, Eq, Structural, Hash)]
pub struct RawGridPoint {
    pub row: i32,
    pub col: i32,
}

/// A raw attack range record.
#[derive(Debug)]
pub struct RawRangeEntry {
    pub grids: Vec<RawGridPoint>,
}

/// All raw tables, owned, ready to be consumed by the assembler exactly
/// once.
#[derive(Debug)]
pub struct RawTableSet {
    /// Event records, keyed by activity ID.
    pub activities: Dict<RawActivityEntry>,
    /// The base tables.
    pub building: RawBuildingData,
    /// Alternate-form groups, keyed by group ID.
    pub character_groups: Dict<Vec<String>>,
    /// Character records, keyed by operator ID.
    pub characters: Dict<RawCharacter>,
    /// The module tables.
    pub equips: RawEquipTable,
    /// The banner table.
    pub gacha: RawGachaTable,
    /// Archive entries, keyed by operator ID.
    pub handbook: Dict<RawHandbookEntry>,
    /// Item records, keyed by item ID.
    pub items: Dict<RawItem>,
    /// Attack range records, keyed by range ID.
    pub ranges: Dict<RawRangeEntry>,
    /// Skill level tables, keyed by skill ID.
    pub skills: Dict<RawSkillEntry>,
    /// The outfit tables.
    pub skins: RawSkinTable,
}

impl RawTableSet {
    /// Every mapping in the set is well formed.
    pub open spec fn wf(self) -> bool {
        &&& self.activities.wf()
        &&& self.building.wf()
        &&& self.character_groups.wf()
        &&& self.characters.wf()
        &&& self.equips.wf()
        &&& self.handbook.wf()
        &&& self.items.wf()
        &&& self.ranges.wf()
        &&& self.skills.wf()
        &&& self.skins.wf()
    }
}

} // verus!
