//! End-to-end assembly of a small raw table set.

use ak_data::assemble::assemble;
use ak_data::dict::Dict;
use ak_data::fixed::FixedValue;
use ak_data::game_data::{EventType, ItemClass, Position, Profession, SubProfession, Tense};
use ak_data::raw::{
    RawActivityEntry, RawActivityKind, RawBlackboardEntry, RawBuff, RawBuildingChar,
    RawBuildingData, RawCharBuff, RawCharBuffPhase, RawCharacter, RawCondition, RawDisplaySkin,
    RawEquip, RawEquipMission, RawEquipTable, RawEvolutions, RawGachaPool, RawGachaRuleType,
    RawGachaTable, RawGridPoint, RawHandbookEntry, RawItem, RawItemClassify, RawItemCost,
    RawKeyFrame, RawKeyFrameData, RawPhase, RawPosition, RawPotentialRank, RawProfession,
    RawRangeEntry, RawSkillEntry, RawSkillLevel, RawSkillRef, RawSkinTable, RawSpData,
    RawStoryEntry, RawSubProfession, RawTableSet, RawTalent, RawTalentCandidate,
};
use ak_data::template::StrictnessMode;

fn key_frame(level: u32, max_hp: u32, atk: u32, def: u32) -> RawKeyFrame {
    RawKeyFrame {
        level,
        data: RawKeyFrameData {
            max_hp,
            atk,
            def,
            magic_resistance: FixedValue::from_units(0),
            cost: 12,
            block_count: 2,
            move_speed: FixedValue::from_units(10000),
            attack_speed: FixedValue::from_units(1000000),
            base_attack_time: FixedValue::from_units(12000),
            respawn_time: 70,
            hp_recovery_per_sec: FixedValue::from_units(0),
            sp_recovery_per_sec: FixedValue::from_units(10000),
            max_deploy_count: 1,
            max_deck_stack_count: 0,
            taunt_level: 0,
            is_stun_immune: false,
            is_silence_immune: false,
            is_sleep_immune: false,
            is_frozen_immune: false,
        },
    }
}

fn skill_level(name: &str, description: Option<&str>, duration_units: i64) -> RawSkillLevel {
    RawSkillLevel {
        name: name.to_owned(),
        range_id: None,
        description: description.map(str::to_owned),
        skill_type: 1,
        sp_data: RawSpData {
            sp_type: 1,
            max_charge_time: 1,
            sp_cost: 30,
            init_sp: 10,
            increment: FixedValue::from_units(10000),
        },
        prefab_key: None,
        duration: FixedValue::from_units(duration_units),
        blackboard: vec![RawBlackboardEntry {
            key: "atk_scale".to_owned(),
            value: FixedValue::from_units(21000),
        }],
    }
}

fn character(name: &str, obtainable: bool) -> RawCharacter {
    RawCharacter {
        name: name.to_owned(),
        potential_item_id: Some("p_item".to_owned()),
        nation_id: Some("rhodes".to_owned()),
        group_id: None,
        team_id: None,
        display_number: Some("R001".to_owned()),
        appellation: None,
        position: RawPosition::Melee,
        recruitment_tags: vec!["Guard".to_owned(), "DPS".to_owned()],
        is_unobtainable: !obtainable,
        rarity: 3,
        profession: RawProfession::Guard,
        sub_profession: RawSubProfession::Lord,
        phases: vec![
            RawPhase {
                range_id: Some("1-1".to_owned()),
                max_level: 45,
                key_frame_first: key_frame(1, 949, 272, 154),
                key_frame_last: key_frame(45, 1356, 400, 211),
                upgrade_cost: Vec::new(),
            },
            RawPhase {
                range_id: Some("1-1".to_owned()),
                max_level: 60,
                key_frame_first: key_frame(1, 1356, 400, 211),
                key_frame_last: key_frame(60, 1785, 534, 268),
                upgrade_cost: vec![RawItemCost { item_id: "gold".to_owned(), count: 20000 }],
            },
        ],
        skills: vec![RawSkillRef {
            id: Some("skill_a".to_owned()),
            override_prefab_key: None,
            mastery_upgrades: None,
            unlock_condition: RawCondition { phase: 0, level: 1 },
        }],
        talents: vec![RawTalent {
            phases: vec![RawTalentCandidate {
                unlock_condition: RawCondition { phase: 1, level: 1 },
                required_potential_rank: 0,
                prefab_key: "1".to_owned(),
                name: Some("Resolve".to_owned()),
                description: Some("<@ba.talent>gains strength</>".to_owned()),
                range_id: None,
                blackboard: Vec::new(),
            }],
        }],
        potential_ranks: vec![RawPotentialRank {
            potential_type: 0,
            description: "<@ba.pot>cost -1</>".to_owned(),
        }],
        favor_key_frames: Some(vec![key_frame(0, 0, 0, 0), key_frame(100, 310, 50, 0)]),
    }
}

fn handbook_entry(id: &str) -> RawHandbookEntry {
    RawHandbookEntry {
        char_id: id.to_owned(),
        illustrator_name: "someone".to_owned(),
        story_entries: vec![RawStoryEntry {
            story_title: "Basic Info".to_owned(),
            story_text: "[Gender] Female\n[Combat Experience] None".to_owned(),
            unlock_type: 0,
            unlock_param: String::new(),
        }],
    }
}

fn sample_tables() -> RawTableSet {
    let mut skills = Dict::new();
    skills.insert(
        "skill_a".to_owned(),
        RawSkillEntry {
            levels: (1..=7)
                .map(|_| {
                    skill_level(
                        "Strike",
                        Some("Deal {atk_scale:0%} damage for {duration} seconds"),
                        50000,
                    )
                })
                .collect(),
        },
    );

    let mut characters = Dict::new();
    characters.insert("char_a".to_owned(), character("Alpha", true));
    characters.insert("char_b".to_owned(), character("Beta", false));
    characters.insert("char_c".to_owned(), character("Gamma", true));

    let mut handbook = Dict::new();
    handbook.insert("char_a".to_owned(), handbook_entry("char_a"));
    // char_c has no handbook entry and is dropped during assembly

    let mut equips = Dict::new();
    equips.insert(
        "mod_default".to_owned(),
        RawEquip {
            id: "mod_default".to_owned(),
            name: "Default".to_owned(),
            description: "the reserved default module".to_owned(),
            unlock_phase: 0,
            unlock_level: 1,
            unlock_trust_points: 0,
            mission_ids: Vec::new(),
            item_cost: None,
        },
    );
    equips.insert(
        "mod_x".to_owned(),
        RawEquip {
            id: "mod_x".to_owned(),
            name: "Module X".to_owned(),
            description: "a real module".to_owned(),
            unlock_phase: 2,
            unlock_level: 40,
            unlock_trust_points: 2100,
            mission_ids: vec!["mission_1".to_owned()],
            item_cost: Some(vec![RawItemCost { item_id: "gold".to_owned(), count: 40000 }]),
        },
    );
    let mut missions = Dict::new();
    missions.insert(
        "mission_1".to_owned(),
        RawEquipMission { description: "clear a stage".to_owned(), sort: 1 },
    );
    let mut character_equip = Dict::new();
    character_equip.insert(
        "char_a".to_owned(),
        vec!["mod_default".to_owned(), "mod_x".to_owned()],
    );

    let mut rooms = Dict::new();
    rooms.insert(
        "control".to_owned(),
        ak_data::raw::RawRoom {
            building_type: ak_data::game_data::BuildingType::ControlCenter,
            name: "Control Center".to_owned(),
            description: None,
            max_count: Some(1),
            category: "CONTROL".to_owned(),
            size_row: 2,
            size_col: 3,
            phases: vec![ak_data::raw::RawRoomPhase {
                unlock_condition: "none".to_owned(),
                build_cost_items: Vec::new(),
                build_cost_labor: 0,
                electricity: -10,
                station_capacity: 5,
                manpower_cost: 0,
            }],
        },
    );
    let mut building_chars = Dict::new();
    building_chars.insert(
        "char_a".to_owned(),
        RawBuildingChar {
            buffs: vec![RawCharBuff {
                phases: vec![RawCharBuffPhase {
                    buff_id: "buff_1".to_owned(),
                    condition: RawCondition { phase: 0, level: 1 },
                }],
            }],
        },
    );
    let mut buffs = Dict::new();
    buffs.insert(
        "buff_1".to_owned(),
        RawBuff {
            name: "Trade Boost".to_owned(),
            sort: 1,
            category: ak_data::game_data::OperatorBaseSkillCategory::Output,
            room_type: ak_data::game_data::BuildingType::TradingPost,
        },
    );

    let mut items = Dict::new();
    items.insert(
        "gold".to_owned(),
        RawItem {
            id: "gold".to_owned(),
            name: "LMD".to_owned(),
            description: None,
            rarity: 4,
            usage: None,
            obtain: None,
            classify: RawItemClassify::Normal,
            item_type: "GOLD".to_owned(),
        },
    );

    let mut ranges = Dict::new();
    ranges.insert(
        "1-1".to_owned(),
        RawRangeEntry {
            grids: vec![RawGridPoint { row: 0, col: 0 }, RawGridPoint { row: 0, col: 1 }],
        },
    );

    let mut activities = Dict::new();
    activities.insert(
        "act_late".to_owned(),
        RawActivityEntry {
            id: "act_late".to_owned(),
            kind: Some(RawActivityKind::SideStory),
            name: "Later Event".to_owned(),
            start_time: 2000,
            end_time: 3000,
            end_time_rewards: 3500,
            is_rerun: false,
        },
    );
    activities.insert(
        "act_early".to_owned(),
        RawActivityEntry {
            id: "act_early".to_owned(),
            kind: Some(RawActivityKind::Branchline),
            name: "Earlier Event".to_owned(),
            start_time: 1000,
            end_time: 1500,
            end_time_rewards: 1800,
            is_rerun: false,
        },
    );
    activities.insert(
        "act_none".to_owned(),
        RawActivityEntry {
            id: "act_none".to_owned(),
            kind: None,
            name: "Not An Event".to_owned(),
            start_time: 0,
            end_time: 0,
            end_time_rewards: 0,
            is_rerun: false,
        },
    );

    let mut character_groups = Dict::new();
    character_groups.insert(
        "group_a".to_owned(),
        vec!["char_a".to_owned(), "char_a_alter".to_owned()],
    );
    character_groups.insert("group_single".to_owned(), vec!["char_solo".to_owned()]);

    let mut character_skins = Dict::new();
    character_skins.insert(
        "char_a#1".to_owned(),
        ak_data::raw::RawSkin {
            id: "char_a#1".to_owned(),
            character_id: "char_a".to_owned(),
            illustration_id: Some("illust_1".to_owned()),
            illustration_live_id: None,
            avatar_id: Some("avatar_1".to_owned()),
            portrait_id: Some("portrait_1".to_owned()),
            is_paid_skin: false,
            display_skin: RawDisplaySkin {
                name: None,
                model_name: Some("Alpha".to_owned()),
                illustrator: Some("someone".to_owned()),
                group: Some("DEFAULT".to_owned()),
                content: Some("<i>default look</>".to_owned()),
                dialog: None,
                usage: None,
                description: None,
                obtain: None,
            },
        },
    );
    let mut default_evolve_map = Dict::new();
    default_evolve_map.insert(
        "char_a".to_owned(),
        RawEvolutions {
            elite0: Some("char_a#1".to_owned()),
            elite1: None,
            elite2: None,
        },
    );

    RawTableSet {
        activities,
        building: RawBuildingData { rooms, chars: building_chars, buffs },
        character_groups,
        characters,
        equips: RawEquipTable { equips, missions, character_equip },
        gacha: RawGachaTable {
            recruit_tags: vec![
                ak_data::raw::RawRecruitTag { id: 1, name: "Guard".to_owned() },
                ak_data::raw::RawRecruitTag { id: 9, name: "DPS".to_owned() },
            ],
            gacha_pools: vec![
                RawGachaPool {
                    gacha_pool_id: "pool_late".to_owned(),
                    gacha_index: 2,
                    open_time: 5000,
                    end_time: 6000,
                    gacha_pool_name: "Later Banner".to_owned(),
                    gacha_pool_summary: "closes later".to_owned(),
                    data_contract_item_id: None,
                    gacha_rule_type: RawGachaRuleType::Limited,
                },
                RawGachaPool {
                    gacha_pool_id: "pool_early".to_owned(),
                    gacha_index: 1,
                    open_time: 4000,
                    end_time: 4500,
                    gacha_pool_name: "Earlier Banner".to_owned(),
                    gacha_pool_summary: "closes sooner".to_owned(),
                    data_contract_item_id: None,
                    gacha_rule_type: RawGachaRuleType::Normal,
                },
            ],
        },
        handbook,
        items,
        ranges,
        skills,
        skins: RawSkinTable { character_skins, default_evolve_map },
    }
}

#[test]
fn assembles_the_sample_tables() {
    let game_data = assemble(sample_tables(), Some(1700000000), StrictnessMode::Lenient).unwrap();

    // char_b is unobtainable and char_c has no handbook entry: only
    // char_a is kept
    assert_eq!(game_data.operators.len(), 1);
    let op = game_data.operators.get("char_a").expect("char_a assembled");
    assert_eq!(op.name, "Alpha");
    assert_eq!(op.display_number, "R001");
    assert_eq!(op.rarity, 4);
    assert_eq!(op.position, Position::Melee);
    assert_eq!(op.profession, Profession::Guard);
    assert_eq!(op.sub_profession, SubProfession::Lord);
    assert!(game_data.operators.get("char_b").is_none());
    assert!(game_data.operators.get("char_c").is_none());

    // the skill resolved with its seven levels and a rendered description
    assert_eq!(op.skills.len(), 1);
    let skill = &op.skills[0];
    assert_eq!(skill.name, "Strike");
    assert_eq!(skill.levels.len(), 7);
    assert_eq!(
        skill.levels[0].description.as_deref(),
        Some("Deal 210% damage for 5 seconds"),
    );
    assert!(skill.mastery.is_none());

    // the talent resolved with its description stripped
    assert_eq!(op.talents.len(), 1);
    assert_eq!(op.talents[0].phases[0].description, "gains strength");
    assert_eq!(op.potential[0].description, "cost -1");

    // the reserved slot 0 module is skipped; the real one resolved
    assert_eq!(op.modules.len(), 1);
    assert_eq!(op.modules[0].id, "mod_x");
    assert_eq!(op.modules[0].required_trust, 43);
    assert_eq!(op.modules[0].missions.len(), 1);

    // the base skill resolved through the buff table
    assert_eq!(op.base_skills.len(), 1);
    assert_eq!(op.base_skills[0].phases[0].name, "Trade Boost");

    // the archive file was taken from the handbook table
    assert_eq!(op.file.operator_id, "char_a");
    let gender = op.file.entries[0].find_line("Gender");
    assert_eq!(gender.as_deref(), Some("Female"));
    assert_eq!(op.file.entries[0].find_line("Missing"), None);

    // the trust bonus curve came from the second keyframe
    assert_eq!(op.trust_bonus.max_hp, 310);
    assert_eq!(op.trust_bonus.atk, 50);

    // the outfit group was attached
    assert_eq!(op.skins.len(), 1);
    assert!(op.skins.get("char_a#1").is_some());
    assert_eq!(op.promotions.base.skin_id.as_deref(), Some("char_a#1"));

    // attributes at a state, trust bonus included
    let attrs = op
        .get_attributes(
            ak_data::game_data::PromotionAndLevel {
                promotion: ak_data::game_data::Promotion::Base,
                level: 20,
            },
            100,
        )
        .unwrap();
    assert_eq!(attrs.max_hp, 1125 + 155);
    assert_eq!(attrs.atk, 327 + 25);

    // items, ranges, buildings, tags
    assert_eq!(game_data.items.len(), 1);
    let item = game_data.items.get("gold").unwrap();
    assert_eq!(item.item_class, ItemClass::BasicItem);
    assert_eq!(game_data.ranges.len(), 1);
    assert!(game_data.ranges.get("1-1").unwrap().contains(
        ak_data::game_data::GridPoint { x: 1, y: 0 },
    ));
    assert_eq!(game_data.buildings.len(), 1);
    assert_eq!(game_data.buildings[0].size, (3, 2));
    assert_eq!(game_data.recruitment_tags.get("Guard"), Some(&1));
    let tag_ids = op.iter_recruitment_tags(&game_data.recruitment_tags);
    assert_eq!(tag_ids, vec![1, 9]);

    // banners and events sorted ascending by open time
    assert_eq!(game_data.headhunting_banners.len(), 2);
    assert_eq!(game_data.headhunting_banners[0].id, "pool_early");
    assert_eq!(game_data.headhunting_banners[1].id, "pool_late");
    assert_eq!(game_data.events.len(), 2);
    assert_eq!(game_data.events[0].id, "act_early");
    assert_eq!(game_data.events[0].event_type, EventType::Intermezzi);
    assert_eq!(game_data.events[1].id, "act_late");

    // tense filters
    let current = game_data.iter_events(1200, Tense::Current);
    assert_eq!(current.len(), 1);
    assert_eq!(current[0].id, "act_early");
    let future = game_data.iter_banners(3000, Tense::Future);
    assert_eq!(future.len(), 2);

    // alternate forms: only the two-ID group becomes a pair
    assert_eq!(game_data.alters.len(), 1);
    assert_eq!(game_data.get_alter_for("char_a"), Some("char_a_alter"));
    assert_eq!(game_data.get_alter_for("char_a_alter"), Some("char_a"));
    assert_eq!(game_data.get_alter_for("char_solo"), None);

    // searching by name, case-insensitively
    let found = game_data.find_operator("ALPHA").unwrap();
    assert_eq!(found.id, "char_a");
    assert!(game_data.find_operator("beta").is_none());
    assert!(game_data.find_item("lmd").is_some());

    // snapshot freshness
    assert!(game_data.is_outdated(1700000001));
    assert!(!game_data.is_outdated(1700000000));
}

#[test]
fn strict_mode_reports_unknown_template_keys() {
    let mut tables = sample_tables();
    // swap in a skill description naming a key no blackboard holds
    let mut skills = Dict::new();
    skills.insert(
        "skill_a".to_owned(),
        RawSkillEntry {
            levels: (0..7).map(|_| skill_level("Strike", Some("{no_such_key}"), 0)).collect(),
        },
    );
    tables.skills = skills;
    assert!(assemble(tables, None, StrictnessMode::Strict).is_err());

    // the same tables assemble fine leniently, echoing the key
    let mut tables = sample_tables();
    let mut skills = Dict::new();
    skills.insert(
        "skill_a".to_owned(),
        RawSkillEntry {
            levels: (0..7).map(|_| skill_level("Strike", Some("{no_such_key}"), 0)).collect(),
        },
    );
    tables.skills = skills;
    let game_data = assemble(tables, None, StrictnessMode::Lenient).unwrap();
    let op = game_data.operators.get("char_a").unwrap();
    assert_eq!(op.skills[0].levels[0].description.as_deref(), Some("NO_SUCH_KEY"));
}

#[test]
fn entity_with_short_skill_table_is_dropped() {
    let mut tables = sample_tables();
    let mut skills = Dict::new();
    skills.insert(
        "skill_a".to_owned(),
        RawSkillEntry { levels: (0..5).map(|_| skill_level("Strike", None, 0)).collect() },
    );
    tables.skills = skills;
    let game_data = assemble(tables, None, StrictnessMode::Lenient).unwrap();
    assert!(game_data.operators.get("char_a").is_none());
}
