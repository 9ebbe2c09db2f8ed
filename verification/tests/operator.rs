//! The promotion ordering and the attribute interpolation, held against
//! numbers pulled from the game.

use ak_data::game_data::{
    FixedValue, ItemsCost, OperatorPromotion, OperatorPromotionAttributes, OperatorPromotions,
    Promotion, PromotionAndLevel,
};

fn key_frame(level: u32, max_hp: u32, atk: u32, def: u32) -> OperatorPromotionAttributes {
    OperatorPromotionAttributes {
        level,
        max_hp,
        atk,
        def,
        magic_resistance: FixedValue::from_units(0),
        deployment_cost: 10,
        block_count: 1,
        move_speed: FixedValue::from_units(10000),
        attack_speed: FixedValue::from_units(1000000),
        base_attack_time: FixedValue::from_units(13000),
        redeploy_time: 70,
        hp_recovery_per_sec: FixedValue::from_units(0),
        sp_recovery_per_sec: FixedValue::from_units(10000),
        max_deploy_count: 1,
        max_deck_stack_count: 0,
        taunt_level: 0,
        is_stun_immune: false,
        is_silence_immune: false,
        is_sleep_immune: false,
        is_frozen_immune: false,
    }
}

fn promotion(
    min: OperatorPromotionAttributes,
    max: OperatorPromotionAttributes,
    max_level: u32,
) -> OperatorPromotion {
    OperatorPromotion {
        attack_range_id: None,
        min_attributes: min,
        max_attributes: max,
        max_level,
        upgrade_cost: ItemsCost::new(),
        skin_id: None,
    }
}

#[test]
fn operator_promotion_attributes() {
    // tests that `OperatorPromotion::get_level_attributes` works properly
    // by comparing its results to numbers pulled from the game

    fn test_sample(operator_promotions: OperatorPromotions, data: &[(Promotion, u32, u32, u32, u32)]) {
        for &(promotion, level, max_hp, atk, def) in data {
            let operator_promotion = operator_promotions.get(promotion).unwrap();
            let attributes = operator_promotion.get_level_attributes(level);
            assert_eq!(attributes.max_hp, max_hp);
            assert_eq!(attributes.atk, atk);
            assert_eq!(attributes.def, def);
        }
    }

    // a sample with a single base tier
    test_sample(
        OperatorPromotions {
            base: promotion(key_frame(1, 571, 238, 36), key_frame(30, 952, 340, 62), 30),
            elite1: None,
            elite2: None,
        },
        &[
            (Promotion::Base, 1, 571, 238, 36),
            (Promotion::Base, 15, 755, 287, 49),
            (Promotion::Base, 30, 952, 340, 62),
        ],
    );

    // a sample with one elite tier
    test_sample(
        OperatorPromotions {
            base: promotion(key_frame(1, 1395, 396, 83), key_frame(40, 1993, 583, 119), 40),
            elite1: Some(promotion(
                key_frame(1, 1993, 583, 119),
                key_frame(55, 2745, 738, 155),
                55,
            )),
            elite2: None,
        },
        &[
            (Promotion::Base, 1, 1395, 396, 83),
            (Promotion::Base, 15, 1610, 463, 96),
            (Promotion::Base, 25, 1763, 511, 105),
            (Promotion::Base, 40, 1993, 583, 119),
            (Promotion::Elite1, 1, 1993, 583, 119),
            (Promotion::Elite1, 15, 2188, 623, 128),
            (Promotion::Elite1, 35, 2466, 681, 142),
            (Promotion::Elite1, 55, 2745, 738, 155),
        ],
    );

    // a sample with a full three-tier ladder
    test_sample(
        OperatorPromotions {
            base: promotion(key_frame(1, 949, 272, 154), key_frame(45, 1356, 400, 211), 45),
            elite1: Some(promotion(
                key_frame(1, 1356, 400, 211),
                key_frame(60, 1785, 534, 268),
                60,
            )),
            elite2: Some(promotion(
                key_frame(1, 1785, 534, 268),
                key_frame(70, 2260, 660, 323),
                70,
            )),
        },
        &[
            (Promotion::Base, 1, 949, 272, 154),
            (Promotion::Base, 20, 1125, 327, 179),
            (Promotion::Base, 45, 1356, 400, 211),
            (Promotion::Elite1, 1, 1356, 400, 211),
            (Promotion::Elite1, 20, 1494, 443, 229),
            (Promotion::Elite1, 40, 1640, 489, 249),
            (Promotion::Elite1, 60, 1785, 534, 268),
            (Promotion::Elite2, 1, 1785, 534, 268),
            (Promotion::Elite2, 20, 1916, 569, 283),
            (Promotion::Elite2, 50, 2122, 623, 307),
            (Promotion::Elite2, 70, 2260, 660, 323),
        ],
    );
}

#[test]
fn promotion_and_level_ordering() {
    let sample = [
        PromotionAndLevel { promotion: Promotion::Base, level: 1 },
        PromotionAndLevel { promotion: Promotion::Base, level: 30 },
        PromotionAndLevel { promotion: Promotion::Elite1, level: 1 },
        PromotionAndLevel { promotion: Promotion::Elite1, level: 45 },
        PromotionAndLevel { promotion: Promotion::Elite1, level: 60 },
        PromotionAndLevel { promotion: Promotion::Elite2, level: 1 },
        PromotionAndLevel { promotion: Promotion::Elite2, level: 75 },
    ];

    for slice in sample.windows(2) {
        if let [a, b] = slice {
            assert!(a < b);
        }
    }
}

#[test]
fn tier_boundary_is_continuous() {
    // the last level of one tier computes the same health, attack and
    // defense as the first level of the next, when the keyframes repeat
    let prev = promotion(key_frame(1, 1395, 396, 83), key_frame(40, 1993, 583, 119), 40);
    let next = promotion(key_frame(1, 1993, 583, 119), key_frame(55, 2745, 738, 155), 55);
    let at_prev_max = prev.get_level_attributes(40);
    let at_next_min = next.get_level_attributes(1);
    assert_eq!(at_prev_max.max_hp, at_next_min.max_hp);
    assert_eq!(at_prev_max.atk, at_next_min.atk);
    assert_eq!(at_prev_max.def, at_next_min.def);
}

#[test]
fn level_is_clamped_to_the_keyframe_band() {
    let p = promotion(key_frame(1, 571, 238, 36), key_frame(30, 952, 340, 62), 30);
    let below = p.get_level_attributes(0);
    assert_eq!(below.max_hp, 571);
    let above = p.get_level_attributes(99);
    assert_eq!(above.max_hp, 952);
}
