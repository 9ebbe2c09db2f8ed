//! The trust bonus curve and the trust-points scale.

use ak_data::game_data::OperatorTrustAttributes;
use ak_data::trust::trust_points_to_percent;

#[test]
fn zero_trust_gives_zero_bonus() {
    let curve = OperatorTrustAttributes { max_hp: 310, atk: 50, def: 20 };
    let bonus = curve.get_trust_level_attributes(0);
    assert_eq!(bonus, OperatorTrustAttributes { max_hp: 0, atk: 0, def: 0 });
}

#[test]
fn full_trust_gives_the_whole_curve() {
    let curve = OperatorTrustAttributes { max_hp: 310, atk: 50, def: 20 };
    assert_eq!(curve.get_trust_level_attributes(200), curve);
    // and the curve does not keep growing past the cap
    assert_eq!(curve.get_trust_level_attributes(500), curve);
}

#[test]
fn trust_bonus_grows_monotonically() {
    let curve = OperatorTrustAttributes { max_hp: 310, atk: 50, def: 20 };
    let mut last = curve.get_trust_level_attributes(0);
    for trust in 1..=210 {
        let bonus = curve.get_trust_level_attributes(trust);
        assert!(bonus.max_hp >= last.max_hp);
        assert!(bonus.atk >= last.atk);
        assert!(bonus.def >= last.def);
        last = bonus;
    }
}

#[test]
fn trust_bonus_midpoint_rounds_to_nearest() {
    let curve = OperatorTrustAttributes { max_hp: 310, atk: 50, def: 20 };
    let bonus = curve.get_trust_level_attributes(100);
    assert_eq!(bonus, OperatorTrustAttributes { max_hp: 155, atk: 25, def: 10 });
    let bonus = curve.get_trust_level_attributes(50);
    // 310 / 4 = 77.5 rounds away from zero to 78
    assert_eq!(bonus.max_hp, 78);
}

#[test]
fn trust_points_scale_buckets() {
    assert_eq!(trust_points_to_percent(0), 0);
    assert_eq!(trust_points_to_percent(7), 0);
    assert_eq!(trust_points_to_percent(8), 1);
    assert_eq!(trust_points_to_percent(100), 7);
    assert_eq!(trust_points_to_percent(2100), 43);
    assert_eq!(trust_points_to_percent(10069), 99);
    assert_eq!(trust_points_to_percent(10070), 100);
    assert_eq!(trust_points_to_percent(10224), 100);
    assert_eq!(trust_points_to_percent(10225), 101);
    assert_eq!(trust_points_to_percent(25569), 199);
    assert_eq!(trust_points_to_percent(25570), 200);
    assert_eq!(trust_points_to_percent(u32::MAX), 200);
}
