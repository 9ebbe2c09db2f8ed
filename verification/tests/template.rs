//! The template engine: tag stripping, placeholder substitution and
//! numeric formatting.

use ak_data::dict::Dict;
use ak_data::fixed::FixedValue;
use ak_data::template::{
    apply_formatting, apply_templates, build_blackboard, strip_tags, FormattingSuffix,
    StrictnessMode, TemplateError,
};

fn blackboard(pairs: &[(&str, i64)]) -> Dict<FixedValue> {
    let owned: Vec<(String, FixedValue)> = pairs
        .iter()
        .map(|&(k, units)| (k.to_owned(), FixedValue::from_units(units)))
        .collect();
    build_blackboard(owned, FixedValue::from_units(0))
}

#[test]
fn strips_tags() {
    assert_eq!(strip_tags("<@ba.vup>+20%</> damage"), "+20% damage");
    assert_eq!(strip_tags("plain text"), "plain text");
    assert_eq!(strip_tags("<tag.one>a<tag.two>b</>"), "ab");
    assert_eq!(strip_tags("a < b and b > a"), "a < b and b > a");
}

#[test]
fn stripping_stripped_text_is_a_noop() {
    for text in ["<@ba.vup>boost</> x", "no tags at all", "<i>one</>"] {
        let once = strip_tags(text);
        let twice = strip_tags(&once);
        assert_eq!(once, twice);
    }
}

#[test]
fn decimal_percent_rendering() {
    // value 0.20 with the decimal-percent marker renders as a bare 20%
    let v = FixedValue::from_units(2000);
    assert_eq!(apply_formatting(v, false, FormattingSuffix::DecimalPercent), "20%");
    // and a fractional percentage keeps its meaningful digits
    let v = FixedValue::from_units(1234);
    assert_eq!(apply_formatting(v, false, FormattingSuffix::DecimalPercent), "12.34%");
    let v = FixedValue::from_units(1230);
    assert_eq!(apply_formatting(v, false, FormattingSuffix::DecimalPercent), "12.3%");
}

#[test]
fn decimal_rendering_strips_trailing_zeros() {
    // value 1.0 with the decimal marker renders as a whole 1
    let v = FixedValue::from_units(10000);
    assert_eq!(apply_formatting(v, false, FormattingSuffix::Decimal), "1");
    let v = FixedValue::from_units(12000);
    assert_eq!(apply_formatting(v, false, FormattingSuffix::Decimal), "1.2");
    let v = FixedValue::from_units(12500);
    assert_eq!(apply_formatting(v, false, FormattingSuffix::Decimal), "1.25");
}

#[test]
fn negative_flag_negates_before_formatting() {
    let v = FixedValue::from_units(-2000);
    assert_eq!(apply_formatting(v, true, FormattingSuffix::DecimalPercent), "20%");
    let v = FixedValue::from_units(2000);
    assert_eq!(apply_formatting(v, true, FormattingSuffix::DecimalPercent), "-20%");
}

#[test]
fn integer_formats_round_to_nearest() {
    let v = FixedValue::from_units(14999);
    assert_eq!(apply_formatting(v, false, FormattingSuffix::Integer), "1");
    let v = FixedValue::from_units(15000);
    assert_eq!(apply_formatting(v, false, FormattingSuffix::Integer), "2");
    let v = FixedValue::from_units(2000);
    assert_eq!(apply_formatting(v, false, FormattingSuffix::IntegerPercent), "20%");
    let v = FixedValue::from_units(2050);
    assert_eq!(apply_formatting(v, false, FormattingSuffix::IntegerPercent), "21%");
}

#[test]
fn plain_format_renders_exact_value() {
    let v = FixedValue::from_units(10000);
    assert_eq!(apply_formatting(v, false, FormattingSuffix::Plain), "1");
    let v = FixedValue::from_units(12345);
    assert_eq!(apply_formatting(v, false, FormattingSuffix::Plain), "1.2345");
    let v = FixedValue::from_units(-2500);
    assert_eq!(apply_formatting(v, false, FormattingSuffix::Plain), "-0.25");
}

#[test]
fn substitutes_placeholders() {
    let bb = blackboard(&[("atk_scale", 2000)]);
    let out = apply_templates(
        "Deal <@ba.vup>{atk_scale:0%}</> damage",
        &bb,
        StrictnessMode::Lenient,
    )
    .unwrap();
    assert_eq!(out, "Deal 20% damage");
}

#[test]
fn placeholder_keys_are_case_insensitive() {
    // blackboard keys are stored lower-cased, and look-up keys are
    // lower-cased before the search
    let bb = blackboard(&[("ATK_Scale", 15000)]);
    let out = apply_templates("{Atk_Scale:0.0}", &bb, StrictnessMode::Lenient).unwrap();
    assert_eq!(out, "1.5");
}

#[test]
fn duration_is_always_on_the_blackboard() {
    let bb = build_blackboard(Vec::new(), FixedValue::from_units(250000));
    let out = apply_templates("lasts {duration} seconds", &bb, StrictnessMode::Lenient).unwrap();
    assert_eq!(out, "lasts 25 seconds");
}

#[test]
fn unknown_key_is_echoed_upper_cased_when_lenient() {
    let bb = blackboard(&[]);
    let out = apply_templates("{missing_key}", &bb, StrictnessMode::Lenient).unwrap();
    assert_eq!(out, "MISSING_KEY");
}

#[test]
fn unknown_key_fails_when_strict() {
    let bb = blackboard(&[]);
    let err = apply_templates("{missing_key}", &bb, StrictnessMode::Strict).unwrap_err();
    match err {
        TemplateError::UnknownKey(key) => assert_eq!(key, "missing_key"),
    }
}

#[test]
fn text_without_placeholders_passes_through() {
    let bb = blackboard(&[]);
    let out = apply_templates("{not a placeholder}", &bb, StrictnessMode::Strict).unwrap();
    assert_eq!(out, "{not a placeholder}");
}
