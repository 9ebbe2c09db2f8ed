//! Region names and their parsing.

use std::str::FromStr;

use ak_data::{ParseRegionError, Region};

#[test]
fn region_round_trips_through_its_name() {
    for region in [Region::EnUS, Region::JaJP, Region::KoKR, Region::ZhCN, Region::ZhTW] {
        assert_eq!(Region::from_str(region.to_str()), Ok(region));
    }
}

#[test]
fn unknown_region_name_is_refused() {
    assert_eq!(Region::from_str("xx_XX"), Err(ParseRegionError));
    assert!(ParseRegionError.message().contains("en_US"));
}

#[test]
fn the_default_region_is_en_us() {
    assert_eq!(Region::default(), Region::EnUS);
}
