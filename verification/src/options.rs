//! Configuration values shared with the data-fetching layer.

use vstd::prelude::*;

verus! {

/// The error given for a string naming no known region.
#[derive(Debug, Clone, Copy, PartialEq, Eq, Structural)]
pub struct ParseRegionError;

impl ParseRegionError {
    /// What went wrong, in words.
    pub fn message(&self) -> (r: &'static str)
        ensures
            r@ == "expected one of \"en_US\", \"ja_JP\", \"ko_KR\", \"zh_CN\", or \"zh_TW\""@,
    {
        "expected one of \"en_US\", \"ja_JP\", \"ko_KR\", \"zh_CN\", or \"zh_TW\""
    }
}

/// Which region folder game data is pulled from.
#[derive(Debug, Clone, Copy, PartialEq, Eq, Structural, Hash)]
pub enum Region {
    /// `en_US`
    EnUS,
    /// `ja_JP`
    JaJP,
    /// `ko_KR`
    KoKR,
    /// `zh_CN`
    ZhCN,
    /// `zh_TW`
    ZhTW,
}

impl Region {
    /// The folder name of each region.
    pub open spec fn spec_str(self) -> Seq<char> {
        match self {
            Region::EnUS => "en_US"@,
            Region::JaJP => "ja_JP"@,
            Region::KoKR => "ko_KR"@,
            Region::ZhCN => "zh_CN"@,
            Region::ZhTW => "zh_TW"@,
        }
    }

    /// The folder name of this region.
    pub fn to_str(self) -> (r: &'static str)
        ensures
            r@ == self.spec_str(),
    {
        match self {
            Region::EnUS => "en_US",
            Region::JaJP => "ja_JP",
            Region::KoKR => "ko_KR",
            Region::ZhCN => "zh_CN",
            Region::ZhTW => "zh_TW",
        }
    }
}

impl Default for Region {
    /// The region used when none is picked.
    fn default() -> (r: Region)
        ensures
            r == Region::EnUS,
    {
        Region::EnUS
    }
}

impl core::str::FromStr for Region {
    type Err = ParseRegionError;

    fn from_str(s: &str) -> Result<Region, ParseRegionError> {
        let owned: String = s.to_owned();
        if owned == region_name_en_us() {
            Ok(Region::EnUS)
        } else if owned == region_name_ja_jp() {
            Ok(Region::JaJP)
        } else if owned == region_name_ko_kr() {
            Ok(Region::KoKR)
        } else if owned == region_name_zh_cn() {
            Ok(Region::ZhCN)
        } else if owned == region_name_zh_tw() {
            Ok(Region::ZhTW)
        } else {
            Err(ParseRegionError)
        }
    }
}

fn region_name_en_us() -> (r: String)
    ensures
        r@ == "en_US"@,
{
    "en_US".to_owned()
}

fn region_name_ja_jp() -> (r: String)
    ensures
        r@ == "ja_JP"@,
{
    "ja_JP".to_owned()
}

fn region_name_ko_kr() -> (r: String)
    ensures
        r@ == "ko_KR"@,
{
    "ko_KR".to_owned()
}

fn region_name_zh_cn() -> (r: String)
    ensures
        r@ == "zh_CN"@,
{
    "zh_CN".to_owned()
}

fn region_name_zh_tw() -> (r: String)
    ensures
        r@ == "zh_TW"@,
{
    "zh_TW".to_owned()
}

} // verus!
