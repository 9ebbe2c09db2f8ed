//! Assembly of loosely-normalized game data tables into one consistent
//! domain model: operators with promotion ladders, skills, talents, modules,
//! base skills and archive files, together with items, buildings, attack
//! ranges, recruitment tags, banners and events.
//!
//! Fetching and decoding the raw tables is left to the caller; every value
//! this crate works on is a plain integer, string or list.

pub mod game_data;

pub mod assemble;
pub mod attributes;
pub mod base_skills;
pub mod buildings;
pub mod chars;
pub mod dict;
pub mod events;
pub mod files;
pub mod fixed;
pub mod items;
pub mod modules;
pub mod operator;
pub mod options;
pub mod profession;
pub mod promotion;
pub mod ranges;
pub mod raw;
pub mod skills;
pub mod skins;
pub mod talents;
pub mod template;
pub mod trust;

pub use dict::Dict;
pub use game_data::{AlterPair, GameData};
pub use operator::Operator;
pub use options::{ParseRegionError, Region};
pub use promotion::{Promotion, PromotionAndLevel};
