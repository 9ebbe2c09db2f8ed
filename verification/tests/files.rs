//! Archive files: unlock conditions, their raw parameter, and line search.

use ak_data::assemble::convert_file_unlock;
use ak_data::dict::Dict;
use ak_data::files::{OperatorFileEntry, OperatorFileUnlock};
use ak_data::game_data::{Item, ItemsCost, Promotion, PromotionAndLevel};
use ak_data::items::ItemsIter;
use ak_data::raw::RawItemCost;

fn state(promotion: Promotion, level: u32) -> PromotionAndLevel {
    PromotionAndLevel { promotion, level }
}

#[test]
fn unlock_parameter_forms() {
    match convert_file_unlock(String::new(), 0) {
        OperatorFileUnlock::AlwaysUnlocked => {},
        other => panic!("empty parameter parsed as {:?}", other),
    }
    match convert_file_unlock("120".to_owned(), 2) {
        OperatorFileUnlock::Trust(120) => {},
        other => panic!("trust parameter parsed as {:?}", other),
    }
    match convert_file_unlock("2;30".to_owned(), 1) {
        OperatorFileUnlock::PromotionLevel(c) => {
            assert_eq!(c, state(Promotion::Elite2, 30));
        },
        other => panic!("condition parameter parsed as {:?}", other),
    }
    // an unknown phase index falls back like any other free-form value
    match convert_file_unlock("9;30".to_owned(), 6) {
        OperatorFileUnlock::OperatorUnlocked(id) => assert_eq!(id, "9;30"),
        other => panic!("fallback parameter parsed as {:?}", other),
    }
    match convert_file_unlock("char_other".to_owned(), 3) {
        OperatorFileUnlock::AlwaysUnlocked => {},
        other => panic!("free-form parameter parsed as {:?}", other),
    }
}

#[test]
fn unlock_conditions_test_against_the_state() {
    let trust_gate = OperatorFileUnlock::Trust(90);
    assert!(trust_gate.test(state(Promotion::Base, 1), 90));
    assert!(!trust_gate.test(state(Promotion::Elite2, 80), 89));

    let level_gate = OperatorFileUnlock::PromotionLevel(state(Promotion::Elite1, 30));
    assert!(level_gate.test(state(Promotion::Elite1, 30), 0));
    assert!(level_gate.test(state(Promotion::Elite2, 1), 0));
    assert!(!level_gate.test(state(Promotion::Elite1, 29), 0));

    // owning another operator is never part of the tested state
    let owner_gate = OperatorFileUnlock::OperatorUnlocked("someone".to_owned());
    assert!(!owner_gate.test(state(Promotion::Elite2, 90), 200));
}

#[test]
fn find_line_takes_the_first_matching_header() {
    let entry = OperatorFileEntry {
        title: "Profile".to_owned(),
        text: "  [Gender] Conviction\nplain line\n[Gender] Second\n[Place of Birth] Unknown"
            .to_owned(),
        unlock_condition: OperatorFileUnlock::AlwaysUnlocked,
    };
    assert_eq!(entry.find_line("Gender").as_deref(), Some("Conviction"));
    assert_eq!(entry.find_line("Place of Birth").as_deref(), Some("Unknown"));
    assert_eq!(entry.find_line("Height"), None);
}

#[test]
fn items_iter_pairs_costs_with_known_items() {
    let mut items: Dict<Item> = Dict::new();
    items.insert(
        "gold".to_owned(),
        Item {
            id: "gold".to_owned(),
            name: "LMD".to_owned(),
            description: None,
            rarity: 4,
            usage: None,
            obtain: None,
            item_class: ak_data::game_data::ItemClass::BasicItem,
            item_type: "GOLD".to_owned(),
        },
    );
    let costs: ItemsCost = ak_data::assemble::convert_item_costs(vec![
        RawItemCost { item_id: "gold".to_owned(), count: 20000 },
        RawItemCost { item_id: "unknown_material".to_owned(), count: 3 },
    ]);
    let mut iter = ItemsIter::new(&costs, &items);
    let (item, count) = iter.next().expect("the known item is handed out");
    assert_eq!(item.name, "LMD");
    assert_eq!(count, 20000);
    // the unknown entry is passed over and the iterator ends
    assert!(iter.next().is_none());
}
