use wow_world_core::database::WorldDatabase;
use wow_world_core::geometry::{
    distance_squared_between, is_within_distance, positions_within_range, Position, Vector3, SAY,
    YELL,
};
use wow_world_core::inventory::{Inventory, Item, BACKPACK_END, BACKPACK_START};
use wow_world_core::race::{
    character_features_are_valid, character_race_class_combo_is_valid, exp_required_to_level_up,
    get_display_id_for_player, get_power_for_class, get_race_faction, get_starting_position,
    Class, Gender, Power, Race,
};
use wow_world_core::character::Character;
use wow_world_core::realm::get_world_server_string;
use wow_world_core::text::{parse_decimal, parse_int};

#[test]
fn distance_is_exact() {
    let a = Vector3 { x: 0, y: 0, z: 0 };
    let b = Vector3 { x: 3, y: 4, z: 12 };
    assert_eq!(distance_squared_between(a, b), 169);
    assert!(is_within_distance(a, b, 14));
    assert!(!is_within_distance(a, b, 13));
}

#[test]
fn distance_handles_extreme_coordinates() {
    let a = Vector3 { x: i32::MIN, y: i32::MIN, z: i32::MIN };
    let b = Vector3 { x: i32::MAX, y: i32::MAX, z: i32::MAX };
    let d = (u32::MAX as u128) * (u32::MAX as u128) * 3;
    assert_eq!(distance_squared_between(a, b), d);
}

#[test]
fn range_gate_needs_the_same_map() {
    let a = Position::new(0, 0, 0, 0, 0);
    let near = Position::new(0, 10_000, 0, 0, 0);
    let elsewhere = Position::new(1, 0, 0, 0, 0);
    assert!(positions_within_range(a, near, SAY));
    assert!(!positions_within_range(a, elsewhere, SAY));
    assert!(!positions_within_range(a, elsewhere, YELL));
    let edge = Position::new(0, SAY as i32, 0, 0, 0);
    assert!(!positions_within_range(a, edge, SAY));
}

#[test]
fn experience_table() {
    assert_eq!(exp_required_to_level_up(0), 0);
    assert_eq!(exp_required_to_level_up(1), 400);
    assert_eq!(exp_required_to_level_up(2), 900);
    assert_eq!(exp_required_to_level_up(59), 209800);
    assert_eq!(exp_required_to_level_up(60), 0);
    assert_eq!(exp_required_to_level_up(255), 0);
}

#[test]
fn race_tables() {
    assert_eq!(get_display_id_for_player(Race::Human, Gender::Male), 49);
    assert_eq!(get_display_id_for_player(Race::Gnome, Gender::Female), 1564);
    assert_eq!(get_power_for_class(Class::Warrior), Power::Rage);
    assert_eq!(get_power_for_class(Class::Rogue), Power::Energy);
    assert_eq!(get_power_for_class(Class::Mage), Power::Mana);
    assert_eq!(get_race_faction(Race::Troll), 116);
    assert!(character_race_class_combo_is_valid(Race::Tauren, Class::Druid));
    assert!(!character_race_class_combo_is_valid(Race::Tauren, Class::Mage));
    assert!(!character_race_class_combo_is_valid(Race::Goblin, Class::Warrior));
    let start = get_starting_position(Race::NightElf);
    assert_eq!(start.map, 1);
    assert_eq!(start.x, 10311300);
}

#[test]
fn feature_limits() {
    assert!(character_features_are_valid(Race::Human, Gender::Female, 9, 6, 14, 9, 18));
    assert!(!character_features_are_valid(Race::Human, Gender::Female, 10, 6, 14, 9, 18));
    assert!(!character_features_are_valid(Race::Goblin, Gender::Male, 0, 0, 0, 0, 0));
    assert!(!character_features_are_valid(Race::Human, Gender::Neutral, 0, 0, 0, 0, 0));
    assert!(character_features_are_valid(Race::Tauren, Gender::Male, 18, 6, 4, 2, 7));
}

#[test]
fn integers_parse() {
    assert_eq!(parse_int("42", "map"), Ok(42));
    assert_eq!(parse_int("-7", "map"), Ok(-7));
    assert_eq!(parse_int("+7", "map"), Ok(7));
    assert_eq!(parse_int("2147483647", "map"), Ok(i32::MAX));
    assert_eq!(parse_int("-2147483648", "map"), Ok(i32::MIN));
    assert_eq!(parse_int("2147483648", "map"), Err("invalid map: '2147483648'".to_string()));
    assert_eq!(parse_int("4x", "map"), Err("invalid map: '4x'".to_string()));
    assert_eq!(parse_int("", "map"), Err("invalid map: ''".to_string()));
    assert_eq!(parse_int("-", "map"), Err("invalid map: '-'".to_string()));
}

#[test]
fn decimals_parse_to_thousandths() {
    assert_eq!(parse_decimal("12.5", "x"), Ok(12500));
    assert_eq!(parse_decimal("-0.25", "x"), Ok(-250));
    assert_eq!(parse_decimal("3", "x"), Ok(3000));
    assert_eq!(parse_decimal(".5", "x"), Ok(500));
    assert_eq!(parse_decimal("1.23456", "x"), Ok(1230 + 4));
    assert_eq!(parse_decimal("1.2.3", "x"), Err("invalid x: '1.2.3'".to_string()));
    assert_eq!(parse_decimal(".", "x"), Err("invalid x: '.'".to_string()));
    assert_eq!(parse_decimal("abc", "y coordinate"), Err("invalid y coordinate: 'abc'".to_string()));
}

fn item(guid: u64) -> Item {
    Item::new(25, guid, 1, 0)
}

#[test]
fn inventory_insert_fills_the_backpack_in_order() {
    let mut inv = Inventory::new();
    assert_eq!(inv.insert_into_first_slot(item(1)), Some(BACKPACK_START));
    assert_eq!(inv.insert_into_first_slot(item(2)), Some(BACKPACK_START + 1));
    for g in 3..=16 {
        assert!(inv.insert_into_first_slot(item(g)).is_some());
    }
    assert_eq!(inv.insert_into_first_slot(item(99)), None);
    assert_eq!(inv.get(BACKPACK_END), Some(item(16)));
}

#[test]
fn inventory_swap_take_and_clear() {
    let mut inv = Inventory::new();
    inv.set(0, item(1));
    inv.swap(0, 5);
    assert_eq!(inv.get(0), None);
    assert_eq!(inv.get(5), Some(item(1)));
    inv.swap(1, 2);
    assert_eq!(inv.get(1), None);
    assert_eq!(inv.take(5), Some(item(1)));
    assert_eq!(inv.get(5), None);
    inv.set(7, item(2));
    inv.clear(7);
    assert_eq!(inv.get(7), None);
    assert_eq!(inv.equipment().len(), 19);
}

#[test]
fn inventory_items_stay_in_one_slot() {
    let mut inv = Inventory::new();
    inv.set(0, item(1));
    inv.set(1, item(2));
    inv.swap(0, 1);
    inv.insert_into_first_slot(item(3));
    let taken = inv.take(1);
    assert_eq!(taken, Some(item(1)));
    let slots = inv.all_slots();
    for g in [2u64, 3] {
        assert_eq!(slots.iter().filter(|s| matches!(s, Some(i) if i.guid == g)).count(), 1);
    }
}

#[test]
fn identifiers_never_repeat() {
    let mut db = WorldDatabase::empty();
    let a = db.new_guid().unwrap();
    let b = db.new_guid().unwrap();
    let c = Character::new(&mut db, "Someone".to_string(), Race::Orc, Class::Warrior, Gender::Male, 0, 0, 0, 0, 0)
        .unwrap();
    let d = db.new_guid().unwrap();
    let mut seen = vec![a, b, c.guid, d];
    for slot in c.inventory.all_slots().into_iter().flatten() {
        seen.push(slot.guid);
    }
    let n = seen.len();
    seen.sort();
    seen.dedup();
    assert_eq!(seen.len(), n);
    assert!(n > 4);
}

#[test]
fn new_character_starts_at_home() {
    let mut db = WorldDatabase::empty();
    let c = Character::new(&mut db, "Elf".to_string(), Race::NightElf, Class::Druid, Gender::Female, 1, 2, 3, 4, 5)
        .unwrap();
    assert_eq!(c.level, 1);
    assert_eq!(c.position(), get_starting_position(Race::NightElf));
    assert_eq!(c.name, "Elf");
    assert_eq!(c.face, 2);
}

#[test]
fn store_replaces_and_deletes() {
    let mut db = WorldDatabase::new();
    let all = db.get_characters_for_account("");
    assert_eq!(all.len(), 3);
    let mut c = all[1].clone();
    c.level = 7;
    assert!(db.replace_character_data(c));
    assert_eq!(db.get_character_by_guid(all[1].guid).unwrap().level, 7);
    assert!(db.delete_character_by_guid("", all[0].guid));
    assert!(db.get_character_by_guid(all[0].guid).is_none());
    assert!(!db.delete_character_by_guid("", all[0].guid));
    assert_eq!(db.get_characters_for_account("").len(), 2);
}

#[test]
fn base_stats_come_from_the_tables() {
    let mut db = WorldDatabase::empty();
    let mut c = Character::new(&mut db, "Tank".to_string(), Race::Human, Class::Warrior, Gender::Male, 0, 0, 0, 0, 0)
        .unwrap();
    let strength_one = c.strength();
    assert!(strength_one > 0);
    assert!(c.base_health() > 0);
    let stamina = c.stamina();
    let bonus = if stamina < 20 { stamina } else { 20 + (stamina - 20) * 10 };
    assert_eq!(c.max_health(), Some(c.base_health() + bonus));
    assert_eq!(c.max_mana(), Some(0));
    c.level = 0;
    assert_eq!(c.strength(), strength_one);
    c.level = 60;
    assert!(c.strength() > strength_one);
}

#[test]
fn casters_have_mana() {
    let mut db = WorldDatabase::empty();
    let c = Character::new(&mut db, "Mage".to_string(), Race::Gnome, Class::Mage, Gender::Female, 0, 0, 0, 0, 0)
        .unwrap();
    let intellect = c.intellect();
    let bonus = if intellect < 20 { intellect } else { 20 + (intellect - 20) * 15 };
    assert_eq!(c.max_mana(), Some(c.base_mana() + bonus));
    assert!(c.base_mana() > 0);
}

#[test]
fn realm_list_address() {
    assert_eq!(get_world_server_string(Some([127, 0, 0, 1])), "localhost:8085");
    assert_eq!(get_world_server_string(Some([10, 0, 0, 1])), "vpn.gtker.com:8085");
    assert_eq!(get_world_server_string(None), "vpn.gtker.com:8085");
}

#[test]
fn characters_are_equal_by_identifier() {
    let mut db = WorldDatabase::empty();
    let a = Character::new(&mut db, "One".to_string(), Race::Orc, Class::Warrior, Gender::Male, 0, 0, 0, 0, 0).unwrap();
    let mut b = a.clone();
    b.name = "Other".to_string();
    b.level = 30;
    assert!(a == b);
    let c = Character::new(&mut db, "One".to_string(), Race::Orc, Class::Warrior, Gender::Male, 0, 0, 0, 0, 0).unwrap();
    assert!(a != c);
}

#[test]
fn development_store_holds_three_warriors() {
    let db = WorldDatabase::new();
    let all = db.get_characters_for_account("");
    let names: Vec<&str> = all.iter().map(|c| c.name.as_str()).collect();
    assert_eq!(names, vec!["Dev", "HumOne", "HumTwo"]);
    assert_eq!(all[0].gender, Gender::Female);
    assert_eq!(all[1].gender, Gender::Female);
    assert_eq!(all[2].gender, Gender::Male);
    assert!(all.iter().all(|c| c.race == Race::Human && c.class == Class::Warrior && c.level == 60));
    assert!(all[0].guid < all[1].guid && all[1].guid < all[2].guid);
}

#[test]
fn starter_kit_items_take_the_following_identifiers() {
    let mut db = WorldDatabase::empty();
    let c = Character::new(&mut db, "Kit".to_string(), Race::Human, Class::Warrior, Gender::Male, 0, 0, 0, 0, 0)
        .unwrap();
    let mut guids: Vec<u64> = c.inventory.all_slots().into_iter().flatten().map(|i| i.guid).collect();
    guids.sort();
    let expected: Vec<u64> = (1..=guids.len() as u64).collect();
    assert_eq!(guids, expected);
    assert_eq!(db.peek_next_guid(), 1 + guids.len() as u64);
    assert!(c.inventory.all_slots().into_iter().flatten().all(|i| i.creator == 0));
}
