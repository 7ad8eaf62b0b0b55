use wow_world_core::character::MovementInfo;
use wow_world_core::database::WorldDatabase;
use wow_world_core::geometry::Vector3;
use wow_world_core::gm_command::GmCommandError;
use wow_world_core::protocol::{ChatType, ClientOpcode, Effect, Notice, ServerMessage};
use wow_world_core::session::CharacterScreenClient;
use wow_world_core::world::World;

fn one_player() -> (World, WorldDatabase) {
    let mut db = WorldDatabase::new();
    let mut world = World::new(&mut db);
    world.join(CharacterScreenClient::new(1, "gm".to_string()), &db);
    world.tick(&mut db, 0);
    let dev = db.get_characters_for_account("gm")[0].guid;
    world.receive(1, ClientOpcode::PlayerLogin { guid: dev }, &db);
    world.tick(&mut db, 0);
    assert_eq!(world.clients.len(), 1);
    (world, db)
}

fn command(world: &mut World, db: &mut WorldDatabase, text: &str) -> Vec<Effect> {
    world.receive(
        1,
        ClientOpcode::MessageChat { chat_type: ChatType::Say, message: text.to_string() },
        db,
    );
    world.tick(db, 0).0
}

fn refusal(effects: &[Effect]) -> Option<&GmCommandError> {
    effects.iter().find_map(|e| match e {
        Effect::Send { message: ServerMessage::System { notice: Notice::Command(err) }, .. } => Some(err),
        _ => None,
    })
}

#[test]
fn north_moves_five_yards() {
    let (mut world, mut db) = one_player();
    let before = world.clients[0].character.position();
    let effects = command(&mut world, &mut db, ".north");
    let after = world.clients[0].character.position();
    assert_eq!(after.x, before.x + 5000);
    assert_eq!(after.y, before.y);
    assert!(effects.iter().any(|e| matches!(e,
        Effect::Send { message: ServerMessage::TeleportAck { .. }, .. })));
}

#[test]
fn go_to_coordinates() {
    let (mut world, mut db) = one_player();
    let map = world.clients[0].character.map;
    command(&mut world, &mut db, "..go 1.5 -2 3.25");
    let p = world.clients[0].character.position();
    assert_eq!((p.map, p.x, p.y, p.z), (map, 1500, -2000, 3250));
}

#[test]
fn go_with_two_numbers_is_refused() {
    let (mut world, mut db) = one_player();
    let effects = command(&mut world, &mut db, ".go 1 2");
    assert!(matches!(refusal(&effects), Some(GmCommandError::OnlyTwoCoordinates)));
}

#[test]
fn go_with_a_bad_coordinate_names_it() {
    let (mut world, mut db) = one_player();
    let effects = command(&mut world, &mut db, ".go 1 b 3");
    match refusal(&effects) {
        Some(GmCommandError::InvalidArgument { message }) => {
            assert_eq!(message, "invalid y coordinate: 'b'")
        },
        other => panic!("unexpected {:?}", other),
    }
}

#[test]
fn go_to_an_unknown_map_is_refused() {
    let (mut world, mut db) = one_player();
    let effects = command(&mut world, &mut db, ".go 1 2 3 4000");
    assert!(matches!(refusal(&effects), Some(GmCommandError::InvalidMap { map: 4000 })));
}

#[test]
fn speed_changes_the_running_speed() {
    let (mut world, mut db) = one_player();
    let effects = command(&mut world, &mut db, ".speed 14.5");
    assert_eq!(world.clients[0].character.movement_speed, 14500);
    assert!(effects.iter().any(|e| matches!(e,
        Effect::Send { message: ServerMessage::ForceRunSpeedChange { speed: 14500, .. }, .. })));
}

#[test]
fn additem_by_entry_fills_the_backpack() {
    let (mut world, mut db) = one_player();
    let effects = command(&mut world, &mut db, ".additem 25");
    let created = effects.iter().find_map(|e| match e {
        Effect::Send { message: ServerMessage::ItemCreated { item, slot, .. }, .. } => Some((*item, *slot)),
        _ => None,
    });
    let (item, slot) = created.expect("an item");
    assert_eq!(item.entry, 25);
    assert_eq!(world.clients[0].character.inventory.get(slot as usize), Some(item));
}

#[test]
fn additem_of_an_unknown_entry_is_refused() {
    let (mut world, mut db) = one_player();
    let effects = command(&mut world, &mut db, ".additem 3");
    assert!(matches!(refusal(&effects), Some(GmCommandError::NoItemWithId { entry: 3 })));
}

#[test]
fn additem_by_name() {
    let (mut world, mut db) = one_player();
    let effects = command(&mut world, &mut db, ".additem hearthstone");
    let entry = effects.iter().find_map(|e| match e {
        Effect::Send { message: ServerMessage::ItemCreated { item, .. }, .. } => Some(item.entry),
        _ => None,
    });
    assert_eq!(entry, Some(6948));
}

#[test]
fn range_without_target_is_refused() {
    let (mut world, mut db) = one_player();
    let effects = command(&mut world, &mut db, ".range");
    assert!(matches!(refusal(&effects), Some(GmCommandError::RangeNoTarget)));
}

#[test]
fn mark_keeps_the_names() {
    let (mut world, mut db) = one_player();
    let effects = command(&mut world, &mut db, ".mark Honor Hold, HH");
    let names = effects.iter().find_map(|e| match e {
        Effect::Bookmark { names, .. } => Some(names.clone()),
        _ => None,
    });
    assert_eq!(names, Some(vec!["Honor Hold".to_string(), "HH".to_string()]));
}

#[test]
fn mark_without_names_is_refused() {
    let (mut world, mut db) = one_player();
    let effects = command(&mut world, &mut db, ".mark   ");
    assert!(matches!(refusal(&effects), Some(GmCommandError::MissingMarkNames)));
}

#[test]
fn unknown_command_is_refused() {
    let (mut world, mut db) = one_player();
    let effects = command(&mut world, &mut db, ".dance");
    match refusal(&effects) {
        Some(GmCommandError::Invalid { command }) => assert_eq!(command, "dance"),
        other => panic!("unexpected {:?}", other),
    }
}

#[test]
fn info_without_target_or_number() {
    let (mut world, mut db) = one_player();
    let effects = command(&mut world, &mut db, ".info");
    assert!(matches!(refusal(&effects), Some(GmCommandError::InvalidGuid { .. })));
    let effects = command(&mut world, &mut db, ".info abc");
    assert!(matches!(refusal(&effects), Some(GmCommandError::NoTargetSelected)));
}

#[test]
fn float_rises_by_the_default() {
    let (mut world, mut db) = one_player();
    world.receive(
        1,
        ClientOpcode::MoveFallReset {
            info: MovementInfo { flags: 0, timestamp: 0, position: Vector3 { x: 0, y: 0, z: 0 }, orientation: 0, fall_time: 0 },
        },
        &db,
    );
    world.tick(&mut db, 0);
    command(&mut world, &mut db, ".float");
    assert_eq!(world.clients[0].character.info.position.z, 5000);
    command(&mut world, &mut db, ".float 2.5");
    assert_eq!(world.clients[0].character.info.position.z, 7500);
}

#[test]
fn go_to_another_map() {
    let (mut world, mut db) = one_player();
    let effects = command(&mut world, &mut db, ".go 10 20 30 1");
    assert_eq!(world.clients[0].character.map, 1);
    assert!(world.clients[0].in_process_of_teleport);
    assert!(effects.iter().any(|e| matches!(e,
        Effect::Send { message: ServerMessage::TransferPending { map: 1 }, .. })));
}
