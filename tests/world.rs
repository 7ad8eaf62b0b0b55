use wow_world_core::character::{MovementInfo, UNARMED_SPEED_MS};
use wow_world_core::database::WorldDatabase;
use wow_world_core::geometry::Vector3;
use wow_world_core::protocol::{
    ChatKind, ChatType, ClientOpcode, Effect, MovementKind, Notice, ServerMessage,
};
use wow_world_core::session::{CharacterScreenClient, CharacterScreenProgress};
use wow_world_core::world::World;

fn at(x: i32, y: i32, z: i32) -> MovementInfo {
    MovementInfo {
        flags: 0,
        timestamp: 0,
        position: Vector3 { x, y, z },
        orientation: 0,
        fall_time: 0,
    }
}

fn stored_guid(db: &WorldDatabase, name: &str) -> u64 {
    db.get_characters_for_account("")
        .into_iter()
        .find(|c| c.name == name)
        .unwrap()
        .guid
}

/// Two players, Dev on session 1 and HumOne on session 2, in the world.
fn two_players() -> (World, WorldDatabase) {
    let mut db = WorldDatabase::new();
    let mut world = World::new(&mut db);
    assert!(world.join(CharacterScreenClient::new(1, "a".to_string()), &db));
    assert!(world.join(CharacterScreenClient::new(2, "b".to_string()), &db));
    world.tick(&mut db, 0);
    let dev = stored_guid(&db, "Dev");
    let hum = stored_guid(&db, "HumOne");
    assert!(world.receive(1, ClientOpcode::PlayerLogin { guid: dev }, &db));
    assert!(world.receive(2, ClientOpcode::PlayerLogin { guid: hum }, &db));
    world.tick(&mut db, 0);
    assert_eq!(world.clients.len(), 2);
    (world, db)
}

fn chat_recipients(effects: &[Effect], kind: ChatKind) -> Vec<Vec<u64>> {
    effects
        .iter()
        .filter_map(|e| match e {
            Effect::Send {
                recipients,
                message: ServerMessage::Chat { kind: k, .. },
            } if *k == kind => Some(recipients.clone()),
            _ => None,
        })
        .collect()
}

fn damage_count(effects: &[Effect]) -> usize {
    effects
        .iter()
        .filter(|e| {
            matches!(
                e,
                Effect::Send {
                    message: ServerMessage::AttackerStateUpdate { .. },
                    ..
                }
            )
        })
        .count()
}

#[test]
fn say_reaches_players_in_range_only() {
    let (mut world, mut db) = two_players();
    world.receive(
        1,
        ClientOpcode::Movement { kind: MovementKind::Heartbeat, info: at(0, 0, 0) },
        &db,
    );
    world.receive(
        2,
        ClientOpcode::Movement { kind: MovementKind::Heartbeat, info: at(10_000, 0, 0) },
        &db,
    );
    world.tick(&mut db, 0);
    world.receive(
        1,
        ClientOpcode::MessageChat { chat_type: ChatType::Say, message: "hello".to_string() },
        &db,
    );
    let (effects, _) = world.tick(&mut db, 0);
    assert_eq!(chat_recipients(&effects, ChatKind::Say), vec![vec![1, 2]]);

    world.receive(
        2,
        ClientOpcode::Movement { kind: MovementKind::Heartbeat, info: at(0, 0, 400_000) },
        &db,
    );
    world.tick(&mut db, 0);
    world.receive(
        1,
        ClientOpcode::MessageChat { chat_type: ChatType::Say, message: "hello".to_string() },
        &db,
    );
    let (effects, _) = world.tick(&mut db, 0);
    assert_eq!(chat_recipients(&effects, ChatKind::Say), vec![vec![1]]);
}

#[test]
fn yell_carries_farther_than_say() {
    let (mut world, mut db) = two_players();
    world.receive(1, ClientOpcode::Movement { kind: MovementKind::Stop, info: at(0, 0, 0) }, &db);
    world.receive(
        2,
        ClientOpcode::Movement { kind: MovementKind::Stop, info: at(0, 100_000, 0) },
        &db,
    );
    world.tick(&mut db, 0);
    world.receive(
        1,
        ClientOpcode::MessageChat { chat_type: ChatType::Yell, message: "hey".to_string() },
        &db,
    );
    let (effects, _) = world.tick(&mut db, 0);
    assert_eq!(chat_recipients(&effects, ChatKind::Yell), vec![vec![1, 2]]);
}

#[test]
fn movement_is_relayed_to_the_others() {
    let (mut world, mut db) = two_players();
    world.receive(
        1,
        ClientOpcode::Movement { kind: MovementKind::StartForward, info: at(5, 6, 7) },
        &db,
    );
    let (effects, _) = world.tick(&mut db, 0);
    let dev = stored_guid(&db, "Dev");
    let relayed: Vec<_> = effects
        .iter()
        .filter_map(|e| match e {
            Effect::Send {
                recipients,
                message: ServerMessage::Movement { kind, guid, info },
            } => Some((recipients.clone(), *kind, *guid, *info)),
            _ => None,
        })
        .collect();
    assert_eq!(relayed, vec![(vec![2], MovementKind::StartForward, dev, at(5, 6, 7))]);
    assert_eq!(world.clients[0].character.info, at(5, 6, 7));
}

#[test]
fn swing_during_cooldown_waits_for_the_cooldown() {
    let (mut world, mut db) = two_players();
    let hum = stored_guid(&db, "HumOne");
    world.receive(1, ClientOpcode::AttackSwing { target: hum }, &db);
    let (effects, _) = world.tick(&mut db, 0);
    assert_eq!(damage_count(&effects), 1);
    assert_eq!(world.clients[0].character.auto_attack_timer, UNARMED_SPEED_MS);

    world.receive(1, ClientOpcode::AttackStop, &db);
    world.tick(&mut db, 0);
    assert!(!world.clients[0].character.attacking);
    assert!(world.clients[0].character.auto_attack_timer > 0);

    world.receive(1, ClientOpcode::AttackSwing { target: hum }, &db);
    let (effects, _) = world.tick(&mut db, 0);
    assert!(world.clients[0].character.attacking);
    assert_eq!(world.clients[0].character.target, hum);
    assert_eq!(damage_count(&effects), 0);

    let mut ticks = 0;
    loop {
        let timer_before = world.clients[0].character.auto_attack_timer;
        let (effects, _) = world.tick(&mut db, 0);
        ticks += 1;
        if damage_count(&effects) > 0 {
            assert!(timer_before <= 100);
            break;
        }
        assert!(ticks < 100);
    }
}

#[test]
fn swing_with_cooldown_elapsed_announces_the_attack() {
    let (mut world, mut db) = two_players();
    let hum = stored_guid(&db, "HumOne");
    let dev = stored_guid(&db, "Dev");
    world.receive(1, ClientOpcode::AttackSwing { target: hum }, &db);
    let (effects, _) = world.tick(&mut db, 0);
    let starts: Vec<_> = effects
        .iter()
        .filter_map(|e| match e {
            Effect::Send {
                recipients,
                message: ServerMessage::AttackStart { attacker, victim },
            } => Some((recipients.clone(), *attacker, *victim)),
            _ => None,
        })
        .collect();
    assert_eq!(starts, vec![(vec![1, 2], dev, hum)]);
}

#[test]
fn closed_character_screen_session_is_dropped() {
    let mut db = WorldDatabase::new();
    let mut world = World::new(&mut db);
    world.join(CharacterScreenClient::new(7, "x".to_string()), &db);
    world.tick(&mut db, 0);
    assert_eq!(world.clients_on_character_screen.len(), 1);
    assert!(world.connection_closed(7, &db));
    world.tick(&mut db, 0);
    assert!(world.clients_on_character_screen.is_empty());
    assert!(world.clients.is_empty());
}

#[test]
fn logout_returns_the_session_to_the_character_screen() {
    let (mut world, mut db) = two_players();
    let dev = stored_guid(&db, "Dev");
    world.receive(
        1,
        ClientOpcode::Movement { kind: MovementKind::Heartbeat, info: at(1, 2, 3) },
        &db,
    );
    world.receive(1, ClientOpcode::LogoutRequest, &db);
    let (effects, dispatched) = world.tick(&mut db, 0);
    assert_eq!(dispatched, vec![1, 2]);
    assert_eq!(world.clients.len(), 1);
    assert_eq!(world.clients[0].id, 2);
    assert_eq!(world.clients_on_character_screen.len(), 1);
    assert_eq!(world.clients_on_character_screen[0].id, 1);
    assert_eq!(world.clients_on_character_screen[0].status, CharacterScreenProgress::CharacterScreen);
    assert!(effects.iter().any(|e| matches!(e,
        Effect::Send { recipients, message: ServerMessage::DestroyObject { guid } }
            if recipients == &vec![2] && *guid == dev)));
    assert!(effects.iter().any(|e| matches!(e,
        Effect::Send { recipients, message: ServerMessage::LogoutComplete } if recipients == &vec![1])));
    let stored = db.get_character_by_guid(dev).unwrap();
    assert_eq!(stored.info.position, Vector3 { x: 1, y: 2, z: 3 });
}

#[test]
fn tick_visits_every_player_once() {
    let (mut world, mut db) = two_players();
    world.receive(2, ClientOpcode::LogoutRequest, &db);
    let (_, dispatched) = world.tick(&mut db, 0);
    assert_eq!(dispatched, vec![1, 2]);
    let (_, dispatched) = world.tick(&mut db, 0);
    assert_eq!(dispatched, vec![1]);
}

#[test]
fn session_is_never_in_two_lists() {
    let (mut world, mut db) = two_players();
    assert!(!world.join(CharacterScreenClient::new(1, "again".to_string()), &db));
    world.receive(1, ClientOpcode::LogoutRequest, &db);
    world.tick(&mut db, 0);
    for s in &world.clients_on_character_screen {
        assert!(world.clients.iter().all(|c| c.id != s.id));
    }
}

#[test]
fn unknown_character_cannot_log_in() {
    let mut db = WorldDatabase::new();
    let mut world = World::new(&mut db);
    world.join(CharacterScreenClient::new(3, "x".to_string()), &db);
    world.tick(&mut db, 0);
    world.receive(3, ClientOpcode::PlayerLogin { guid: 999_999 }, &db);
    let (effects, _) = world.tick(&mut db, 0);
    assert!(world.clients.is_empty());
    assert!(effects.iter().any(|e| matches!(e,
        Effect::Send { recipients, message: ServerMessage::CharacterLoginFailed } if recipients == &vec![3])));
}

#[test]
fn name_query_answers_the_same_twice() {
    let (mut world, mut db) = two_players();
    let hum = stored_guid(&db, "HumOne");
    let answer = |effects: &[Effect]| -> Vec<(Vec<u64>, u64, String)> {
        effects
            .iter()
            .filter_map(|e| match e {
                Effect::Send {
                    recipients,
                    message: ServerMessage::NameQueryResponse { guid, name, .. },
                } => Some((recipients.clone(), *guid, name.clone())),
                _ => None,
            })
            .collect()
    };
    world.receive(1, ClientOpcode::NameQuery { guid: hum }, &db);
    let (first, _) = world.tick(&mut db, 0);
    world.receive(1, ClientOpcode::NameQuery { guid: hum }, &db);
    let (second, _) = world.tick(&mut db, 0);
    assert_eq!(answer(&first), vec![(vec![1], hum, "HumOne".to_string())]);
    assert_eq!(answer(&first), answer(&second));
}

#[test]
fn time_query_reports_the_given_time() {
    let (mut world, mut db) = two_players();
    world.receive(2, ClientOpcode::QueryTime, &db);
    let (effects, _) = world.tick(&mut db, 1234);
    assert!(effects.iter().any(|e| matches!(e,
        Effect::Send { recipients, message: ServerMessage::QueryTimeResponse { time: 1234 } }
            if recipients == &vec![2])));
}

#[test]
fn whisper_reaches_the_named_player_only() {
    let (mut world, mut db) = two_players();
    world.receive(
        1,
        ClientOpcode::MessageChat {
            chat_type: ChatType::Whisper { target_player: "humone".to_string() },
            message: "psst".to_string(),
        },
        &db,
    );
    let (effects, _) = world.tick(&mut db, 0);
    assert_eq!(chat_recipients(&effects, ChatKind::WhisperInform), vec![vec![1]]);
    assert_eq!(chat_recipients(&effects, ChatKind::Whisper), vec![vec![2]]);
}

#[test]
fn whisper_to_self_is_refused() {
    let (mut world, mut db) = two_players();
    world.receive(
        1,
        ClientOpcode::MessageChat {
            chat_type: ChatType::Whisper { target_player: "DEV".to_string() },
            message: "me".to_string(),
        },
        &db,
    );
    let (effects, _) = world.tick(&mut db, 0);
    assert!(chat_recipients(&effects, ChatKind::Whisper).is_empty());
    assert!(effects.iter().any(|e| matches!(e,
        Effect::Send { recipients, message: ServerMessage::System { notice: Notice::CannotWhisperSelf } }
            if recipients == &vec![1])));
}

#[test]
fn teleport_to_another_map_waits_for_acknowledgement() {
    let (mut world, mut db) = two_players();
    let destination = wow_world_core::geometry::Position::new(1, 10, 20, 30, 0);
    world.receive(1, ClientOpcode::WorldTeleport { destination }, &db);
    let (effects, _) = world.tick(&mut db, 0);
    assert!(world.clients[0].in_process_of_teleport);
    assert_eq!(world.clients[0].character.map, 1);
    assert!(effects.iter().any(|e| matches!(e,
        Effect::Send { message: ServerMessage::NewWorld { .. }, .. })));
    world.receive(1, ClientOpcode::WorldportAck, &db);
    let (effects, _) = world.tick(&mut db, 0);
    assert!(!world.clients[0].in_process_of_teleport);
    assert!(effects.iter().any(|e| matches!(e,
        Effect::Send { message: ServerMessage::LoginSequence { .. }, .. })));
    world.receive(1, ClientOpcode::WorldportAck, &db);
    let (effects, _) = world.tick(&mut db, 0);
    assert!(!effects.iter().any(|e| matches!(e,
        Effect::Send { message: ServerMessage::LoginSequence { .. }, .. })));
}

#[test]
fn swapping_slots_updates_the_gear_for_everyone() {
    let (mut world, mut db) = two_players();
    let before = world.clients[0].character.inventory.all_slots();
    world.receive(1, ClientOpcode::SwapInvItem { source_slot: 3, destination_slot: 23 }, &db);
    let (effects, _) = world.tick(&mut db, 0);
    let after = world.clients[0].character.inventory.all_slots();
    assert_eq!(after[3], before[23]);
    assert_eq!(after[23], before[3]);
    assert!(effects.iter().any(|e| matches!(e,
        Effect::Send { recipients, message: ServerMessage::EquipmentUpdate { source_slot: 3, destination_slot: 23, .. } }
            if recipients == &vec![1, 2])));
}

#[test]
fn character_creation_checks_race_and_class() {
    let mut db = WorldDatabase::new();
    let mut world = World::new(&mut db);
    world.join(CharacterScreenClient::new(4, "x".to_string()), &db);
    world.tick(&mut db, 0);
    let count = db.get_characters_for_account("x").len();
    let create = |race: u8, class: u8| ClientOpcode::CharCreate {
        name: "Newbie".to_string(),
        race,
        class,
        gender: 0,
        skin: 0,
        face: 0,
        hair_style: 0,
        hair_color: 0,
        facial_hair: 0,
    };
    world.receive(4, create(6, 8), &db);
    let (effects, _) = world.tick(&mut db, 0);
    assert!(effects.iter().any(|e| matches!(e,
        Effect::Send { message: ServerMessage::CharacterCreateResult { success: false }, .. })));
    assert_eq!(db.get_characters_for_account("x").len(), count);
    world.receive(4, create(6, 11), &db);
    let (effects, _) = world.tick(&mut db, 0);
    assert!(effects.iter().any(|e| matches!(e,
        Effect::Send { message: ServerMessage::CharacterCreateResult { success: true }, .. })));
    assert_eq!(db.get_characters_for_account("x").len(), count + 1);
}
