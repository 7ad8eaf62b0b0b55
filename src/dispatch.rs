use vstd::prelude::*;

use crate::character::{Character, MovementInfo, AUTO_ATTACK_DAMAGE, UNARMED_SPEED_MS};
use crate::chat::{all_ids, chat_effects, handle_message, session_ids};
use crate::creature::Creature;
use crate::database::WorldDatabase;
use crate::geometry::Position;
use crate::inventory::{Item, AMOUNT_OF_SLOTS};
use crate::items::{item_known, lookup_item_exists};
use crate::database::ids_below;
use crate::gm_command::{command_effects, command_result, gm_command, GmCommand, GmCommandError};
use crate::protocol::{ClientOpcode, Effect, Notice, ServerMessage};
use crate::text::{leading_dots, strip_leading_dots};
use crate::session::Client;

verus! {

/// `e` sends `m` to exactly `to`.
pub open spec fn sends(e: Effect, to: Seq<u64>, m: ServerMessage) -> bool {
    match e {
        Effect::Send { recipients, message } => recipients@ == to && message == m,
        _ => false,
    }
}

/// The sender first, then every other player in the world.
pub open spec fn everyone(client: Client, others: Seq<Client>) -> Seq<u64> {
    seq![client.id] + session_ids(others)
}

/// The effects appended to `before` to make `after`.
pub open spec fn appended(before: Seq<Effect>, after: Seq<Effect>) -> Seq<Effect> {
    after.subrange(before.len() as int, after.len() as int)
}

pub open spec fn extends(before: Seq<Effect>, after: Seq<Effect>) -> bool {
    after.len() >= before.len() && after.subrange(0, before.len() as int) == before
}

/// The session-level fields, apart from the character and the teleport flag, agree.
pub open spec fn same_connection(a: Client, b: Client) -> bool {
    &&& a.id == b.id
    &&& a.logout_requested == b.logout_requested
    &&& a.account_name == b.account_name
    &&& a.received_messages == b.received_messages
    &&& a.reader_finished == b.reader_finished
}

pub fn to_everyone(client: &Client, others: &Vec<Client>) -> (r: Vec<u64>)
    ensures
        r@ == everyone(*client, others@),
{
    let mut r: Vec<u64> = Vec::new();
    r.push(client.id);
    let mut rest = all_ids(others);
    r.append(&mut rest);
    r
}

fn to_one(id: u64) -> (r: Vec<u64>)
    ensures
        r@ == seq![id],
{
    let mut r: Vec<u64> = Vec::new();
    r.push(id);
    r
}

/// The character moved to `p`, movement state otherwise kept.
pub open spec fn placed_at(c: Character, p: Position) -> Character {
    Character {
        map: p.map,
        info: MovementInfo { position: p.point(), orientation: p.orientation, ..c.info },
        ..c
    }
}

/// Moves the player to `p`. On the same map the client only gets an
/// acknowledgement; across maps it is told to load the new world, and the
/// session waits for its worldport acknowledgement.
pub fn prepare_teleport(p: Position, client: &mut Client, out: &mut Vec<Effect>)
    ensures
        same_connection(*final(client), *old(client)),
        final(client).character == placed_at(old(client).character, p),
        extends(old(out)@, final(out)@),
        if p.map == old(client).character.map {
            &&& final(client).in_process_of_teleport == old(client).in_process_of_teleport
            &&& appended(old(out)@, final(out)@).len() == 1
            &&& sends(
                appended(old(out)@, final(out)@)[0],
                seq![old(client).id],
                ServerMessage::TeleportAck { guid: old(client).character.guid, destination: p },
            )
        } else {
            &&& final(client).in_process_of_teleport
            &&& appended(old(out)@, final(out)@).len() == 2
            &&& sends(
                appended(old(out)@, final(out)@)[0],
                seq![old(client).id],
                ServerMessage::TransferPending { map: p.map },
            )
            &&& sends(
                appended(old(out)@, final(out)@)[1],
                seq![old(client).id],
                ServerMessage::NewWorld { destination: p },
            )
        },
{
    let ghost start = out@;
    if p.map == client.character.map {
        out.push(
            Effect::Send {
                recipients: to_one(client.id),
                message: ServerMessage::TeleportAck { guid: client.character.guid, destination: p },
            },
        );
        assert(appended(start, out@) =~= seq![out@.last()]);
    } else {
        out.push(
            Effect::Send {
                recipients: to_one(client.id),
                message: ServerMessage::TransferPending { map: p.map },
            },
        );
        out.push(
            Effect::Send {
                recipients: to_one(client.id),
                message: ServerMessage::NewWorld { destination: p },
            },
        );
        assert(appended(start, out@) =~= seq![out@[out@.len() - 2], out@[out@.len() - 1]]);
        client.in_process_of_teleport = true;
    }
    client.character.info.position.x = p.x;
    client.character.info.position.y = p.y;
    client.character.info.position.z = p.z;
    client.character.info.orientation = p.orientation;
    client.character.map = p.map;
    assert(out@.subrange(0, start.len() as int) =~= start);
}

/// `e` shows the character `c` to exactly `to`.
pub open spec fn shows_player(e: Effect, to: Seq<u64>, c: Character) -> bool {
    match e {
        Effect::Send { recipients, message: ServerMessage::CreatePlayer { character } } =>
            recipients@ == to && character.same_as(c),
        _ => false,
    }
}

/// `e` shows the creature `c` to exactly `to`.
pub open spec fn shows_creature(e: Effect, to: Seq<u64>, c: Creature) -> bool {
    match e {
        Effect::Send { recipients, message: ServerMessage::CreateCreature { creature } } =>
            recipients@ == to && creature.name@ == c.name@ && creature.guid == c.guid
                && creature.info == c.info && creature.map == c.map && creature.level == c.level
                && creature.display_id == c.display_id && creature.entry == c.entry
                && creature.faction_template == c.faction_template,
        _ => false,
    }
}

/// Introductions when a player enters the world: the newcomer to every
/// other player, every other player to the newcomer, then every creature
/// to the newcomer.
pub open spec fn announce_effects(
    id: u64,
    c: Character,
    others: Seq<Client>,
    creatures: Seq<Creature>,
    added: Seq<Effect>,
) -> bool {
    let n = others.len();
    &&& added.len() == 2 * n + creatures.len()
    &&& forall|j: int| 0 <= j < n ==> shows_player(#[trigger] added[j], seq![others[j].id], c)
    &&& forall|j: int|
        0 <= j < n ==> shows_player(#[trigger] added[n + j], seq![id], others[j].character)
    &&& forall|j: int|
        0 <= j < creatures.len() ==> shows_creature(#[trigger] added[2 * n + j], seq![id], creatures[j])
}

pub fn announce_character_login(
    id: u64,
    character: &Character,
    others: &Vec<Client>,
    creatures: &Vec<Creature>,
    out: &mut Vec<Effect>,
)
    ensures
        extends(old(out)@, final(out)@),
        announce_effects(id, *character, others@, creatures@, appended(old(out)@, final(out)@)),
{
    let ghost start = out@;
    assert(start.subrange(0, start.len() as int) =~= start);
    let n = others.len();
    let mut i: usize = 0;
    while i < n
        invariant
            n == others@.len(),
            i <= n,
            extends(start, out@),
            out@.len() == start.len() + i,
            forall|j: int| 0 <= j < i ==> shows_player(#[trigger] out@[start.len() + j], seq![others@[j].id], *character),
        decreases n - i,
    {
        out.push(
            Effect::Send {
                recipients: to_one(others[i].id),
                message: ServerMessage::CreatePlayer { character: character.duplicate() },
            },
        );
        assert(out@.subrange(0, start.len() as int) =~= start);
        i = i + 1;
    }
    let mut i: usize = 0;
    while i < n
        invariant
            n == others@.len(),
            i <= n,
            extends(start, out@),
            out@.len() == start.len() + n + i,
            forall|j: int| 0 <= j < n ==> shows_player(#[trigger] out@[start.len() + j], seq![others@[j].id], *character),
            forall|j: int| 0 <= j < i ==> shows_player(#[trigger] out@[start.len() + n + j], seq![id], others@[j].character),
        decreases n - i,
    {
        out.push(
            Effect::Send {
                recipients: to_one(id),
                message: ServerMessage::CreatePlayer { character: others[i].character.duplicate() },
            },
        );
        assert(out@.subrange(0, start.len() as int) =~= start);
        i = i + 1;
    }
    let m = creatures.len();
    let mut i: usize = 0;
    while i < m
        invariant
            n == others@.len(),
            m == creatures@.len(),
            i <= m,
            extends(start, out@),
            out@.len() == start.len() + 2 * n + i,
            forall|j: int| 0 <= j < n ==> shows_player(#[trigger] out@[start.len() + j], seq![others@[j].id], *character),
            forall|j: int| 0 <= j < n ==> shows_player(#[trigger] out@[start.len() + n + j], seq![id], others@[j].character),
            forall|j: int| 0 <= j < i ==> shows_creature(#[trigger] out@[start.len() + 2 * n + j], seq![id], creatures@[j]),
        decreases m - i,
    {
        out.push(
            Effect::Send {
                recipients: to_one(id),
                message: ServerMessage::CreateCreature { creature: creatures[i].duplicate() },
            },
        );
        assert(out@.subrange(0, start.len() as int) =~= start);
        i = i + 1;
    }
    proof {
        let added = appended(start, out@);
        assert forall|j: int| 0 <= j < n implies shows_player(#[trigger] added[j], seq![others@[j].id], *character) by {
            assert(added[j] == out@[start.len() + j]);
        }
        assert forall|j: int| 0 <= j < n implies shows_player(#[trigger] added[n + j], seq![id], others@[j].character) by {
            assert(added[n + j] == out@[start.len() + n + j]);
        }
        assert forall|j: int| 0 <= j < m implies shows_creature(#[trigger] added[2 * n + j], seq![id], creatures@[j]) by {
            assert(added[2 * n + j] == out@[start.len() + 2 * n + j]);
        }
    }
}

/// The passive part of a tick for one player, as a relation.
pub open spec fn combat_update(before: Client, after: Client, others: Seq<Client>, added: Seq<Effect>) -> bool {
    &&& same_connection(after, before)
    &&& after.in_process_of_teleport == before.in_process_of_teleport
    &&& ({
        let c = before.character;
        let t = if c.auto_attack_timer > crate::character::TIMESTEP_MS {
            (c.auto_attack_timer - crate::character::TIMESTEP_MS) as u32
        } else {
            0u32
        };
        if c.attacking && t == 0 {
            &&& after.character == Character { auto_attack_timer: UNARMED_SPEED_MS, ..c }
            &&& added.len() == 1
            &&& sends(
                added[0],
                everyone(before, others),
                ServerMessage::AttackerStateUpdate {
                    attacker: c.guid,
                    target: c.target,
                    damage: AUTO_ATTACK_DAMAGE,
                },
            )
        } else {
            &&& after.character == Character { auto_attack_timer: t, ..c }
            &&& added.len() == 0
        }
    })
}

/// The passive part of a tick for one player: the cooldown runs down, and
/// an attacking player whose cooldown has run out lands one blow, seen by
/// everyone in the world, and starts a new cooldown.
pub fn update_combat(client: &mut Client, others: &Vec<Client>, out: &mut Vec<Effect>)
    ensures
        extends(old(out)@, final(out)@),
        combat_update(*old(client), *final(client), others@, appended(old(out)@, final(out)@)),
{
    let ghost start = out@;
    if client.character.auto_attack_timer > crate::character::TIMESTEP_MS {
        client.character.auto_attack_timer = client.character.auto_attack_timer - crate::character::TIMESTEP_MS;
    } else {
        client.character.auto_attack_timer = 0;
    }
    if client.character.attacking && client.character.auto_attack_timer == 0 {
        client.character.auto_attack_timer = UNARMED_SPEED_MS;
        out.push(
            Effect::Send {
                recipients: to_everyone(client, others),
                message: ServerMessage::AttackerStateUpdate {
                    attacker: client.character.guid,
                    target: client.character.target,
                    damage: AUTO_ATTACK_DAMAGE,
                },
            },
        );
        assert(appended(start, out@) =~= seq![out@.last()]);
    } else {
        assert(appended(start, out@) =~= Seq::<Effect>::empty());
    }
    assert(out@.subrange(0, start.len() as int) =~= start);
}

/// `k` is the first stored character with identifier `guid`.
pub open spec fn first_character(db: Seq<Character>, guid: u64, k: int) -> bool {
    &&& 0 <= k < db.len()
    &&& db[k].guid == guid
    &&& forall|j: int| 0 <= j < k ==> (#[trigger] db[j]).guid != guid
}

/// `k` is the first creature with identifier `guid`.
pub open spec fn first_creature(creatures: Seq<Creature>, guid: u64, k: int) -> bool {
    &&& 0 <= k < creatures.len()
    &&& creatures[k].guid == guid
    &&& forall|j: int| 0 <= j < k ==> (#[trigger] creatures[j]).guid != guid
}

/// Whether `opcode` only asks a question.
pub open spec fn is_query(opcode: ClientOpcode) -> bool {
    match opcode {
        ClientOpcode::Ping { .. } | ClientOpcode::NameQuery { .. } | ClientOpcode::CreatureQuery {
            ..
        } | ClientOpcode::ItemQuerySingle { .. } | ClientOpcode::ItemNameQuery { .. }
        | ClientOpcode::QueryTime => true,
        _ => false,
    }
}

/// The answer to a query from session `id`, read from the store, the
/// creatures, the static item tables and the time `now`.
pub open spec fn query_reply(
    db: Seq<Character>,
    creatures: Seq<Creature>,
    now: u32,
    id: u64,
    opcode: ClientOpcode,
    added: Seq<Effect>,
) -> bool {
    match opcode {
        ClientOpcode::Ping { sequence_id } => added.len() == 1 && sends(
            added[0],
            seq![id],
            ServerMessage::Pong { sequence_id },
        ),
        ClientOpcode::NameQuery { guid } => added.len() == 1 && if exists|k: int|
            first_character(db, guid, k) {
            exists|k: int|
                first_character(db, guid, k) && match added[0] {
                    Effect::Send {
                        recipients,
                        message: ServerMessage::NameQueryResponse { guid: g, name, race, gender, class },
                    } => recipients@ == seq![id] && g == guid && name@ == db[k].name@ && race
                        == db[k].race && gender == db[k].gender && class == db[k].class,
                    _ => false,
                }
        } else {
            match added[0] {
                Effect::Send {
                    recipients,
                    message: ServerMessage::System { notice: Notice::TargetNotFound { guid: g } },
                } => recipients@ == seq![id] && g == guid,
                _ => false,
            }
        },
        ClientOpcode::CreatureQuery { entry, guid } => if exists|k: int|
            first_creature(creatures, guid, k) {
            added.len() == 1 && exists|k: int|
                first_creature(creatures, guid, k) && match added[0] {
                    Effect::Send {
                        recipients,
                        message: ServerMessage::CreatureQueryResponse { entry: e, name },
                    } => recipients@ == seq![id] && e == entry && name@ == creatures[k].name@,
                    _ => false,
                }
        } else {
            added.len() == 0
        },
        ClientOpcode::ItemQuerySingle { item } => added.len() == 1 && if item_known(item) {
            sends(added[0], seq![id], ServerMessage::ItemQueryResponse { item })
        } else {
            sends(added[0], seq![id], ServerMessage::ItemNotFound { item: item | 0x8000_0000 })
        },
        ClientOpcode::ItemNameQuery { item } => if item_known(item) {
            added.len() == 1 && sends(added[0], seq![id], ServerMessage::ItemNameQueryResponse { item })
        } else {
            added.len() == 0
        },
        ClientOpcode::QueryTime => added.len() == 1 && sends(
            added[0],
            seq![id],
            ServerMessage::QueryTimeResponse { time: now },
        ),
        _ => false,
    }
}

/// Two effects that put the same bytes on the same connections.
pub open spec fn same_effect(a: Effect, b: Effect) -> bool {
    match (a, b) {
        (
            Effect::Send {
                recipients: ra,
                message: ServerMessage::NameQueryResponse { guid: ga, name: na, race: xa, gender: da, class: ca },
            },
            Effect::Send {
                recipients: rb,
                message: ServerMessage::NameQueryResponse { guid: gb, name: nb, race: xb, gender: db, class: cb },
            },
        ) => ra@ == rb@ && ga == gb && na@ == nb@ && xa == xb && da == db && ca == cb,
        (
            Effect::Send {
                recipients: ra,
                message: ServerMessage::CreatureQueryResponse { entry: ea, name: na },
            },
            Effect::Send {
                recipients: rb,
                message: ServerMessage::CreatureQueryResponse { entry: eb, name: nb },
            },
        ) => ra@ == rb@ && ea == eb && na@ == nb@,
        (
            Effect::Send { recipients: ra, message: ma },
            Effect::Send { recipients: rb, message: mb },
        ) => ra@ == rb@ && ma == mb,
        _ => a == b,
    }
}

pub open spec fn same_effects(a: Seq<Effect>, b: Seq<Effect>) -> bool {
    a.len() == b.len() && forall|i: int| 0 <= i < a.len() ==> same_effect(#[trigger] a[i], b[i])
}

/// Index of the first creature with identifier `guid`.
pub fn find_creature(creatures: &Vec<Creature>, guid: u64) -> (r: Option<usize>)
    ensures
        match r {
            Some(k) => first_creature(creatures@, guid, k as int),
            None => forall|j: int| 0 <= j < creatures@.len() ==> (#[trigger] creatures@[j]).guid != guid,
        },
{
    let mut i: usize = 0;
    while i < creatures.len()
        invariant
            i <= creatures@.len(),
            forall|j: int| 0 <= j < i ==> (#[trigger] creatures@[j]).guid != guid,
        decreases creatures@.len() - i,
    {
        if creatures[i].guid == guid {
            return Some(i);
        }
        i = i + 1;
    }
    None
}

/// Answers a query opcode; nothing in the world or the store changes.
pub fn answer_query(
    client: &Client,
    creatures: &Vec<Creature>,
    db: &WorldDatabase,
    now: u32,
    opcode: &ClientOpcode,
    out: &mut Vec<Effect>,
)
    requires
        db.wf(),
        is_query(*opcode),
    ensures
        extends(old(out)@, final(out)@),
        query_reply(db.characters(), creatures@, now, client.id, *opcode, appended(old(out)@, final(out)@)),
{
    let ghost start = out@;
    assert(start.subrange(0, start.len() as int) =~= start);
    match opcode {
        ClientOpcode::Ping { sequence_id } => {
            out.push(
                Effect::Send {
                    recipients: to_one(client.id),
                    message: ServerMessage::Pong { sequence_id: *sequence_id },
                },
            );
        },
        ClientOpcode::NameQuery { guid } => {
            match db.get_character_by_guid(*guid) {
                Some(c) => {
                    let ghost k = choose|i: int| 0 <= i < db.characters().len()
                        && (#[trigger] db.characters()[i]).guid == *guid
                        && c.same_as(db.characters()[i]) && (forall|j: int| 0 <= j < i ==> (#[trigger] db.characters()[j]).guid != *guid);
                    assert(first_character(db.characters(), *guid, k));
                    out.push(
                        Effect::Send {
                            recipients: to_one(client.id),
                            message: ServerMessage::NameQueryResponse {
                                guid: *guid,
                                name: c.name,
                                race: c.race,
                                gender: c.gender,
                                class: c.class,
                            },
                        },
                    );
                },
                None => {
                    assert(!exists|k: int| first_character(db.characters(), *guid, k));
                    out.push(
                        Effect::Send {
                            recipients: to_one(client.id),
                            message: ServerMessage::System {
                                notice: Notice::TargetNotFound { guid: *guid },
                            },
                        },
                    );
                },
            }
        },
        ClientOpcode::CreatureQuery { entry, guid } => {
            match find_creature(creatures, *guid) {
                Some(i) => {
                    out.push(
                        Effect::Send {
                            recipients: to_one(client.id),
                            message: ServerMessage::CreatureQueryResponse {
                                entry: *entry,
                                name: creatures[i].name.clone(),
                            },
                        },
                    );
                    assert(first_creature(creatures@, *guid, i as int));
                    assert(appended(start, out@) =~= seq![out@.last()]);
                },
                None => {
                    assert(!exists|k: int| first_creature(creatures@, *guid, k));
                },
            }
        },
        ClientOpcode::ItemQuerySingle { item } => {
            if lookup_item_exists(*item) {
                out.push(
                    Effect::Send {
                        recipients: to_one(client.id),
                        message: ServerMessage::ItemQueryResponse { item: *item },
                    },
                );
            } else {
                out.push(
                    Effect::Send {
                        recipients: to_one(client.id),
                        message: ServerMessage::ItemNotFound { item: *item | 0x8000_0000 },
                    },
                );
            }
        },
        ClientOpcode::ItemNameQuery { item } => {
            if lookup_item_exists(*item) {
                out.push(
                    Effect::Send {
                        recipients: to_one(client.id),
                        message: ServerMessage::ItemNameQueryResponse { item: *item },
                    },
                );
            }
        },
        ClientOpcode::QueryTime => {
            out.push(
                Effect::Send {
                    recipients: to_one(client.id),
                    message: ServerMessage::QueryTimeResponse { time: now },
                },
            );
        },
        _ => {},
    }
    proof {
        if out@.len() == start.len() + 1 {
            assert(appended(start, out@) =~= seq![out@.last()]);
        } else {
            assert(appended(start, out@) =~= Seq::<Effect>::empty());
        }
        assert(out@.subrange(0, start.len() as int) =~= start);
    }
}

/// Asking the same question twice of an unchanged world gives the same
/// answer, byte for byte.
pub proof fn lemma_query_idempotent(
    db: Seq<Character>,
    creatures: Seq<Creature>,
    now: u32,
    id: u64,
    opcode: ClientOpcode,
    first: Seq<Effect>,
    second: Seq<Effect>,
)
    requires
        is_query(opcode),
        query_reply(db, creatures, now, id, opcode, first),
        query_reply(db, creatures, now, id, opcode, second),
    ensures
        same_effects(first, second),
{
    match opcode {
        ClientOpcode::NameQuery { guid } => {
            if exists|k: int| first_character(db, guid, k) {
                let k1 = choose|k: int| first_character(db, guid, k) && match first[0] {
                    Effect::Send {
                        recipients,
                        message: ServerMessage::NameQueryResponse { guid: g, name, race, gender, class },
                    } => recipients@ == seq![id] && g == guid && name@ == db[k].name@ && race
                        == db[k].race && gender == db[k].gender && class == db[k].class,
                    _ => false,
                };
                let k2 = choose|k: int| first_character(db, guid, k) && match second[0] {
                    Effect::Send {
                        recipients,
                        message: ServerMessage::NameQueryResponse { guid: g, name, race, gender, class },
                    } => recipients@ == seq![id] && g == guid && name@ == db[k].name@ && race
                        == db[k].race && gender == db[k].gender && class == db[k].class,
                    _ => false,
                };
                lemma_first_unique_character(db, guid, k1, k2);
            }
        },
        ClientOpcode::CreatureQuery { entry, guid } => {
            if exists|k: int| first_creature(creatures, guid, k) {
                let k1 = choose|k: int| first_creature(creatures, guid, k) && match first[0] {
                    Effect::Send {
                        recipients,
                        message: ServerMessage::CreatureQueryResponse { entry: e, name },
                    } => recipients@ == seq![id] && e == entry && name@ == creatures[k].name@,
                    _ => false,
                };
                let k2 = choose|k: int| first_creature(creatures, guid, k) && match second[0] {
                    Effect::Send {
                        recipients,
                        message: ServerMessage::CreatureQueryResponse { entry: e, name },
                    } => recipients@ == seq![id] && e == entry && name@ == creatures[k].name@,
                    _ => false,
                };
                lemma_first_unique_creature(creatures, guid, k1, k2);
            }
        },
        _ => {},
    }
}

pub proof fn lemma_first_unique_character(db: Seq<Character>, guid: u64, a: int, b: int)
    requires
        first_character(db, guid, a),
        first_character(db, guid, b),
    ensures
        a == b,
{
    if a < b {
        assert(db[a].guid != guid);
    } else if b < a {
        assert(db[b].guid != guid);
    }
}

proof fn lemma_first_unique_creature(creatures: Seq<Creature>, guid: u64, a: int, b: int)
    requires
        first_creature(creatures, guid, a),
        first_creature(creatures, guid, b),
    ensures
        a == b,
{
    if a < b {
        assert(creatures[a].guid != guid);
    } else if b < a {
        assert(creatures[b].guid != guid);
    }
}

/// The inventory after swapping two slots.
pub open spec fn swapped(s: Seq<Option<Item>>, a: int, b: int) -> Seq<Option<Item>> {
    s.update(a, s[b]).update(b, s[a])
}

/// The identifier of what a slot holds, zero when it is empty.
pub open spec fn slot_guid(s: Seq<Option<Item>>, slot: int) -> u64 {
    match s[slot] {
        Some(item) => item.guid,
        None => 0,
    }
}

/// `e` tells everyone what the player with character `c` now wears, after
/// slots `a` and `b` changed.
pub open spec fn is_equipment_update(e: Effect, to: Seq<u64>, c: Character, a: u8, b: u8) -> bool {
    match e {
        Effect::Send {
            recipients,
            message: ServerMessage::EquipmentUpdate {
                guid,
                source_slot,
                source_item,
                destination_slot,
                destination_item,
                equipment,
            },
        } => recipients@ == to && guid == c.guid && source_slot == a && destination_slot == b
            && source_item == slot_guid(c.inventory@, a as int) && destination_item == slot_guid(
            c.inventory@,
            b as int,
        ) && equipment@ == c.inventory@.subrange(0, crate::inventory::EQUIPMENT_SLOTS as int),
        _ => false,
    }
}

/// `e` starts the world-entry sequence for `c` on session `id`.
pub open spec fn is_login_sequence(e: Effect, id: u64, c: Character) -> bool {
    match e {
        Effect::Send { recipients, message: ServerMessage::LoginSequence { character } } =>
            recipients@ == seq![id] && character.same_as(c),
        _ => false,
    }
}

/// Chat that starts with a dot is a game master's command.
pub open spec fn is_command_text(m: Seq<char>) -> bool {
    m.len() > 0 && m[0] == '.'
}

/// What one opcode from an in-world player does to its session, to the
/// store, and what it sends.
pub open spec fn world_opcode_effects(
    before: Client,
    after: Client,
    others: Seq<Client>,
    creatures: Seq<Creature>,
    db_before: WorldDatabase,
    db_after: WorldDatabase,
    now: u32,
    opcode: ClientOpcode,
    added: Seq<Effect>,
) -> bool {
    match opcode {
        ClientOpcode::MessageChat { message, .. } => if is_command_text(message@) {
            exists|cmd: Result<GmCommand, GmCommandError>|
                command_result(message@.skip(leading_dots(message@)), before, others, creatures, cmd)
                    && command_effects(before, after, others, creatures, db_before, db_after, cmd, added)
        } else {
            db_after == db_before && plain_opcode_effects(before, after, others, creatures, db_before.characters(), now, opcode, added)
        },
        _ => db_after == db_before && plain_opcode_effects(before, after, others, creatures, db_before.characters(), now, opcode, added),
    }
}

/// What one opcode other than a command does to the session of an
/// in-world player, and what it sends.
pub open spec fn plain_opcode_effects(
    before: Client,
    after: Client,
    others: Seq<Client>,
    creatures: Seq<Creature>,
    db: Seq<Character>,
    now: u32,
    opcode: ClientOpcode,
    added: Seq<Effect>,
) -> bool {
    let c = before.character;
    let kept = same_connection(after, before) && after.in_process_of_teleport
        == before.in_process_of_teleport;
    let unchanged = kept && after.character == c;
    match opcode {
        ClientOpcode::Movement { kind, info } => kept && after.character == Character { info, ..c }
            && added.len() == 1 && sends(
            added[0],
            session_ids(others),
            ServerMessage::Movement { kind, guid: c.guid, info },
        ),
        ClientOpcode::MoveFallReset { info } => kept && after.character == Character { info, ..c }
            && added.len() == 0,
        ClientOpcode::MessageChat { chat_type, message } => unchanged && chat_effects(
            before,
            others,
            chat_type,
            message@,
            added,
        ),
        ClientOpcode::SetSelection { target } => kept && after.character == Character {
            target,
            ..c
        } && added.len() == 0,
        ClientOpcode::AttackSwing { target } => kept && after.character == Character {
            target,
            attacking: true,
            ..c
        } && if c.auto_attack_timer == 0 {
            added.len() == 1 && sends(
                added[0],
                everyone(before, others),
                ServerMessage::AttackStart { attacker: c.guid, victim: target },
            )
        } else {
            added.len() == 0
        },
        ClientOpcode::AttackStop => kept && after.character == Character { attacking: false, ..c }
            && added.len() == 1 && sends(
            added[0],
            everyone(before, others),
            ServerMessage::AttackStop { player: c.guid, enemy: c.target },
        ),
        ClientOpcode::SwapInvItem { source_slot, destination_slot } => if source_slot
            < AMOUNT_OF_SLOTS && destination_slot < AMOUNT_OF_SLOTS {
            &&& kept
            &&& after.character == Character { inventory: after.character.inventory, ..c }
            &&& after.character.inventory@ == swapped(
                c.inventory@,
                source_slot as int,
                destination_slot as int,
            )
            &&& added.len() == 1
            &&& is_equipment_update(
                added[0],
                everyone(before, others),
                after.character,
                source_slot,
                destination_slot,
            )
        } else {
            unchanged && added.len() == 0
        },
        ClientOpcode::LogoutRequest => {
            &&& after.logout_requested
            &&& after.id == before.id && after.account_name == before.account_name
            &&& after.received_messages == before.received_messages
            &&& after.reader_finished == before.reader_finished
            &&& after.in_process_of_teleport == before.in_process_of_teleport
            &&& after.character == c
            &&& added.len() == 2
            &&& sends(added[0], seq![before.id], ServerMessage::LogoutResponse)
            &&& sends(added[1], seq![before.id], ServerMessage::LogoutComplete)
        },
        ClientOpcode::Ping { .. } | ClientOpcode::NameQuery { .. } | ClientOpcode::CreatureQuery {
            ..
        } | ClientOpcode::ItemQuerySingle { .. } | ClientOpcode::ItemNameQuery { .. }
        | ClientOpcode::QueryTime => unchanged && query_reply(
            db,
            creatures,
            now,
            before.id,
            opcode,
            added,
        ),
        ClientOpcode::WorldTeleport { destination } => {
            &&& same_connection(after, before)
            &&& after.character == placed_at(c, destination)
            &&& if destination.map == c.map {
                &&& after.in_process_of_teleport == before.in_process_of_teleport
                &&& added.len() == 1
                &&& sends(
                    added[0],
                    seq![before.id],
                    ServerMessage::TeleportAck { guid: c.guid, destination },
                )
            } else {
                &&& after.in_process_of_teleport
                &&& added.len() == 2
                &&& sends(added[0], seq![before.id], ServerMessage::TransferPending { map: destination.map })
                &&& sends(added[1], seq![before.id], ServerMessage::NewWorld { destination })
            }
        },
        ClientOpcode::WorldportAck => if before.in_process_of_teleport {
            &&& same_connection(after, before)
            &&& !after.in_process_of_teleport
            &&& after.character == c
            &&& added.len() >= 1
            &&& is_login_sequence(added[0], before.id, c)
            &&& announce_effects(before.id, c, others, creatures, added.skip(1))
        } else {
            unchanged && added.len() == 0
        },
        ClientOpcode::TextEmote { text_emote, emote } => {
            &&& unchanged
            &&& added.len() == 2
            &&& sends(
                added[0],
                seq![before.id],
                ServerMessage::System { notice: Notice::TextEmote { text_emote, emote } },
            )
            &&& sends(
                added[1],
                everyone(before, others),
                ServerMessage::Emote { guid: c.guid, text_emote, emote },
            )
        },
        _ => unchanged && added.len() == 0,
    }
}

/// Interprets one opcode from an in-world player against the world.
pub fn handle_opcode(
    client: &mut Client,
    others: &Vec<Client>,
    creatures: &Vec<Creature>,
    db: &mut WorldDatabase,
    now: u32,
    opcode: &ClientOpcode,
    out: &mut Vec<Effect>,
)
    requires
        old(client).character.wf(),
        ids_below(old(client).character, old(db).next_id()),
        old(db).wf(),
    ensures
        final(client).character.wf(),
        ids_below(final(client).character, final(db).next_id()),
        final(db).wf(),
        final(db).next_id() >= old(db).next_id(),
        final(db).characters() == old(db).characters(),
        extends(old(out)@, final(out)@),
        world_opcode_effects(
            *old(client),
            *final(client),
            others@,
            creatures@,
            *old(db),
            *final(db),
            now,
            *opcode,
            appended(old(out)@, final(out)@),
        ),
{
    let ghost start = out@;
    assert(start.subrange(0, start.len() as int) =~= start);
    let guid = client.character.guid;
    match opcode {
        ClientOpcode::Movement { kind, info } => {
            client.character.info = *info;
            out.push(
                Effect::Send {
                    recipients: all_ids(others),
                    message: ServerMessage::Movement { kind: *kind, guid, info: *info },
                },
            );
        },
        ClientOpcode::MoveFallReset { info } => {
            client.character.info = *info;
        },
        ClientOpcode::MessageChat { chat_type, message } => {
            let text = message.as_str();
            if text.unicode_len() > 0 && text.get_char(0) == '.' {
                let command = strip_leading_dots(text);
                gm_command(client, others, creatures, command, db, out);
                return;
            }
            handle_message(client, others, chat_type, message, out);
        },
        ClientOpcode::SetSelection { target } => {
            client.character.target = *target;
        },
        ClientOpcode::AttackSwing { target } => {
            client.character.target = *target;
            client.character.attacking = true;
            if client.character.auto_attack_timer == 0 {
                out.push(
                    Effect::Send {
                        recipients: to_everyone(client, others),
                        message: ServerMessage::AttackStart { attacker: guid, victim: *target },
                    },
                );
            }
        },
        ClientOpcode::AttackStop => {
            client.character.attacking = false;
            out.push(
                Effect::Send {
                    recipients: to_everyone(client, others),
                    message: ServerMessage::AttackStop {
                        player: guid,
                        enemy: client.character.target,
                    },
                },
            );
        },
        ClientOpcode::SwapInvItem { source_slot, destination_slot } => {
            let a = *source_slot as usize;
            let b = *destination_slot as usize;
            if a < AMOUNT_OF_SLOTS && b < AMOUNT_OF_SLOTS {
                client.character.inventory.swap(a, b);
                let source_item = match client.character.inventory.get(a) {
                    Some(item) => item.guid,
                    None => 0,
                };
                let destination_item = match client.character.inventory.get(b) {
                    Some(item) => item.guid,
                    None => 0,
                };
                let equipment = client.character.inventory.equipment();
                out.push(
                    Effect::Send {
                        recipients: to_everyone(client, others),
                        message: ServerMessage::EquipmentUpdate {
                            guid,
                            source_slot: *source_slot,
                            source_item,
                            destination_slot: *destination_slot,
                            destination_item,
                            equipment,
                        },
                    },
                );
            }
        },
        ClientOpcode::LogoutRequest => {
            out.push(
                Effect::Send { recipients: to_one(client.id), message: ServerMessage::LogoutResponse },
            );
            out.push(
                Effect::Send { recipients: to_one(client.id), message: ServerMessage::LogoutComplete },
            );
            client.logout_requested = true;
            assert(appended(start, out@) =~= seq![out@[out@.len() - 2], out@[out@.len() - 1]]);
        },
        ClientOpcode::Ping { .. } | ClientOpcode::NameQuery { .. } | ClientOpcode::CreatureQuery {
            ..
        } | ClientOpcode::ItemQuerySingle { .. } | ClientOpcode::ItemNameQuery { .. }
        | ClientOpcode::QueryTime => {
            answer_query(client, creatures, db, now, opcode, out);
        },
        ClientOpcode::WorldTeleport { destination } => {
            prepare_teleport(*destination, client, out);
        },
        ClientOpcode::WorldportAck => {
            if client.in_process_of_teleport {
                client.in_process_of_teleport = false;
                out.push(
                    Effect::Send {
                        recipients: to_one(client.id),
                        message: ServerMessage::LoginSequence { character: client.character.duplicate() },
                    },
                );
                let ghost mid = out@;
                assert(mid.subrange(0, start.len() as int) =~= start);
                announce_character_login(client.id, &client.character, others, creatures, out);
                proof {
                    assert(out@.subrange(0, mid.len() as int) == mid);
                    assert(out@.subrange(0, start.len() as int) =~= start) by {
                        assert(out@.subrange(0, start.len() as int) =~= out@.subrange(0, mid.len() as int).subrange(0, start.len() as int));
                    }
                    let added = appended(start, out@);
                    assert(out@.subrange(0, mid.len() as int)[start.len() as int] == out@[start.len() as int]);
                    assert(mid[start.len() as int] == out@[start.len() as int]);
                    assert(is_login_sequence(mid.last(), client.id, client.character));
                    assert(added[0] == out@[start.len() as int]);
                    assert(added.skip(1) =~= appended(mid, out@));
                }
            }
        },
        ClientOpcode::TextEmote { text_emote, emote } => {
            out.push(
                Effect::Send {
                    recipients: to_one(client.id),
                    message: ServerMessage::System {
                        notice: Notice::TextEmote { text_emote: *text_emote, emote: *emote },
                    },
                },
            );
            out.push(
                Effect::Send {
                    recipients: to_everyone(client, others),
                    message: ServerMessage::Emote { guid, text_emote: *text_emote, emote: *emote },
                },
            );
            assert(appended(start, out@) =~= seq![out@[out@.len() - 2], out@[out@.len() - 1]]);
        },
        _ => {},
    }
    proof {
        if out@.len() == start.len() + 1 {
            assert(appended(start, out@) =~= seq![out@.last()]);
        } else if out@.len() == start.len() {
            assert(appended(start, out@) =~= Seq::<Effect>::empty());
        }
        assert(out@.subrange(0, start.len() as int) =~= start);
    }
}

} // verus!
