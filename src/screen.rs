use vstd::prelude::*;

use crate::character::{starter_kit, Character};
use crate::database::{ids_below, WorldDatabase};
use crate::dispatch::{appended, extends, first_character, is_login_sequence, sends};
use crate::protocol::{ClientOpcode, Effect, ServerMessage};
use crate::race::{
    character_race_class_combo_is_valid, class_id, gender_id, race_class_allowed, race_id, Class,
    Gender, Race,
};
use crate::session::{CharacterScreenClient, CharacterScreenProgress};

verus! {

/// Whether the wire identifiers name a race and class that may be played
/// together, and a male or female gender.
pub open spec fn creation_allowed(race: u8, class: u8, gender: u8) -> bool {
    exists|r: Race, c: Class, g: Gender|
        race_id(r) == race && class_id(c) == class && gender_id(g) == gender
            && race_class_allowed(r, c) && g != Gender::Neutral
}

/// A new character from the choices of the creation screen; `None` when
/// the race, class or gender cannot be played, or when no identifier is left.
pub fn create_character(
    db: &mut WorldDatabase,
    name: String,
    race: u8,
    class: u8,
    gender: u8,
    skin: u8,
    face: u8,
    hair_style: u8,
    hair_color: u8,
    facial_hair: u8,
) -> (r: Option<Character>)
    requires
        old(db).wf(),
    ensures
        final(db).wf(),
        final(db).characters() == old(db).characters(),
        final(db).next_id() >= old(db).next_id(),
        !creation_allowed(race, class, gender) ==> r is None && final(db).next_id() == old(db).next_id(),
        creation_allowed(race, class, gender) && old(db).next_id() + starter_kit(race, class).len()
            < u64::MAX ==> r is Some,
        r is Some ==> old(db).next_id() + starter_kit(race, class).len() < u64::MAX,
        r matches Some(c) ==> {
            &&& c.wf()
            &&& ids_below(c, final(db).next_id())
            &&& c.guid == old(db).next_id()
            &&& c.name@ == name@
            &&& race_id(c.race) == race && class_id(c.class) == class && gender_id(c.gender) == gender
            &&& c.skin == skin && c.face == face && c.hairstyle == hair_style
            &&& c.haircolor == hair_color && c.facialhair == facial_hair && c.level == 1
        },
{
    let r = match Race::from_id(race) {
        Some(r) => r,
        None => return None,
    };
    let c = match Class::from_id(class) {
        Some(c) => c,
        None => return None,
    };
    let g = match Gender::from_id(gender) {
        Some(g) => g,
        None => return None,
    };
    proof {
        assert forall|r2: Race, c2: Class, g2: Gender|
            race_id(r2) == race && class_id(c2) == class && gender_id(g2) == gender implies r2 == r
            && c2 == c && g2 == g by {
            assert(race_id(r2) == race_id(r));
            assert(class_id(c2) == class_id(c));
            assert(gender_id(g2) == gender_id(g));
        }
    }
    if !character_race_class_combo_is_valid(r, c) || g == Gender::Neutral {
        return None;
    }
    Character::new(db, name, r, c, g, skin, face, hair_style, hair_color, facial_hair)
}

/// What one opcode from a session on the character screen does.
pub open spec fn screen_opcode_effects(
    before: CharacterScreenClient,
    after: CharacterScreenClient,
    db_before: WorldDatabase,
    db_after: WorldDatabase,
    opcode: ClientOpcode,
    added: Seq<Effect>,
) -> bool {
    let kept = after.id == before.id && after.account_name == before.account_name
        && after.received_messages == before.received_messages && after.reader_finished
        == before.reader_finished;
    let unchanged = kept && after.status == before.status;
    let db = db_before.characters();
    match opcode {
        ClientOpcode::Ping { sequence_id } => unchanged && db_after == db_before && added.len() == 1
            && sends(added[0], seq![before.id], ServerMessage::Pong { sequence_id }),
        ClientOpcode::CharEnum => unchanged && db_after == db_before && added.len() == 1
            && match added[0] {
            Effect::Send { recipients, message: ServerMessage::CharacterList { characters } } =>
                recipients@ == seq![before.id] && characters@.len() == db.len() && forall|i: int|
                    0 <= i < db.len() ==> (#[trigger] characters@[i]).same_as(db[i]),
            _ => false,
        },
        ClientOpcode::CharCreate { name, race, class, gender, .. } => {
            &&& unchanged
            &&& added.len() == 1
            &&& db_after.next_id() >= db_before.next_id()
            &&& if creation_allowed(race, class, gender) && db_before.next_id() + starter_kit(race, class).len() < u64::MAX {
                &&& db_after.characters().len() == db.len() + 1
                &&& db_after.characters().drop_last() == db
                &&& db_after.characters().last().guid == db_before.next_id()
                &&& db_after.characters().last().name@ == name@
                &&& sends(added[0], seq![before.id], ServerMessage::CharacterCreateResult { success: true })
            } else {
                &&& db_after.characters() == db
                &&& sends(added[0], seq![before.id], ServerMessage::CharacterCreateResult { success: false })
            }
        },
        ClientOpcode::CharDelete { guid } => {
            &&& unchanged
            &&& added.len() == 0
            &&& db_after.next_id() == db_before.next_id()
            &&& if exists|k: int| first_character(db, guid, k) {
                exists|k: int|
                    first_character(db, guid, k) && db_after.characters() == db.remove(k)
            } else {
                db_after.characters() == db
            }
        },
        ClientOpcode::PlayerLogin { guid } => db_after == db_before && kept && added.len() == 1
            && if exists|k: int| first_character(db, guid, k) {
            &&& after.status == CharacterScreenProgress::WaitingToLogIn(guid)
            &&& exists|k: int| first_character(db, guid, k) && is_login_sequence(added[0], before.id, db[k])
        } else {
            &&& after.status == before.status
            &&& sends(added[0], seq![before.id], ServerMessage::CharacterLoginFailed)
        },
        _ => unchanged && db_after == db_before && added.len() == 0,
    }
}

fn to_one(id: u64) -> (r: Vec<u64>)
    ensures
        r@ == seq![id],
{
    let mut r: Vec<u64> = Vec::new();
    r.push(id);
    r
}

/// Interprets one opcode from a session on the character screen.
pub fn handle_character_screen_opcode(
    client: &mut CharacterScreenClient,
    db: &mut WorldDatabase,
    opcode: &ClientOpcode,
    out: &mut Vec<Effect>,
)
    requires
        old(db).wf(),
    ensures
        final(db).wf(),
        extends(old(out)@, final(out)@),
        screen_opcode_effects(*old(client), *final(client), *old(db), *final(db), *opcode, appended(old(out)@, final(out)@)),
{
    let ghost start = out@;
    assert(start.subrange(0, start.len() as int) =~= start);
    match opcode {
        ClientOpcode::Ping { sequence_id } => {
            out.push(
                Effect::Send {
                    recipients: to_one(client.id),
                    message: ServerMessage::Pong { sequence_id: *sequence_id },
                },
            );
        },
        ClientOpcode::CharEnum => {
            let characters = db.get_characters_for_account(client.account_name.as_str());
            out.push(
                Effect::Send {
                    recipients: to_one(client.id),
                    message: ServerMessage::CharacterList { characters },
                },
            );
        },
        ClientOpcode::CharCreate {
            name,
            race,
            class,
            gender,
            skin,
            face,
            hair_style,
            hair_color,
            facial_hair,
        } => {
            let created = create_character(
                db,
                name.clone(),
                *race,
                *class,
                *gender,
                *skin,
                *face,
                *hair_style,
                *hair_color,
                *facial_hair,
            );
            match created {
                Some(c) => {
                    let ghost before = db.characters();
                    db.create_character_in_account(client.account_name.as_str(), c);
                    assert(db.characters().drop_last() =~= before);
                    out.push(
                        Effect::Send {
                            recipients: to_one(client.id),
                            message: ServerMessage::CharacterCreateResult { success: true },
                        },
                    );
                },
                None => {
                    out.push(
                        Effect::Send {
                            recipients: to_one(client.id),
                            message: ServerMessage::CharacterCreateResult { success: false },
                        },
                    );
                },
            }
        },
        ClientOpcode::CharDelete { guid } => {
            let ghost before = db.characters();
            let deleted = db.delete_character_by_guid(client.account_name.as_str(), *guid);
            proof {
                if deleted {
                    let i = choose|i: int| 0 <= i < before.len() && (#[trigger] before[i]).guid == *guid
                        && (forall|k: int| 0 <= k < i ==> (#[trigger] before[k]).guid != *guid)
                        && db.characters() == before.remove(i);
                    lemma_first_exists(before, *guid, i);
                    let k = choose|k: int| first_character(before, *guid, k);
                    assert(k == i) by {
                        if k < i { assert(before[k].guid == *guid); }
                        if i < k { assert(before[i].guid != *guid); }
                    };
                } else {
                    assert(!exists|k: int| first_character(before, *guid, k));
                }
            }
        },
        ClientOpcode::PlayerLogin { guid } => {
            match db.get_character_by_guid(*guid) {
                Some(c) => {
                    let ghost k = choose|i: int| 0 <= i < db.characters().len()
                        && (#[trigger] db.characters()[i]).guid == *guid
                        && c.same_as(db.characters()[i]) && (forall|j: int| 0 <= j < i ==> (#[trigger] db.characters()[j]).guid != *guid);
                    assert(first_character(db.characters(), *guid, k));
                    client.status = CharacterScreenProgress::WaitingToLogIn(*guid);
                    out.push(
                        Effect::Send {
                            recipients: to_one(client.id),
                            message: ServerMessage::LoginSequence { character: c },
                        },
                    );
                },
                None => {
                    assert(!exists|k: int| first_character(db.characters(), *guid, k));
                    out.push(
                        Effect::Send {
                            recipients: to_one(client.id),
                            message: ServerMessage::CharacterLoginFailed,
                        },
                    );
                },
            }
        },
        _ => {},
    }
    proof {
        if out@.len() == start.len() + 1 {
            assert(appended(start, out@) =~= seq![out@.last()]);
        } else if out@.len() == start.len() {
            assert(appended(start, out@) =~= Seq::<Effect>::empty());
        }
        assert(out@.subrange(0, start.len() as int) =~= start);
    }
}

/// When some stored character has identifier `guid`, a first one does.
proof fn lemma_first_exists(db: Seq<Character>, guid: u64, i: int)
    requires
        0 <= i < db.len(),
        db[i].guid == guid,
    ensures
        exists|k: int| first_character(db, guid, k),
    decreases i,
{
    if exists|j: int| 0 <= j < i && (#[trigger] db[j]).guid == guid {
        let j = choose|j: int| 0 <= j < i && (#[trigger] db[j]).guid == guid;
        lemma_first_exists(db, guid, j);
    } else {
        assert(first_character(db, guid, i));
    }
}

} // verus!
