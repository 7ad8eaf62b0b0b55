use vstd::prelude::*;
use vstd::seq_lib::*;

use crate::chat::session_ids;
use crate::creature::Creature;
use crate::database::{ids_below, lemma_ids_below_grows, WorldDatabase};
use crate::character::Character;
use crate::dispatch::{
    combat_update, world_opcode_effects, announce_character_login, announce_effects, appended, extends, first_character, handle_opcode,
    lemma_first_unique_character, sends, update_combat,
};
use crate::protocol::{ClientOpcode, Effect, ServerMessage};
use crate::screen::{handle_character_screen_opcode, screen_opcode_effects};
use crate::session::{CharacterScreenClient, CharacterScreenProgress, Client};

verus! {

broadcast use vstd::seq_lib::group_to_multiset_ensures, vstd::seq_lib::lemma_multiset_commutative;

/// The session identifiers of character-screen sessions, in order.
pub open spec fn screen_ids(s: Seq<CharacterScreenClient>) -> Seq<u64> {
    s.map_values(|c: CharacterScreenClient| c.id)
}

/// The single authority over every session and creature.
#[derive(Debug)]
pub struct World {
    pub clients: Vec<Client>,
    pub clients_on_character_screen: Vec<CharacterScreenClient>,
    pub clients_waiting_to_join: Vec<CharacterScreenClient>,
    pub creatures: Vec<Creature>,
}

/// A sequence whose multiset of elements is within that of a sequence
/// without repetitions has none either.
proof fn lemma_no_duplicates_within(big: Seq<u64>, small: Seq<u64>)
    requires
        big.no_duplicates(),
        small.to_multiset().subset_of(big.to_multiset()),
    ensures
        small.no_duplicates(),
{
    big.lemma_multiset_has_no_duplicates();
    assert forall|x: u64| small.to_multiset().contains(x) implies small.to_multiset().count(x) == 1 by {
        assert(small.to_multiset().count(x) <= big.to_multiset().count(x));
    }
    small.lemma_multiset_has_no_duplicates_conv();
}

/// Adding an element that was absent keeps a sequence free of repetitions.
proof fn lemma_no_duplicates_fresh(old_ids: Seq<u64>, new_ids: Seq<u64>, x: u64)
    requires
        old_ids.no_duplicates(),
        !old_ids.contains(x),
        new_ids.to_multiset() == old_ids.to_multiset().insert(x),
    ensures
        new_ids.no_duplicates(),
{
    old_ids.lemma_multiset_has_no_duplicates();
    assert forall|y: u64| new_ids.to_multiset().contains(y) implies new_ids.to_multiset().count(y) == 1 by {
        if y == x {
            assert(old_ids.to_multiset().count(x) == 0);
        }
    }
    new_ids.lemma_multiset_has_no_duplicates_conv();
}

proof fn lemma_screen_ids_push(s: Seq<CharacterScreenClient>, c: CharacterScreenClient)
    ensures
        screen_ids(s.push(c)) == screen_ids(s).push(c.id),
{
    assert(screen_ids(s.push(c)) =~= screen_ids(s).push(c.id));
}

proof fn lemma_screen_ids_remove(s: Seq<CharacterScreenClient>, i: int)
    requires
        0 <= i < s.len(),
    ensures
        screen_ids(s.remove(i)) == screen_ids(s).remove(i),
        screen_ids(s)[i] == s[i].id,
{
    assert(screen_ids(s.remove(i)) =~= screen_ids(s).remove(i));
}

proof fn lemma_session_ids_push(s: Seq<Client>, c: Client)
    ensures
        session_ids(s.push(c)) == session_ids(s).push(c.id),
{
    assert(session_ids(s.push(c)) =~= session_ids(s).push(c.id));
}

proof fn lemma_session_ids_remove(s: Seq<Client>, i: int)
    requires
        0 <= i < s.len(),
    ensures
        session_ids(s.remove(i)) == session_ids(s).remove(i),
        session_ids(s)[i] == s[i].id,
{
    assert(session_ids(s.remove(i)) =~= session_ids(s).remove(i));
}

/// Each session keeps its place and its fields, except that the one with
/// identifier `session` has `opcode` queued after what it held.
pub open spec fn screens_received(
    before: Seq<CharacterScreenClient>,
    after: Seq<CharacterScreenClient>,
    session: u64,
    opcode: ClientOpcode,
) -> bool {
    &&& after.len() == before.len()
    &&& forall|j: int| 0 <= j < before.len() ==> if (#[trigger] before[j]).id == session {
        &&& after[j].id == before[j].id
        &&& after[j].status == before[j].status
        &&& after[j].account_name == before[j].account_name
        &&& after[j].reader_finished == before[j].reader_finished
        &&& after[j].received_messages@ == before[j].received_messages@.push(opcode)
    } else {
        after[j] == before[j]
    }
}

/// Each player keeps its place and its fields, except that the one with
/// identifier `session` has `opcode` queued after what it held.
pub open spec fn players_received(before: Seq<Client>, after: Seq<Client>, session: u64, opcode: ClientOpcode) -> bool {
    &&& after.len() == before.len()
    &&& forall|j: int| 0 <= j < before.len() ==> if (#[trigger] before[j]).id == session {
        &&& after[j].id == before[j].id
        &&& after[j].character == before[j].character
        &&& after[j].in_process_of_teleport == before[j].in_process_of_teleport
        &&& after[j].logout_requested == before[j].logout_requested
        &&& after[j].account_name == before[j].account_name
        &&& after[j].reader_finished == before[j].reader_finished
        &&& after[j].received_messages@ == before[j].received_messages@.push(opcode)
    } else {
        after[j] == before[j]
    }
}

/// Each session keeps its place and its fields, except that the one with
/// identifier `session` has its connection marked closed.
pub open spec fn screens_closed(before: Seq<CharacterScreenClient>, after: Seq<CharacterScreenClient>, session: u64) -> bool {
    &&& after.len() == before.len()
    &&& forall|j: int| 0 <= j < before.len() ==> if (#[trigger] before[j]).id == session {
        after[j] == CharacterScreenClient { reader_finished: true, ..before[j] }
    } else {
        after[j] == before[j]
    }
}

/// Each player keeps its place and its fields, except that the one with
/// identifier `session` has its connection marked closed.
pub open spec fn players_closed(before: Seq<Client>, after: Seq<Client>, session: u64) -> bool {
    &&& after.len() == before.len()
    &&& forall|j: int| 0 <= j < before.len() ==> if (#[trigger] before[j]).id == session {
        after[j] == Client { reader_finished: true, ..before[j] }
    } else {
        after[j] == before[j]
    }
}

/// The character-screen sessions whose connection is still open, in order.
pub open spec fn live(s: Seq<CharacterScreenClient>) -> Seq<CharacterScreenClient>
    decreases s.len(),
{
    if s.len() == 0 {
        Seq::empty()
    } else if s.last().reader_finished {
        live(s.drop_last())
    } else {
        live(s.drop_last()).push(s.last())
    }
}

/// Tick step six as a relation.
pub open spec fn pruned(before: World, after: World) -> bool {
    &&& after.clients_on_character_screen@ == live(before.clients_on_character_screen@)
    &&& after.clients_waiting_to_join@ == before.clients_waiting_to_join@
    &&& after.clients@ == before.clients@
    &&& after.creatures@ == before.creatures@
}

/// The messages `ops` of a character-screen session, interpreted in order,
/// take the session from `s0` to `s1` and the store from `db0` to `db1`.
pub open spec fn screen_run(
    s0: CharacterScreenClient,
    ops: Seq<ClientOpcode>,
    s1: CharacterScreenClient,
    db0: WorldDatabase,
    db1: WorldDatabase,
    added: Seq<Effect>,
) -> bool
    decreases ops.len(),
{
    if ops.len() == 0 {
        s1 == s0 && db1 == db0 && added.len() == 0
    } else {
        exists|sm: CharacterScreenClient, dbm: WorldDatabase, k: int|
            0 <= k <= added.len() && screen_run(s0, ops.drop_last(), sm, db0, dbm, added.take(k))
                && #[trigger] screen_opcode_effects(sm, s1, dbm, db1, ops.last(), added.skip(k))
    }
}

/// Session `s` has its queue emptied and then interpreted, ending as `s1`.
pub open spec fn screen_served(
    s: CharacterScreenClient,
    s1: CharacterScreenClient,
    db0: WorldDatabase,
    db1: WorldDatabase,
    added: Seq<Effect>,
) -> bool {
    exists|s_start: CharacterScreenClient|
        s_start.id == s.id && s_start.status == s.status && s_start.account_name == s.account_name
            && s_start.reader_finished == s.reader_finished && s_start.received_messages@.len() == 0
            && #[trigger] screen_run(s_start, s.received_messages@, s1, db0, db1, added)
}

/// The sessions `before`, served in order, become `after`.
pub open spec fn screens_served(
    before: Seq<CharacterScreenClient>,
    after: Seq<CharacterScreenClient>,
    db0: WorldDatabase,
    db1: WorldDatabase,
    added: Seq<Effect>,
) -> bool
    decreases before.len(),
{
    if before.len() == 0 {
        after.len() == 0 && db1 == db0 && added.len() == 0
    } else {
        exists|dbm: WorldDatabase, k: int|
            0 <= k <= added.len() && after.len() == before.len() && screens_served(
                before.drop_last(),
                after.drop_last(),
                db0,
                dbm,
                added.take(k),
            ) && #[trigger] screen_served(before.last(), after.last(), dbm, db1, added.skip(k))
    }
}

/// Tick step two as a relation.
pub open spec fn screens_step(before: World, after: World, db0: WorldDatabase, db1: WorldDatabase, added: Seq<Effect>) -> bool {
    &&& screens_served(before.clients_on_character_screen@, after.clients_on_character_screen@, db0, db1, added)
    &&& after.clients_waiting_to_join@ == before.clients_waiting_to_join@
    &&& after.clients@ == before.clients@
    &&& after.creatures@ == before.creatures@
}

/// The messages `ops` of an in-world player, interpreted in order against
/// `peers`, take the player from `c0` to `c1` and the store from `db0` to `db1`.
pub open spec fn world_run(
    c0: Client,
    ops: Seq<ClientOpcode>,
    c1: Client,
    peers: Seq<Client>,
    creatures: Seq<Creature>,
    db0: WorldDatabase,
    db1: WorldDatabase,
    now: u32,
    added: Seq<Effect>,
) -> bool
    decreases ops.len(),
{
    if ops.len() == 0 {
        c1 == c0 && db1 == db0 && added.len() == 0
    } else {
        exists|cm: Client, dbm: WorldDatabase, k: int|
            0 <= k <= added.len() && world_run(c0, ops.drop_last(), cm, peers, creatures, db0, dbm, now, added.take(k))
                && #[trigger] world_opcode_effects(cm, c1, peers, creatures, dbm, db1, now, ops.last(), added.skip(k))
    }
}

/// Player `c` has its queue emptied and interpreted, then its passive
/// combat update, ending as `c1`.
pub open spec fn world_served(
    c: Client,
    c1: Client,
    peers: Seq<Client>,
    creatures: Seq<Creature>,
    db0: WorldDatabase,
    db1: WorldDatabase,
    now: u32,
    added: Seq<Effect>,
) -> bool {
    exists|c_start: Client, c_mid: Client, k: int|
        0 <= k <= added.len() && c_start.id == c.id && c_start.character == c.character
            && c_start.in_process_of_teleport == c.in_process_of_teleport
            && c_start.logout_requested == c.logout_requested && c_start.account_name == c.account_name
            && c_start.reader_finished == c.reader_finished && c_start.received_messages@.len() == 0
            && #[trigger] world_run(c_start, c.received_messages@, c_mid, peers, creatures, db0, db1, now, added.take(k))
            && #[trigger] combat_update(c_mid, c1, peers, added.skip(k))
}

/// The first `n` players of `before`, served in order, each against the
/// list as it stands at its turn without itself, make the list `after`.
pub open spec fn worlds_served(
    before: Seq<Client>,
    n: int,
    after: Seq<Client>,
    creatures: Seq<Creature>,
    db0: WorldDatabase,
    db1: WorldDatabase,
    now: u32,
    added: Seq<Effect>,
) -> bool
    decreases n,
{
    if n <= 0 {
        after == before && db1 == db0 && added.len() == 0
    } else {
        exists|mid: Seq<Client>, dbm: WorldDatabase, k: int|
            0 <= k <= added.len() && n - 1 < mid.len() && worlds_served(before, n - 1, mid, creatures, db0, dbm, now, added.take(k))
                && after == mid.update(n - 1, after[n - 1])
                && #[trigger] world_served(mid[n - 1], after[n - 1], mid.remove(n - 1), creatures, dbm, db1, now, added.skip(k))
    }
}

/// Tick step four as a relation.
pub open spec fn world_step(
    before: World,
    after: World,
    db0: WorldDatabase,
    db1: WorldDatabase,
    now: u32,
    added: Seq<Effect>,
    visited: Seq<u64>,
) -> bool {
    &&& worlds_served(before.clients@, before.clients@.len() as int, after.clients@, before.creatures@, db0, db1, now, added)
    &&& visited == session_ids(before.clients@)
    &&& session_ids(after.clients@) == session_ids(before.clients@)
    &&& after.clients_on_character_screen@ == before.clients_on_character_screen@
    &&& after.clients_waiting_to_join@ == before.clients_waiting_to_join@
    &&& after.creatures@ == before.creatures@
}

/// Tick step one as a relation.
pub open spec fn admitted(before: World, after: World) -> bool {
    &&& after.clients_on_character_screen@ == before.clients_on_character_screen@ + before.clients_waiting_to_join@
    &&& after.clients_waiting_to_join@.len() == 0
    &&& after.clients@ == before.clients@
    &&& after.creatures@ == before.creatures@
}

/// A tick as the chain of its six steps through the worlds `w`, the
/// stores `d` and the effects `e` of the first four steps' ends; the
/// effects of the whole tick are those of the steps, in order.
pub open spec fn tick_chain(
    before: World,
    db0: WorldDatabase,
    after: World,
    db1: WorldDatabase,
    now: u32,
    effects: Seq<Effect>,
    visited: Seq<u64>,
    w: Seq<World>,
    d: Seq<WorldDatabase>,
    e: Seq<Seq<Effect>>,
) -> bool {
    &&& w.len() == 5 && d.len() == 2 && e.len() == 4
    &&& admitted(before, w[0])
    &&& screens_step(w[0], w[1], db0, d[0], e[0])
    &&& promoted(w[1], w[2], d[0].characters(), e[1])
    &&& world_step(w[2], w[3], d[0], d[1], now, e[2], visited)
    &&& logged_out(w[3], w[4], d[1].characters(), db1.characters(), e[3])
    &&& db1.next_id() == d[1].next_id()
    &&& pruned(w[4], after)
    &&& effects == e[0] + e[1] + e[2] + e[3]
}

proof fn lemma_live(s: Seq<CharacterScreenClient>)
    ensures
        forall|j: int| 0 <= j < live(s).len() ==> s.contains(#[trigger] live(s)[j]) && !live(s)[j].reader_finished,
    decreases s.len(),
{
    if s.len() > 0 {
        lemma_live(s.drop_last());
        assert forall|j: int| 0 <= j < live(s).len() implies s.contains(#[trigger] live(s)[j]) && !live(s)[j].reader_finished by {
            if j < live(s.drop_last()).len() {
                let k = choose|k: int| 0 <= k < s.drop_last().len() && s.drop_last()[k] == live(s.drop_last())[j];
                assert(s[k] == live(s)[j]);
            } else {
                assert(s[s.len() - 1] == live(s)[j]);
            }
        }
    }
}

/// `cl` is the session `s` playing the stored character `stored`.
pub open spec fn promoted_from(s: CharacterScreenClient, cl: Client, stored: Character) -> bool {
    &&& cl.id == s.id
    &&& cl.character.same_as(stored)
    &&& !cl.in_process_of_teleport
    &&& !cl.logout_requested
    &&& cl.account_name == s.account_name
    &&& cl.received_messages == s.received_messages
    &&& cl.reader_finished == s.reader_finished
}

/// What promotion does with one character-screen session `s`, given the
/// sessions kept and the players so far.
pub open spec fn promotion_step(
    s: CharacterScreenClient,
    kept_before: Seq<CharacterScreenClient>,
    clients_before: Seq<Client>,
    kept_after: Seq<CharacterScreenClient>,
    clients_after: Seq<Client>,
    creatures: Seq<Creature>,
    db: Seq<Character>,
    added: Seq<Effect>,
) -> bool {
    match s.status {
        CharacterScreenProgress::CharacterScreen => kept_after == kept_before.push(s)
            && clients_after == clients_before && added.len() == 0,
        CharacterScreenProgress::WaitingToLogIn(g) => if exists|k: int| first_character(db, g, k) {
            exists|k: int|
                first_character(db, g, k) && kept_after == kept_before && clients_after.len()
                    == clients_before.len() + 1 && clients_after.drop_last() == clients_before
                    && promoted_from(s, clients_after.last(), db[k]) && announce_effects(
                    s.id,
                    clients_after.last().character,
                    clients_before,
                    creatures,
                    added,
                )
        } else {
            &&& kept_after == kept_before.push(
                CharacterScreenClient { status: CharacterScreenProgress::CharacterScreen, ..s },
            )
            &&& clients_after == clients_before
            &&& added.len() == 1
            &&& sends(added[0], seq![s.id], ServerMessage::CharacterLoginFailed)
        },
    }
}

/// Promotion over the sessions `cs`, taken in order.
pub open spec fn promotion(
    cs: Seq<CharacterScreenClient>,
    kept: Seq<CharacterScreenClient>,
    clients_before: Seq<Client>,
    clients_after: Seq<Client>,
    creatures: Seq<Creature>,
    db: Seq<Character>,
    added: Seq<Effect>,
) -> bool
    decreases cs.len(),
{
    if cs.len() == 0 {
        kept.len() == 0 && clients_after == clients_before && added.len() == 0
    } else {
        exists|kept_p: Seq<CharacterScreenClient>, clients_p: Seq<Client>, k: int|
            0 <= k <= added.len() && promotion(
                cs.drop_last(),
                kept_p,
                clients_before,
                clients_p,
                creatures,
                db,
                added.take(k),
            ) && #[trigger] promotion_step(cs.last(), kept_p, clients_p, kept, clients_after, creatures, db, added.skip(k))
    }
}

/// Tick step three as a relation.
pub open spec fn promoted(before: World, after: World, db: Seq<Character>, added: Seq<Effect>) -> bool {
    &&& promotion(before.clients_on_character_screen@, after.clients_on_character_screen@,
        before.clients@, after.clients@, before.creatures@, db, added)
    &&& after.clients_waiting_to_join@ == before.clients_waiting_to_join@
    &&& after.creatures@ == before.creatures@
}

/// The players who stay in the world, in order.
pub open spec fn stay(s: Seq<Client>) -> Seq<Client>
    decreases s.len(),
{
    if s.len() == 0 {
        Seq::empty()
    } else if s.last().logout_requested {
        stay(s.drop_last())
    } else {
        stay(s.drop_last()).push(s.last())
    }
}

/// The players who asked to log out, in order.
pub open spec fn leave(s: Seq<Client>) -> Seq<Client>
    decreases s.len(),
{
    if s.len() == 0 {
        Seq::empty()
    } else if s.last().logout_requested {
        leave(s.drop_last()).push(s.last())
    } else {
        leave(s.drop_last())
    }
}

/// A player's session back on the character screen, without its character.
pub open spec fn to_screen(c: Client) -> CharacterScreenClient {
    CharacterScreenClient {
        id: c.id,
        status: CharacterScreenProgress::CharacterScreen,
        account_name: c.account_name,
        received_messages: c.received_messages,
        reader_finished: c.reader_finished,
    }
}

/// The store after `c` replaced the first character with its identifier,
/// if there is one.
pub open spec fn replaced_first(chars: Seq<Character>, c: Character) -> Seq<Character> {
    if exists|k: int| first_character(chars, c.guid, k) {
        chars.update(choose|k: int| first_character(chars, c.guid, k), c)
    } else {
        chars
    }
}

/// The store after the characters of `leavers` were written back in order.
pub open spec fn persisted(chars: Seq<Character>, leavers: Seq<Client>) -> Seq<Character>
    decreases leavers.len(),
{
    if leavers.len() == 0 {
        chars
    } else {
        replaced_first(persisted(chars, leavers.drop_last()), leavers.last().character)
    }
}

/// Tick step five as a relation: the world list keeps the players who
/// stay, in order; the leavers join the character screen in order; the
/// store holds their characters; each leaver, in order, is destroyed for
/// the players who stay.
pub open spec fn logged_out(
    before: World,
    after: World,
    chars_before: Seq<Character>,
    chars_after: Seq<Character>,
    added: Seq<Effect>,
) -> bool {
    let gone = leave(before.clients@);
    &&& after.clients@ == stay(before.clients@)
    &&& after.clients_on_character_screen@ == before.clients_on_character_screen@ + gone.map_values(
        |c: Client| to_screen(c),
    )
    &&& after.clients_waiting_to_join@ == before.clients_waiting_to_join@
    &&& after.creatures@ == before.creatures@
    &&& chars_after == persisted(chars_before, gone)
    &&& added.len() == gone.len()
    &&& forall|j: int|
        0 <= j < gone.len() ==> sends(
            #[trigger] added[j],
            session_ids(stay(before.clients@)),
            ServerMessage::DestroyObject { guid: gone[j].character.guid },
        )
}

proof fn lemma_partition(s: Seq<Client>)
    ensures
        session_ids(stay(s)).to_multiset().add(session_ids(leave(s)).to_multiset()) =~= session_ids(s).to_multiset(),
        forall|j: int| 0 <= j < stay(s).len() ==> !(#[trigger] stay(s)[j]).logout_requested,
    decreases s.len(),
{
    if s.len() > 0 {
        lemma_partition(s.drop_last());
        assert(session_ids(s) =~= session_ids(s.drop_last()).push(s.last().id));
        if s.last().logout_requested {
            assert(session_ids(leave(s)) =~= session_ids(leave(s.drop_last())).push(s.last().id));
        } else {
            assert(session_ids(stay(s)) =~= session_ids(stay(s.drop_last())).push(s.last().id));
        }
    }
}

proof fn lemma_partition_members(s: Seq<Client>)
    ensures
        forall|j: int| 0 <= j < stay(s).len() ==> s.contains(#[trigger] stay(s)[j]),
        forall|j: int| 0 <= j < leave(s).len() ==> s.contains(#[trigger] leave(s)[j]),
    decreases s.len(),
{
    if s.len() > 0 {
        lemma_partition_members(s.drop_last());
        assert forall|j: int| 0 <= j < stay(s).len() implies s.contains(#[trigger] stay(s)[j]) by {
            if j < stay(s.drop_last()).len() {
                let k = choose|k: int| 0 <= k < s.drop_last().len() && s.drop_last()[k] == stay(s.drop_last())[j];
                assert(s[k] == stay(s)[j]);
            } else {
                assert(s[s.len() - 1] == stay(s)[j]);
            }
        }
        assert forall|j: int| 0 <= j < leave(s).len() implies s.contains(#[trigger] leave(s)[j]) by {
            if j < leave(s.drop_last()).len() {
                let k = choose|k: int| 0 <= k < s.drop_last().len() && s.drop_last()[k] == leave(s.drop_last())[j];
                assert(s[k] == leave(s)[j]);
            } else {
                assert(s[s.len() - 1] == leave(s)[j]);
            }
        }
    }
}

/// What `replace_character_data` leaves in the store is `replaced_first`.
proof fn lemma_replace_is_first(before: Seq<Character>, c: Character, after: Seq<Character>)
    requires
        (exists|i: int| 0 <= i < before.len() && (#[trigger] before[i]).guid == c.guid
            && (forall|k: int| 0 <= k < i ==> (#[trigger] before[k]).guid != c.guid)
            && after == before.update(i, c))
        || (!(exists|i: int| 0 <= i < before.len() && (#[trigger] before[i]).guid == c.guid) && after == before),
    ensures
        after == replaced_first(before, c),
{
    if exists|i: int| 0 <= i < before.len() && (#[trigger] before[i]).guid == c.guid
        && (forall|k: int| 0 <= k < i ==> (#[trigger] before[k]).guid != c.guid) && after == before.update(i, c) {
        let i = choose|i: int| 0 <= i < before.len() && (#[trigger] before[i]).guid == c.guid
            && (forall|k: int| 0 <= k < i ==> (#[trigger] before[k]).guid != c.guid) && after == before.update(i, c);
        assert(first_character(before, c.guid, i));
        let k = choose|k: int| first_character(before, c.guid, k);
        lemma_first_unique_character(before, c.guid, i, k);
    } else {
        assert(!exists|k: int| first_character(before, c.guid, k));
    }
}

impl World {
    /// Every session the world knows: joining, on the character screen, in the world.
    pub open spec fn ids(&self) -> Seq<u64> {
        screen_ids(self.clients_waiting_to_join@) + screen_ids(self.clients_on_character_screen@)
            + session_ids(self.clients@)
    }

    /// No session stands twice, in one list or in two; every character in
    /// the world is well formed and carries identifiers that the store
    /// has handed out.
    pub open spec fn wf(&self, next_id: u64) -> bool {
        &&& self.ids().no_duplicates()
        &&& forall|i: int| 0 <= i < self.clients@.len() ==> {
            &&& (#[trigger] self.clients@[i]).character.wf()
            &&& ids_below(self.clients@[i].character, next_id)
        }
    }

    /// A world with no sessions and one creature.
    pub fn new(db: &mut WorldDatabase) -> (r: World)
        requires
            old(db).wf(),
        ensures
            final(db).wf(),
            final(db).characters() == old(db).characters(),
            final(db).next_id() >= old(db).next_id(),
            r.wf(final(db).next_id()),
            r.clients@.len() == 0,
            r.clients_on_character_screen@.len() == 0,
            r.clients_waiting_to_join@.len() == 0,
            old(db).next_id() < u64::MAX ==> r.creatures@.len() == 1 && r.creatures@[0].guid
                == old(db).next_id() && r.creatures@[0].name@ == "Thing"@,
            old(db).next_id() == u64::MAX ==> r.creatures@.len() == 0,
    {
        let mut creatures: Vec<Creature> = Vec::new();
        match db.new_guid() {
            Some(guid) => creatures.push(Creature::new(String::from_str("Thing"), guid)),
            None => {},
        }
        let w = World {
            clients: Vec::new(),
            clients_on_character_screen: Vec::new(),
            clients_waiting_to_join: Vec::new(),
            creatures,
        };
        assert(w.ids() =~= Seq::<u64>::empty());
        w
    }

    /// Whether some session of the world has identifier `id`.
    pub fn knows(&self, id: u64) -> (r: bool)
        ensures
            r == self.ids().contains(id),
    {
        let mut i: usize = 0;
        while i < self.clients_waiting_to_join.len()
            invariant
                i <= self.clients_waiting_to_join@.len(),
                forall|j: int| 0 <= j < i ==> (#[trigger] self.clients_waiting_to_join@[j]).id != id,
            decreases self.clients_waiting_to_join@.len() - i,
        {
            if self.clients_waiting_to_join[i].id == id {
                assert(self.ids()[i as int] == id);
                return true;
            }
            i = i + 1;
        }
        let w = self.clients_waiting_to_join.len();
        let mut i: usize = 0;
        while i < self.clients_on_character_screen.len()
            invariant
                w == self.clients_waiting_to_join@.len(),
                i <= self.clients_on_character_screen@.len(),
                forall|j: int| 0 <= j < i ==> (#[trigger] self.clients_on_character_screen@[j]).id != id,
            decreases self.clients_on_character_screen@.len() - i,
        {
            if self.clients_on_character_screen[i].id == id {
                assert(self.ids()[w + i] == id);
                return true;
            }
            i = i + 1;
        }
        let c = self.clients_on_character_screen.len();
        let mut i: usize = 0;
        while i < self.clients.len()
            invariant
                w == self.clients_waiting_to_join@.len(),
                c == self.clients_on_character_screen@.len(),
                i <= self.clients@.len(),
                forall|j: int| 0 <= j < i ==> (#[trigger] self.clients@[j]).id != id,
            decreases self.clients@.len() - i,
        {
            if self.clients[i].id == id {
                assert(self.ids()[w + c + i] == id);
                return true;
            }
            i = i + 1;
        }
        proof {
            if self.ids().contains(id) {
                let k = choose|k: int| 0 <= k < self.ids().len() && self.ids()[k] == id;
                if k < w {
                    assert(self.clients_waiting_to_join@[k].id == id);
                } else if k < w + c {
                    assert(self.clients_on_character_screen@[k - w].id == id);
                } else {
                    assert(self.clients@[k - w - c].id == id);
                }
            }
        }
        false
    }

    /// Queues a freshly authenticated session; the next tick moves it to
    /// the character screen. A session whose identifier the world already
    /// knows is refused, and nothing changes.
    pub fn join(&mut self, session: CharacterScreenClient, db: &WorldDatabase) -> (r: bool)
        requires
            old(self).wf(db.next_id()),
        ensures
            final(self).wf(db.next_id()),
            r == !old(self).ids().contains(session.id),
            r ==> final(self).clients_waiting_to_join@ == old(self).clients_waiting_to_join@.push(session),
            !r ==> final(self).clients_waiting_to_join@ == old(self).clients_waiting_to_join@,
            final(self).clients_on_character_screen@ == old(self).clients_on_character_screen@,
            final(self).clients@ == old(self).clients@,
            final(self).creatures@ == old(self).creatures@,
    {
        if self.knows(session.id) {
            return false;
        }
        let ghost old_ids = self.ids();
        let ghost id = session.id;
        self.clients_waiting_to_join.push(session);
        proof {
            lemma_screen_ids_push(old(self).clients_waiting_to_join@, session);
            let w = screen_ids(old(self).clients_waiting_to_join@);
            let c = screen_ids(self.clients_on_character_screen@);
            let l = session_ids(self.clients@);
            assert(self.ids().to_multiset() =~= old_ids.to_multiset().insert(id));
            lemma_no_duplicates_fresh(old_ids, self.ids(), id);
        }
        true
    }

    /// Tick step one: every queued session moves to the character screen,
    /// after those already there.
    pub fn admit_joined(&mut self, db: &WorldDatabase)
        requires
            old(self).wf(db.next_id()),
        ensures
            final(self).wf(db.next_id()),
            admitted(*old(self), *final(self)),
    {
        let ghost old_ids = self.ids();
        self.clients_on_character_screen.append(&mut self.clients_waiting_to_join);
        proof {
            let w = screen_ids(old(self).clients_waiting_to_join@);
            let c = screen_ids(old(self).clients_on_character_screen@);
            let l = session_ids(self.clients@);
            assert(screen_ids(self.clients_on_character_screen@) =~= c + w);
            assert(screen_ids(self.clients_waiting_to_join@) =~= Seq::<u64>::empty());
            assert(self.ids() =~= Seq::<u64>::empty() + (c + w) + l);
            assert(self.ids().to_multiset() =~= old_ids.to_multiset());
            lemma_no_duplicates_within(old_ids, self.ids());
        }
    }

    /// Tick step six: sessions on the character screen whose connection
    /// has closed are dropped; the others stay, in order.
    pub fn prune_disconnected(&mut self, db: &WorldDatabase)
        requires
            old(self).wf(db.next_id()),
        ensures
            final(self).wf(db.next_id()),
            pruned(*old(self), *final(self)),
    {
        let ghost initial = self.clients_on_character_screen@;
        let ghost mut p: int = 0;
        let mut i: usize = 0;
        assert(initial.take(0) =~= Seq::<CharacterScreenClient>::empty());
        assert(self.clients_on_character_screen@ =~= live(initial.take(0)) + initial.skip(0));
        while i < self.clients_on_character_screen.len()
            invariant
                self.wf(db.next_id()),
                0 <= p <= initial.len(),
                i == live(initial.take(p)).len(),
                self.clients_on_character_screen@ == live(initial.take(p)) + initial.skip(p),
                self.clients_waiting_to_join@ == old(self).clients_waiting_to_join@,
                self.clients@ == old(self).clients@,
                self.creatures@ == old(self).creatures@,
                initial == old(self).clients_on_character_screen@,
            decreases initial.len() - p,
        {
            let ghost before = self.clients_on_character_screen@;
            assert(before[i as int] == initial[p]);
            assert(initial.take(p + 1).drop_last() =~= initial.take(p));
            if self.clients_on_character_screen[i].reader_finished {
                let ghost old_ids = self.ids();
                let gone = self.clients_on_character_screen.remove(i);
                proof {
                    lemma_screen_ids_remove(before, i as int);
                    let w = screen_ids(self.clients_waiting_to_join@);
                    let c = screen_ids(before);
                    let l = session_ids(self.clients@);
                    assert(self.ids().to_multiset() =~= w.to_multiset().add(c.remove(i as int).to_multiset()).add(l.to_multiset()));
                    assert(old_ids.to_multiset() =~= w.to_multiset().add(c.to_multiset()).add(l.to_multiset()));
                    lemma_no_duplicates_within(old_ids, self.ids());
                    p = p + 1;
                    assert(self.clients_on_character_screen@ =~= live(initial.take(p)) + initial.skip(p));
                }
            } else {
                i = i + 1;
                proof {
                    p = p + 1;
                    assert(self.clients_on_character_screen@ =~= live(initial.take(p)) + initial.skip(p));
                }
            }
        }
        proof {
            assert(p == initial.len()) by {
                if p < initial.len() {
                    assert(self.clients_on_character_screen@.len() > i);
                }
            }
            assert(initial.take(p) =~= initial);
            assert(self.clients_on_character_screen@ =~= live(initial));
        }
    }

    /// Tick step two: every session on the character screen, in list order,
    /// has the messages it received interpreted, in order of arrival,
    /// against the store; the lists keep their members and order.
    pub fn dispatch_character_screens(&mut self, db: &mut WorldDatabase, out: &mut Vec<Effect>)
        requires
            old(self).wf(old(db).next_id()),
            old(db).wf(),
        ensures
            final(self).wf(final(db).next_id()),
            final(db).wf(),
            final(db).next_id() >= old(db).next_id(),
            extends(old(out)@, final(out)@),
            screens_step(*old(self), *final(self), *old(db), *final(db), appended(old(out)@, final(out)@)),
    {
        let ghost start = out@;
        assert(start.subrange(0, start.len() as int) =~= start);
        let ghost ids0 = screen_ids(self.clients_on_character_screen@);
        let ghost initial = self.clients_on_character_screen@;
        let ghost db_start = *db;
        let n = self.clients_on_character_screen.len();
        let mut i: usize = 0;
        assert(initial.take(0) =~= Seq::<CharacterScreenClient>::empty());
        assert(self.clients_on_character_screen@.take(0) =~= Seq::<CharacterScreenClient>::empty());
        assert(appended(start, out@) =~= Seq::<Effect>::empty());
        while i < n
            invariant
                n == self.clients_on_character_screen@.len(),
                n == initial.len(),
                initial == old(self).clients_on_character_screen@,
                db_start == *old(db),
                i <= n,
                db.wf(),
                db.next_id() >= old(db).next_id(),
                self.wf(db.next_id()),
                extends(start, out@),
                screen_ids(self.clients_on_character_screen@) == ids0,
                screens_served(initial.take(i as int), self.clients_on_character_screen@.take(i as int),
                    db_start, *db, appended(start, out@)),
                forall|j: int| i <= j < n ==> #[trigger] self.clients_on_character_screen@[j] == initial[j],
                self.clients_waiting_to_join@ == old(self).clients_waiting_to_join@,
                self.clients@ == old(self).clients@,
                self.creatures@ == old(self).creatures@,
            decreases n - i,
        {
            let ghost before = self.clients_on_character_screen@;
            let ghost n0 = db.next_id();
            let ghost db0 = *db;
            let ghost eff0 = appended(start, out@);
            let ghost mid = out@;
            let mut session = self.clients_on_character_screen.remove(i);
            assert(session == initial[i as int]);
            let mut inbox: Vec<ClientOpcode> = Vec::new();
            std::mem::swap(&mut inbox, &mut session.received_messages);
            let ghost s_start = session;
            let id = session.id;
            let mut k: usize = 0;
            assert(inbox@.take(0) =~= Seq::<ClientOpcode>::empty());
            assert(appended(mid, out@) =~= Seq::<Effect>::empty());
            assert(mid.subrange(0, mid.len() as int) =~= mid);
            while k < inbox.len()
                invariant
                    k <= inbox@.len(),
                    inbox@ == initial[i as int].received_messages@,
                    db.wf(),
                    db.next_id() >= old(db).next_id(),
                    db.next_id() >= n0,
                    session.id == id,
                    extends(mid, out@),
                    extends(start, mid),
                    screen_run(s_start, inbox@.take(k as int), session, db0, *db, appended(mid, out@)),
                decreases inbox@.len() - k,
            {
                let ghost mid2 = out@;
                let ghost sess0 = session;
                let ghost dbm = *db;
                handle_character_screen_opcode(&mut session, db, &inbox[k], out);
                proof {
                    assert(out@.subrange(0, mid.len() as int) =~= out@.subrange(0, mid2.len() as int).subrange(0, mid.len() as int));
                    let e = appended(mid, out@);
                    let kk = mid2.len() - mid.len();
                    assert(e.take(kk) =~= appended(mid, mid2));
                    assert(e.skip(kk) =~= appended(mid2, out@));
                    assert(inbox@.take(k + 1).drop_last() =~= inbox@.take(k as int));
                    assert(inbox@.take(k + 1).last() == inbox@[k as int]);
                    assert(screen_opcode_effects(sess0, session, dbm, *db, inbox@.take(k + 1).last(), e.skip(kk)));
                }
                k = k + 1;
            }
            assert(inbox@.take(inbox@.len() as int) =~= inbox@);
            self.clients_on_character_screen.insert(i, session);
            proof {
                assert(out@.subrange(0, start.len() as int) =~= out@.subrange(0, mid.len() as int).subrange(0, start.len() as int));
                assert(screen_ids(self.clients_on_character_screen@) =~= ids0) by {
                    assert forall|j: int| 0 <= j < n implies #[trigger] screen_ids(self.clients_on_character_screen@)[j] == ids0[j] by {
                        if j != i {
                            assert(self.clients_on_character_screen@[j] == before[j]);
                        }
                    }
                }
                assert forall|j: int| 0 <= j < self.clients@.len() implies {
                    &&& (#[trigger] self.clients@[j]).character.wf()
                    &&& ids_below(self.clients@[j].character, db.next_id())
                } by {
                    lemma_ids_below_grows(self.clients@[j].character, n0, db.next_id());
                }
                assert forall|j: int| i + 1 <= j < n implies #[trigger] self.clients_on_character_screen@[j] == initial[j] by {
                    assert(self.clients_on_character_screen@[j] == before[j]);
                }
                assert(screen_served(initial[i as int], session, db0, *db, appended(mid, out@)));
                let e = appended(start, out@);
                let kk = eff0.len() as int;
                assert(e.take(kk) =~= eff0);
                assert(e.skip(kk) =~= appended(mid, out@));
                assert(initial.take(i + 1).drop_last() =~= initial.take(i as int));
                assert(self.clients_on_character_screen@.take(i + 1).drop_last() =~= before.take(i as int));
                assert(self.clients_on_character_screen@.take(i + 1).last() == session);
                assert(screens_served(initial.take(i + 1).drop_last(), self.clients_on_character_screen@.take(i + 1).drop_last(),
                    db_start, db0, e.take(kk)));
                assert(screen_served(initial.take(i + 1).last(), self.clients_on_character_screen@.take(i + 1).last(),
                    db0, *db, e.skip(kk)));
            }
            i = i + 1;
        }
        assert(initial.take(n as int) =~= initial);
        assert(self.clients_on_character_screen@.take(n as int) =~= self.clients_on_character_screen@);
    }

    /// Tick step three: the character-screen sessions are taken in order.
    /// One waiting to log in whose character the store holds enters the
    /// world with that character: it is introduced to the players already
    /// there and they to it, the creatures are shown to it, and it joins the
    /// end of the list of players. One whose character the store no longer
    /// holds is told so and stays, back at plain character screen. The
    /// others stay as they are, in order.
    pub fn promote_waiting(&mut self, db: &WorldDatabase, out: &mut Vec<Effect>)
        requires
            old(self).wf(db.next_id()),
            db.wf(),
        ensures
            final(self).wf(db.next_id()),
            extends(old(out)@, final(out)@),
            promoted(*old(self), *final(self), db.characters(), appended(old(out)@, final(out)@)),
            forall|i: int| 0 <= i < final(self).clients_on_character_screen@.len()
                ==> (#[trigger] final(self).clients_on_character_screen@[i]).status
                == CharacterScreenProgress::CharacterScreen,
            forall|i: int| 0 <= i < old(self).clients@.len() ==> #[trigger] final(self).clients@[i] == old(self).clients@[i],
            final(self).clients@.len() >= old(self).clients@.len(),
    {
        let ghost start = out@;
        assert(start.subrange(0, start.len() as int) =~= start);
        let ghost initial = self.clients_on_character_screen@;
        let ghost mut p: int = 0;
        let ghost mut kept: Seq<CharacterScreenClient> = Seq::empty();
        assert(initial.take(0) =~= Seq::<CharacterScreenClient>::empty());
        assert(self.clients_on_character_screen@ =~= kept + initial.skip(0));
        assert(appended(start, out@) =~= Seq::<Effect>::empty());
        let mut i: usize = 0;
        while i < self.clients_on_character_screen.len()
            invariant
                db.wf(),
                self.wf(db.next_id()),
                0 <= p <= initial.len(),
                initial == old(self).clients_on_character_screen@,
                kept.len() == i,
                self.clients_on_character_screen@ == kept + initial.skip(p),
                promotion(initial.take(p), kept, old(self).clients@, self.clients@, self.creatures@,
                    db.characters(), appended(start, out@)),
                extends(start, out@),
                forall|j: int| 0 <= j < i ==> (#[trigger] self.clients_on_character_screen@[j]).status
                    == CharacterScreenProgress::CharacterScreen,
                forall|j: int| 0 <= j < old(self).clients@.len() ==> #[trigger] self.clients@[j] == old(self).clients@[j],
                self.clients@.len() >= old(self).clients@.len(),
                self.clients_waiting_to_join@ == old(self).clients_waiting_to_join@,
                self.creatures@ == old(self).creatures@,
            decreases initial.len() - p,
        {
            let ghost kept0 = kept;
            let ghost p0 = p;
            let ghost clients0 = self.clients@;
            let ghost eff0 = appended(start, out@);
            let ghost mid = out@;
            let ghost s0 = self.clients_on_character_screen@[i as int];
            assert(s0 == initial[p]);
            assert(initial.take(p + 1).drop_last() =~= initial.take(p));
            assert(initial.take(p + 1).last() == s0);
            let waiting = match self.clients_on_character_screen[i].status {
                CharacterScreenProgress::WaitingToLogIn(guid) => Some(guid),
                CharacterScreenProgress::CharacterScreen => None,
            };
            match waiting {
                None => {
                    i = i + 1;
                    proof {
                        kept = kept0.push(s0);
                        p = p + 1;
                        assert(self.clients_on_character_screen@ =~= kept + initial.skip(p));
                        assert(appended(start, out@).take(eff0.len() as int) =~= eff0);
                        assert(appended(start, out@).skip(eff0.len() as int) =~= Seq::<Effect>::empty());
                        assert(promotion_step(s0, kept0, clients0, kept, self.clients@, self.creatures@,
                            db.characters(), appended(start, out@).skip(eff0.len() as int)));
                    }
                },
                Some(guid) => {
                    let ghost before = self.clients_on_character_screen@;
                    let ghost old_ids = self.ids();
                    let mut session = self.clients_on_character_screen.remove(i);
                    proof {
                        lemma_screen_ids_remove(before, i as int);
                    }
                    match db.get_character_by_guid(guid) {
                        Some(character) => {
                            announce_character_login(session.id, &character, &self.clients, &self.creatures, out);
                            let client = session.into_client(character);
                            let ghost before_clients = self.clients@;
                            self.clients.push(client);
                            proof {
                                lemma_session_ids_push(before_clients, client);
                                let w = screen_ids(self.clients_waiting_to_join@);
                                let c = screen_ids(before);
                                let l = session_ids(before_clients);
                                assert(self.ids().to_multiset() =~= w.to_multiset().add(c.remove(i as int).to_multiset()).add(l.push(client.id).to_multiset()));
                                assert(old_ids.to_multiset() =~= w.to_multiset().add(c.to_multiset()).add(l.to_multiset()));
                                assert(c[i as int] == client.id);
                                assert(self.ids().to_multiset() =~= old_ids.to_multiset());
                                lemma_no_duplicates_within(old_ids, self.ids());
                                assert(out@.subrange(0, start.len() as int) =~= out@.subrange(0, mid.len() as int).subrange(0, start.len() as int));
                                kept = kept0;
                                p = p + 1;
                                assert(self.clients_on_character_screen@ =~= kept + initial.skip(p));
                                assert(appended(start, out@).take(eff0.len() as int) =~= eff0);
                                assert(appended(start, out@).skip(eff0.len() as int) =~= appended(mid, out@));
                                assert(self.clients@.drop_last() =~= clients0);
                                let k = choose|k: int| 0 <= k < db.characters().len()
                                    && (#[trigger] db.characters()[k]).guid == guid
                                    && client.character.same_as(db.characters()[k])
                                    && (forall|j: int| 0 <= j < k ==> (#[trigger] db.characters()[j]).guid != guid);
                                assert(first_character(db.characters(), guid, k));
                                assert(promoted_from(s0, self.clients@.last(), db.characters()[k]));
                                assert(promotion_step(s0, kept0, clients0, kept, self.clients@, self.creatures@,
                                    db.characters(), appended(start, out@).skip(eff0.len() as int)));
                            }
                        },
                        None => {
                            session.status = CharacterScreenProgress::CharacterScreen;
                            let mut recipients: Vec<u64> = Vec::new();
                            recipients.push(session.id);
                            out.push(Effect::Send { recipients, message: ServerMessage::CharacterLoginFailed });
                            let ghost moved = session;
                            self.clients_on_character_screen.insert(i, session);
                            proof {
                                assert(screen_ids(self.clients_on_character_screen@) =~= screen_ids(before)) by {
                                    assert forall|j: int| 0 <= j < before.len() implies #[trigger] screen_ids(self.clients_on_character_screen@)[j] == screen_ids(before)[j] by {
                                        if j != i {
                                            assert(self.clients_on_character_screen@[j] == before[j]);
                                        }
                                    }
                                }
                                assert(self.ids() =~= old_ids);
                                assert(out@.subrange(0, mid.len() as int) =~= mid);
                                assert(out@.subrange(0, start.len() as int) =~= start);
                                assert(!exists|k: int| first_character(db.characters(), guid, k));
                                kept = kept0.push(moved);
                                p = p + 1;
                                assert(self.clients_on_character_screen@ =~= kept + initial.skip(p));
                                assert(appended(start, out@).take(eff0.len() as int) =~= eff0);
                                assert(appended(start, out@).skip(eff0.len() as int) =~= seq![out@.last()]);
                                assert(moved == (CharacterScreenClient { status: CharacterScreenProgress::CharacterScreen, ..s0 }));
                                assert(promotion_step(s0, kept0, clients0, kept, self.clients@, self.creatures@,
                                    db.characters(), appended(start, out@).skip(eff0.len() as int)));
                            }
                            i = i + 1;
                        },
                    }
                },
            }
            proof {
                let e = appended(start, out@);
                assert(0 <= eff0.len() <= e.len());
                assert(p == p0 + 1);
                assert(initial.take(p).drop_last() =~= initial.take(p0));
                assert(initial.take(p).last() == s0);
                assert(e.take(eff0.len() as int) =~= eff0);
                assert(promotion(initial.take(p).drop_last(), kept0, old(self).clients@, clients0,
                    self.creatures@, db.characters(), e.take(eff0.len() as int)));
                assert(promotion_step(initial.take(p).last(), kept0, clients0, kept, self.clients@,
                    self.creatures@, db.characters(), e.skip(eff0.len() as int)));
                assert(promotion(initial.take(p), kept, old(self).clients@, self.clients@, self.creatures@,
                    db.characters(), e));
            }
        }
        proof {
            assert(p == initial.len()) by {
                if p < initial.len() {
                    assert(self.clients_on_character_screen@.len() > i);
                }
            }
            assert(initial.take(p) =~= initial);
            assert(kept =~= self.clients_on_character_screen@);
        }
    }

    /// Tick step four: every player in the world, in list order, has the
    /// messages it received interpreted in order of arrival against the
    /// others as they stand at its turn, then its passive combat update.
    /// Every player is visited exactly once, also one that asked to log out
    /// during the pass: the list keeps its members and their order, and the
    /// visits are returned in order.
    pub fn dispatch_world_sessions(
        &mut self,
        db: &mut WorldDatabase,
        now: u32,
        out: &mut Vec<Effect>,
    ) -> (visited: Vec<u64>)
        requires
            old(self).wf(old(db).next_id()),
            old(db).wf(),
        ensures
            final(self).wf(final(db).next_id()),
            final(db).wf(),
            final(db).next_id() >= old(db).next_id(),
            final(db).characters() == old(db).characters(),
            extends(old(out)@, final(out)@),
            world_step(*old(self), *final(self), *old(db), *final(db), now, appended(old(out)@, final(out)@), visited@),
    {
        let ghost start = out@;
        assert(start.subrange(0, start.len() as int) =~= start);
        let ghost ids0 = session_ids(self.clients@);
        let ghost initial = self.clients@;
        let ghost db_start = *db;
        let mut visited: Vec<u64> = Vec::new();
        let n = self.clients.len();
        let mut i: usize = 0;
        assert(appended(start, out@) =~= Seq::<Effect>::empty());
        while i < n
            invariant
                n == self.clients@.len(),
                n == initial.len(),
                initial == old(self).clients@,
                db_start == *old(db),
                i <= n,
                db.wf(),
                db.next_id() >= old(db).next_id(),
                db.characters() == old(db).characters(),
                self.wf(db.next_id()),
                extends(start, out@),
                session_ids(self.clients@) == ids0,
                visited@ == ids0.subrange(0, i as int),
                worlds_served(initial, i as int, self.clients@, self.creatures@, db_start, *db, now, appended(start, out@)),
                self.clients_on_character_screen@ == old(self).clients_on_character_screen@,
                self.clients_waiting_to_join@ == old(self).clients_waiting_to_join@,
                self.creatures@ == old(self).creatures@,
            decreases n - i,
        {
            let ghost before = self.clients@;
            let ghost n0 = db.next_id();
            let ghost db0 = *db;
            let ghost eff0 = appended(start, out@);
            let ghost mid = out@;
            let mut client = self.clients.remove(i);
            proof {
                lemma_session_ids_remove(before, i as int);
                assert(before[i as int] == client);
            }
            let ghost peers = self.clients@;
            let mut inbox: Vec<ClientOpcode> = Vec::new();
            std::mem::swap(&mut inbox, &mut client.received_messages);
            let ghost c_start = client;
            let id = client.id;
            let mut k: usize = 0;
            assert(inbox@.take(0) =~= Seq::<ClientOpcode>::empty());
            assert(appended(mid, out@) =~= Seq::<Effect>::empty());
            assert(mid.subrange(0, mid.len() as int) =~= mid);
            while k < inbox.len()
                invariant
                    k <= inbox@.len(),
                    inbox@ == before[i as int].received_messages@,
                    self.clients@ == peers,
                    db.wf(),
                    db.next_id() >= n0,
                    db.characters() == old(db).characters(),
                    client.id == id,
                    client.received_messages@.len() == 0,
                    client.character.wf(),
                    ids_below(client.character, db.next_id()),
                    extends(mid, out@),
                    extends(start, mid),
                    world_run(c_start, inbox@.take(k as int), client, peers, self.creatures@, db0, *db, now, appended(mid, out@)),
                decreases inbox@.len() - k,
            {
                let ghost mid2 = out@;
                let ghost c0 = client;
                let ghost dbm = *db;
                handle_opcode(&mut client, &self.clients, &self.creatures, db, now, &inbox[k], out);
                proof {
                    assert(out@.subrange(0, mid.len() as int) =~= out@.subrange(0, mid2.len() as int).subrange(0, mid.len() as int));
                    let e = appended(mid, out@);
                    let kk = mid2.len() - mid.len();
                    assert(e.take(kk) =~= appended(mid, mid2));
                    assert(e.skip(kk) =~= appended(mid2, out@));
                    assert(inbox@.take(k + 1).drop_last() =~= inbox@.take(k as int));
                    assert(inbox@.take(k + 1).last() == inbox@[k as int]);
                    assert(world_opcode_effects(c0, client, peers, self.creatures@, dbm, *db, now, inbox@.take(k + 1).last(), e.skip(kk)));
                }
                k = k + 1;
            }
            assert(inbox@.take(inbox@.len() as int) =~= inbox@);
            let ghost c_mid = client;
            let ghost mid3 = out@;
            update_combat(&mut client, &self.clients, out);
            visited.push(id);
            self.clients.insert(i, client);
            proof {
                assert(out@.subrange(0, mid.len() as int) =~= out@.subrange(0, mid3.len() as int).subrange(0, mid.len() as int));
                assert(out@.subrange(0, start.len() as int) =~= out@.subrange(0, mid.len() as int).subrange(0, start.len() as int));
                let e1 = appended(mid, out@);
                let k1 = mid3.len() - mid.len();
                assert(e1.take(k1) =~= appended(mid, mid3));
                assert(e1.skip(k1) =~= appended(mid3, out@));
                assert(world_served(before[i as int], client, peers, self.creatures@, db0, *db, now, e1));
                assert(session_ids(self.clients@) =~= ids0) by {
                    assert forall|j: int| 0 <= j < n implies #[trigger] session_ids(self.clients@)[j] == ids0[j] by {
                        if j != i {
                            assert(self.clients@[j] == before[j]);
                        }
                    }
                }
                assert(visited@ =~= ids0.subrange(0, i + 1));
                assert forall|j: int| 0 <= j < self.clients@.len() implies {
                    &&& (#[trigger] self.clients@[j]).character.wf()
                    &&& ids_below(self.clients@[j].character, db.next_id())
                } by {
                    if j != i {
                        assert(self.clients@[j] == before[j]);
                        lemma_ids_below_grows(self.clients@[j].character, n0, db.next_id());
                    }
                }
                let e = appended(start, out@);
                let kk = eff0.len() as int;
                assert(e.take(kk) =~= eff0);
                assert(e.skip(kk) =~= e1);
                assert(self.clients@ =~= before.update(i as int, client));
                assert(before.remove(i as int) =~= peers);
                assert(worlds_served(initial, i as int, before, self.creatures@, db_start, db0, now, e.take(kk)));
                assert(world_served(before[(i + 1) - 1], self.clients@[(i + 1) - 1], before.remove((i + 1) - 1),
                    self.creatures@, db0, *db, now, e.skip(kk)));
                assert(worlds_served(initial, i + 1, self.clients@, self.creatures@, db_start, *db, now, e));
            }
            i = i + 1;
        }
        proof {
            assert(ids0.subrange(0, n as int) =~= ids0);
        }
        visited
    }

    /// Tick step five: the players who asked to log out leave the world
    /// list, which keeps the others in order. In order of the list, each
    /// leaver's character is forgotten by every player who stays and is
    /// written back to the store, and its session joins the end of the
    /// character screen.
    pub fn process_logouts(&mut self, db: &mut WorldDatabase, out: &mut Vec<Effect>)
        requires
            old(self).wf(old(db).next_id()),
            old(db).wf(),
        ensures
            final(self).wf(final(db).next_id()),
            final(db).wf(),
            logged_out(*old(self), *final(self), old(db).characters(), final(db).characters(),
                appended(old(out)@, final(out)@)),
            final(db).next_id() == old(db).next_id(),
            extends(old(out)@, final(out)@),
    {
        let ghost start = out@;
        assert(start.subrange(0, start.len() as int) =~= start);
        let ghost initial = self.clients@;
        let ghost old_ids = self.ids();
        let mut all: Vec<Client> = Vec::new();
        std::mem::swap(&mut all, &mut self.clients);
        let mut staying: Vec<Client> = Vec::new();
        let mut leaving: Vec<Client> = Vec::new();
        let ghost mut p: int = 0;
        assert(all@ =~= initial.skip(0));
        assert(initial.take(0) =~= Seq::<Client>::empty());
        while all.len() > 0
            invariant
                0 <= p <= initial.len(),
                all@ == initial.skip(p),
                staying@ == stay(initial.take(p)),
                leaving@ == leave(initial.take(p)),
            decreases all@.len(),
        {
            let c = all.remove(0);
            assert(initial.take(p + 1).drop_last() =~= initial.take(p));
            assert(initial.take(p + 1).last() == c);
            if c.logout_requested {
                leaving.push(c);
            } else {
                staying.push(c);
            }
            proof {
                p = p + 1;
            }
            assert(all@ =~= initial.skip(p));
        }
        assert(initial.take(p) =~= initial);
        proof {
            lemma_partition(initial);
            lemma_partition_members(initial);
        }
        self.clients = staying;
        let ghost screen0 = self.clients_on_character_screen@;
        let ghost chars0 = db.characters();
        let ghost gone = leaving@;
        let ghost mut q: int = 0;
        assert(leaving@ =~= gone.skip(0));
        assert(gone.take(0) =~= Seq::<Client>::empty());
        assert(screen0 + gone.take(0).map_values(|c: Client| to_screen(c)) =~= screen0);
        while leaving.len() > 0
            invariant
                0 <= q <= gone.len(),
                leaving@ == gone.skip(q),
                gone == leave(initial),
                self.clients@ == stay(initial),
                forall|j: int| 0 <= j < gone.len() ==> initial.contains(#[trigger] gone[j]),
                forall|j: int| 0 <= j < initial.len() ==> {
                    &&& (#[trigger] initial[j]).character.wf()
                    &&& ids_below(initial[j].character, db.next_id())
                },
                db.wf(),
                db.next_id() == old(db).next_id(),
                db.characters() == persisted(chars0, gone.take(q)),
                chars0 == old(db).characters(),
                self.clients_on_character_screen@ == screen0 + gone.take(q).map_values(|c: Client| to_screen(c)),
                screen0 == old(self).clients_on_character_screen@,
                self.clients_waiting_to_join@ == old(self).clients_waiting_to_join@,
                self.creatures@ == old(self).creatures@,
                extends(start, out@),
                out@.len() == start.len() + q,
                forall|j: int| 0 <= j < q ==> sends(#[trigger] out@[start.len() + j],
                    session_ids(stay(initial)), ServerMessage::DestroyObject { guid: gone[j].character.guid }),
            decreases leaving@.len(),
        {
            let client = leaving.remove(0);
            assert(gone[q] == client);
            assert(initial.contains(client));
            let Client { id, character, account_name, received_messages, reader_finished, .. } = client;
            let guid = character.guid;
            let ghost mid = out@;
            out.push(
                Effect::Send {
                    recipients: crate::chat::all_ids(&self.clients),
                    message: ServerMessage::DestroyObject { guid },
                },
            );
            proof {
                assert(out@.subrange(0, mid.len() as int) =~= mid);
                assert(out@.subrange(0, start.len() as int) =~= out@.subrange(0, mid.len() as int).subrange(0, start.len() as int));
                let k = choose|k: int| 0 <= k < initial.len() && initial[k] == client;
                assert(initial[k].character.wf());
            }
            let ghost before_chars = db.characters();
            db.replace_character_data(character);
            proof {
                lemma_replace_is_first(before_chars, character, db.characters());
                assert(gone.take(q + 1).drop_last() =~= gone.take(q));
            }
            let session = CharacterScreenClient {
                id,
                status: CharacterScreenProgress::CharacterScreen,
                account_name,
                received_messages,
                reader_finished,
            };
            assert(session == to_screen(client));
            self.clients_on_character_screen.push(session);
            proof {
                assert(gone.take(q + 1).map_values(|c: Client| to_screen(c)) =~= gone.take(q).map_values(|c: Client| to_screen(c)).push(session));
                q = q + 1;
            }
            assert(leaving@ =~= gone.skip(q));
        }
        assert(gone.take(q) =~= gone);
        proof {
            let w = screen_ids(self.clients_waiting_to_join@);
            let c = screen_ids(screen0);
            let l = session_ids(initial);
            assert(screen_ids(self.clients_on_character_screen@) =~= c + session_ids(gone)) by {
                assert(screen_ids(gone.map_values(|x: Client| to_screen(x))) =~= session_ids(gone));
            }
            assert(self.ids().to_multiset() =~= w.to_multiset().add(c.to_multiset().add(session_ids(gone).to_multiset())).add(session_ids(stay(initial)).to_multiset()));
            assert(old_ids.to_multiset() =~= w.to_multiset().add(c.to_multiset()).add(l.to_multiset()));
            assert(self.ids().to_multiset() =~= old_ids.to_multiset());
            lemma_no_duplicates_within(old_ids, self.ids());
            assert forall|j: int| 0 <= j < self.clients@.len() implies {
                &&& (#[trigger] self.clients@[j]).character.wf()
                &&& ids_below(self.clients@[j].character, db.next_id())
            } by {
                assert(initial.contains(self.clients@[j]));
                let k = choose|k: int| 0 <= k < initial.len() && initial[k] == self.clients@[j];
                assert(initial[k].character.wf());
            }
            assert(appended(start, out@).len() == gone.len());
            assert forall|j: int| 0 <= j < gone.len() implies sends(#[trigger] appended(start, out@)[j],
                session_ids(stay(initial)), ServerMessage::DestroyObject { guid: gone[j].character.guid }) by {
                assert(appended(start, out@)[j] == out@[start.len() + j]);
            }
        }
    }

    /// One pass of the simulation, in the fixed order: admit the sessions
    /// that joined, serve the character screen, bring those who picked a
    /// character into the world, serve every player in the world, carry
    /// out the logouts, and drop closed character-screen connections.
    /// Returns what is to be sent, the effects of the six steps in that
    /// order, and the players served in step four, in the order served.
    pub fn tick(&mut self, db: &mut WorldDatabase, now: u32) -> (r: (Vec<Effect>, Vec<u64>))
        requires
            old(self).wf(old(db).next_id()),
            old(db).wf(),
        ensures
            final(self).wf(final(db).next_id()),
            final(db).wf(),
            final(db).next_id() >= old(db).next_id(),
            exists|w: Seq<World>, d: Seq<WorldDatabase>, e: Seq<Seq<Effect>>|
                #[trigger] tick_chain(*old(self), *old(db), *final(self), *final(db), now, r.0@, r.1@, w, d, e),
            final(self).clients_waiting_to_join@.len() == 0,
            forall|i: int| 0 <= i < final(self).clients_on_character_screen@.len() ==> {
                &&& (#[trigger] final(self).clients_on_character_screen@[i]).status
                    == CharacterScreenProgress::CharacterScreen
                &&& !final(self).clients_on_character_screen@[i].reader_finished
            },
            forall|i: int| 0 <= i < final(self).clients@.len()
                ==> !(#[trigger] final(self).clients@[i]).logout_requested,
            r.1@.no_duplicates(),
            forall|i: int| 0 <= i < final(self).clients@.len() ==> r.1@.contains(#[trigger] final(self).clients@[i].id),
            final(self).creatures@ == old(self).creatures@,
    {
        let mut out: Vec<Effect> = Vec::new();
        let ghost db0 = *db;
        self.admit_joined(db);
        let ghost w0 = *self;
        self.dispatch_character_screens(db, &mut out);
        let ghost w1 = *self;
        let ghost d0 = *db;
        let ghost e0 = out@;
        self.promote_waiting(db, &mut out);
        let ghost w2 = *self;
        let ghost e1 = out@;
        let visited = self.dispatch_world_sessions(db, now, &mut out);
        let ghost w3 = *self;
        let ghost d1 = *db;
        let ghost e2 = out@;
        proof {
            let w = screen_ids(self.clients_waiting_to_join@);
            let c = screen_ids(self.clients_on_character_screen@);
            assert(self.ids() =~= w + c + visited@);
            assert forall|i: int, j: int| 0 <= i < visited@.len() && 0 <= j < visited@.len() && i != j
                implies visited@[i] != visited@[j] by {
                assert(self.ids()[w.len() + c.len() + i] == visited@[i]);
                assert(self.ids()[w.len() + c.len() + j] == visited@[j]);
            }
        }
        let ghost served = self.clients@;
        self.process_logouts(db, &mut out);
        let ghost w4 = *self;
        let ghost e3 = out@;
        self.prune_disconnected(db);
        proof {
            lemma_partition(served);
            lemma_partition_members(served);
            lemma_live(w4.clients_on_character_screen@);
            assert forall|i: int| 0 <= i < self.clients@.len() implies visited@.contains(#[trigger] self.clients@[i].id) by {
                let k = choose|k: int| 0 <= k < served.len() && served[k] == self.clients@[i];
                assert(session_ids(served)[k] == visited@[k]);
            }
            assert forall|i: int| 0 <= i < self.clients_on_character_screen@.len() implies {
                &&& (#[trigger] self.clients_on_character_screen@[i]).status
                    == CharacterScreenProgress::CharacterScreen
                &&& !self.clients_on_character_screen@[i].reader_finished
            } by {
                let x = self.clients_on_character_screen@[i];
                let k = choose|k: int| 0 <= k < w4.clients_on_character_screen@.len() && w4.clients_on_character_screen@[k] == x;
                if k >= w3.clients_on_character_screen@.len() {
                    let g = leave(served);
                    assert(w4.clients_on_character_screen@[k] == to_screen(g[k - w3.clients_on_character_screen@.len()]));
                } else {
                    assert(w4.clients_on_character_screen@[k] == w2.clients_on_character_screen@[k]);
                }
            }
            let sa = appended(Seq::empty(), e0);
            assert(sa =~= e0);
        }
        let ghost w_seq = seq![w0, w1, w2, w3, w4];
        let ghost d_seq = seq![d0, d1];
        let ghost e_seq = seq![e0, appended(e0, e1), appended(e1, e2), appended(e2, e3)];
        proof {
            assert(out@ =~= e_seq[0] + e_seq[1] + e_seq[2] + e_seq[3]);
            assert(db0 == *old(db));
            assert(tick_chain(*old(self), *old(db), *self, *db, now, out@, visited@, w_seq, d_seq, e_seq));
        }
        let r = (out, visited);
        assert(r.0@ == e_seq[0] + e_seq[1] + e_seq[2] + e_seq[3]);
        assert(tick_chain(*old(self), *old(db), *self, *db, now, r.0@, r.1@, w_seq, d_seq, e_seq));
        r
    }

    /// Hands a message received on connection `session` to that session,
    /// after those it already holds. Returns whether the world knows the
    /// session; when it does not, nothing changes.
    pub fn receive(&mut self, session: u64, opcode: ClientOpcode, db: &WorldDatabase) -> (r: bool)
        requires
            old(self).wf(db.next_id()),
        ensures
            final(self).wf(db.next_id()),
            r == old(self).ids().contains(session),
            final(self).ids() == old(self).ids(),
            screens_received(old(self).clients_waiting_to_join@, final(self).clients_waiting_to_join@, session, opcode),
            screens_received(old(self).clients_on_character_screen@, final(self).clients_on_character_screen@, session, opcode),
            players_received(old(self).clients@, final(self).clients@, session, opcode),
            final(self).creatures@ == old(self).creatures@,
    {
        let w = self.clients_waiting_to_join.len();
        let c = self.clients_on_character_screen.len();
        let n = self.clients_on_character_screen.len();
        let mut i: usize = 0;
        while i < n
            invariant
                n == self.clients_on_character_screen@.len(),
                *self == *old(self),
                self.wf(db.next_id()),
                w == old(self).clients_waiting_to_join@.len(),
                c == old(self).clients_on_character_screen@.len(),
                i <= n,
                forall|j: int| 0 <= j < i ==> (#[trigger] self.clients_on_character_screen@[j]).id != session,
            decreases n - i,
        {
            if self.clients_on_character_screen[i].id == session {
                let ghost before = self.clients_on_character_screen@;
                let mut s = self.clients_on_character_screen.remove(i);
                s.receive(opcode);
                self.clients_on_character_screen.insert(i, s);
                proof {
                    let ids = old(self).ids();
                    assert(ids[w + i] == session);
                    assert(screen_ids(self.clients_on_character_screen@) =~= screen_ids(before)) by {
                        assert forall|j: int| 0 <= j < n implies #[trigger] screen_ids(self.clients_on_character_screen@)[j] == screen_ids(before)[j] by {
                            if j != i {
                                assert(self.clients_on_character_screen@[j] == before[j]);
                            }
                        }
                    }
                    assert(self.ids() =~= old(self).ids());
                    assert forall|j: int| 0 <= j < n && j != i implies (#[trigger] before[j]).id != session by {
                        assert(ids[w + j] == before[j].id);
                    }
                    assert forall|j: int| 0 <= j < w implies (#[trigger] self.clients_waiting_to_join@[j]).id != session by {
                        assert(ids[j] == self.clients_waiting_to_join@[j].id);
                    }
                    assert forall|j: int| 0 <= j < self.clients@.len() implies (#[trigger] self.clients@[j]).id != session by {
                        assert(ids[w + c + j] == self.clients@[j].id);
                    }
                    assert forall|j: int| 0 <= j < n && j != i implies self.clients_on_character_screen@[j] == #[trigger] before[j] by {}
                }
                return true;
            }
            i = i + 1;
        }
        let n = self.clients.len();
        let mut i: usize = 0;
        while i < n
            invariant
                n == self.clients@.len(),
                *self == *old(self),
                self.wf(db.next_id()),
                w == old(self).clients_waiting_to_join@.len(),
                c == old(self).clients_on_character_screen@.len(),
                i <= n,
                forall|j: int| 0 <= j < i ==> (#[trigger] self.clients@[j]).id != session,
                forall|j: int| 0 <= j < self.clients_on_character_screen@.len() ==> (#[trigger] self.clients_on_character_screen@[j]).id != session,
            decreases n - i,
        {
            if self.clients[i].id == session {
                let ghost before = self.clients@;
                let mut client = self.clients.remove(i);
                client.receive(opcode);
                self.clients.insert(i, client);
                proof {
                    let ids = old(self).ids();
                    assert(ids[w + c + i] == session);
                    assert(session_ids(self.clients@) =~= session_ids(before)) by {
                        assert forall|j: int| 0 <= j < n implies #[trigger] session_ids(self.clients@)[j] == session_ids(before)[j] by {
                            if j != i {
                                assert(self.clients@[j] == before[j]);
                            }
                        }
                    }
                    assert(self.ids() =~= old(self).ids());
                    assert forall|j: int| 0 <= j < n && j != i implies (#[trigger] before[j]).id != session by {
                        assert(ids[w + c + j] == before[j].id);
                    }
                    assert forall|j: int| 0 <= j < w implies (#[trigger] self.clients_waiting_to_join@[j]).id != session by {
                        assert(ids[j] == self.clients_waiting_to_join@[j].id);
                    }
                    assert forall|j: int| 0 <= j < self.clients@.len() implies {
                        &&& (#[trigger] self.clients@[j]).character.wf()
                        &&& ids_below(self.clients@[j].character, db.next_id())
                    } by {
                        if j != i {
                            assert(self.clients@[j] == before[j]);
                        } else {
                            assert(self.clients@[j].character == before[j].character);
                        }
                    }
                    assert forall|j: int| 0 <= j < n && j != i implies self.clients@[j] == #[trigger] before[j] by {}
                }
                return true;
            }
            i = i + 1;
        }
        let n = self.clients_waiting_to_join.len();
        let mut i: usize = 0;
        while i < n
            invariant
                n == self.clients_waiting_to_join@.len(),
                *self == *old(self),
                self.wf(db.next_id()),
                w == old(self).clients_waiting_to_join@.len(),
                c == old(self).clients_on_character_screen@.len(),
                i <= n,
                forall|j: int| 0 <= j < i ==> (#[trigger] self.clients_waiting_to_join@[j]).id != session,
                forall|j: int| 0 <= j < self.clients_on_character_screen@.len() ==> (#[trigger] self.clients_on_character_screen@[j]).id != session,
                forall|j: int| 0 <= j < self.clients@.len() ==> (#[trigger] self.clients@[j]).id != session,
            decreases n - i,
        {
            if self.clients_waiting_to_join[i].id == session {
                let ghost before = self.clients_waiting_to_join@;
                let mut s = self.clients_waiting_to_join.remove(i);
                s.receive(opcode);
                self.clients_waiting_to_join.insert(i, s);
                proof {
                    let ids = old(self).ids();
                    assert(ids[i as int] == session);
                    assert(screen_ids(self.clients_waiting_to_join@) =~= screen_ids(before)) by {
                        assert forall|j: int| 0 <= j < n implies #[trigger] screen_ids(self.clients_waiting_to_join@)[j] == screen_ids(before)[j] by {
                            if j != i {
                                assert(self.clients_waiting_to_join@[j] == before[j]);
                            }
                        }
                    }
                    assert(self.ids() =~= old(self).ids());
                    assert forall|j: int| 0 <= j < n && j != i implies (#[trigger] before[j]).id != session by {
                        assert(ids[j] == before[j].id);
                    }
                    assert forall|j: int| 0 <= j < n && j != i implies self.clients_waiting_to_join@[j] == #[trigger] before[j] by {}
                }
                return true;
            }
            i = i + 1;
        }
        proof {
            if old(self).ids().contains(session) {
                let k = choose|k: int| 0 <= k < old(self).ids().len() && old(self).ids()[k] == session;
                if k < w {
                    assert(self.clients_waiting_to_join@[k].id == session);
                } else if k < w + c {
                    assert(self.clients_on_character_screen@[k - w].id == session);
                } else {
                    assert(self.clients@[k - w - c].id == session);
                }
            }
        }
        false
    }

    /// Records that the connection of `session` has closed; a session on
    /// the character screen is then dropped by the next tick. Returns
    /// whether the world knows the session; when it does not, nothing
    /// changes.
    pub fn connection_closed(&mut self, session: u64, db: &WorldDatabase) -> (r: bool)
        requires
            old(self).wf(db.next_id()),
        ensures
            final(self).wf(db.next_id()),
            r == old(self).ids().contains(session),
            final(self).ids() == old(self).ids(),
            screens_closed(old(self).clients_waiting_to_join@, final(self).clients_waiting_to_join@, session),
            screens_closed(old(self).clients_on_character_screen@, final(self).clients_on_character_screen@, session),
            players_closed(old(self).clients@, final(self).clients@, session),
            final(self).creatures@ == old(self).creatures@,
    {
        let w = self.clients_waiting_to_join.len();
        let c = self.clients_on_character_screen.len();
        let n = self.clients_on_character_screen.len();
        let mut i: usize = 0;
        while i < n
            invariant
                n == self.clients_on_character_screen@.len(),
                *self == *old(self),
                self.wf(db.next_id()),
                w == old(self).clients_waiting_to_join@.len(),
                c == old(self).clients_on_character_screen@.len(),
                i <= n,
                forall|j: int| 0 <= j < i ==> (#[trigger] self.clients_on_character_screen@[j]).id != session,
            decreases n - i,
        {
            if self.clients_on_character_screen[i].id == session {
                let ghost before = self.clients_on_character_screen@;
                let mut s = self.clients_on_character_screen.remove(i);
                s.set_reader_finished();
                self.clients_on_character_screen.insert(i, s);
                proof {
                    let ids = old(self).ids();
                    assert(ids[w + i] == session);
                    assert(screen_ids(self.clients_on_character_screen@) =~= screen_ids(before)) by {
                        assert forall|j: int| 0 <= j < n implies #[trigger] screen_ids(self.clients_on_character_screen@)[j] == screen_ids(before)[j] by {
                            if j != i {
                                assert(self.clients_on_character_screen@[j] == before[j]);
                            }
                        }
                    }
                    assert(self.ids() =~= old(self).ids());
                    assert forall|j: int| 0 <= j < n && j != i implies (#[trigger] before[j]).id != session by {
                        assert(ids[w + j] == before[j].id);
                    }
                    assert forall|j: int| 0 <= j < w implies (#[trigger] self.clients_waiting_to_join@[j]).id != session by {
                        assert(ids[j] == self.clients_waiting_to_join@[j].id);
                    }
                    assert forall|j: int| 0 <= j < self.clients@.len() implies (#[trigger] self.clients@[j]).id != session by {
                        assert(ids[w + c + j] == self.clients@[j].id);
                    }
                    assert forall|j: int| 0 <= j < n && j != i implies self.clients_on_character_screen@[j] == #[trigger] before[j] by {}
                }
                return true;
            }
            i = i + 1;
        }
        let n = self.clients.len();
        let mut i: usize = 0;
        while i < n
            invariant
                n == self.clients@.len(),
                *self == *old(self),
                self.wf(db.next_id()),
                w == old(self).clients_waiting_to_join@.len(),
                c == old(self).clients_on_character_screen@.len(),
                i <= n,
                forall|j: int| 0 <= j < i ==> (#[trigger] self.clients@[j]).id != session,
                forall|j: int| 0 <= j < self.clients_on_character_screen@.len() ==> (#[trigger] self.clients_on_character_screen@[j]).id != session,
            decreases n - i,
        {
            if self.clients[i].id == session {
                let ghost before = self.clients@;
                let mut client = self.clients.remove(i);
                client.set_reader_finished();
                self.clients.insert(i, client);
                proof {
                    let ids = old(self).ids();
                    assert(ids[w + c + i] == session);
                    assert(session_ids(self.clients@) =~= session_ids(before)) by {
                        assert forall|j: int| 0 <= j < n implies #[trigger] session_ids(self.clients@)[j] == session_ids(before)[j] by {
                            if j != i {
                                assert(self.clients@[j] == before[j]);
                            }
                        }
                    }
                    assert(self.ids() =~= old(self).ids());
                    assert forall|j: int| 0 <= j < n && j != i implies (#[trigger] before[j]).id != session by {
                        assert(ids[w + c + j] == before[j].id);
                    }
                    assert forall|j: int| 0 <= j < w implies (#[trigger] self.clients_waiting_to_join@[j]).id != session by {
                        assert(ids[j] == self.clients_waiting_to_join@[j].id);
                    }
                    assert forall|j: int| 0 <= j < self.clients@.len() implies {
                        &&& (#[trigger] self.clients@[j]).character.wf()
                        &&& ids_below(self.clients@[j].character, db.next_id())
                    } by {
                        if j != i {
                            assert(self.clients@[j] == before[j]);
                        } else {
                            assert(self.clients@[j].character == before[j].character);
                        }
                    }
                    assert forall|j: int| 0 <= j < n && j != i implies self.clients@[j] == #[trigger] before[j] by {}
                }
                return true;
            }
            i = i + 1;
        }
        let n = self.clients_waiting_to_join.len();
        let mut i: usize = 0;
        while i < n
            invariant
                n == self.clients_waiting_to_join@.len(),
                *self == *old(self),
                self.wf(db.next_id()),
                w == old(self).clients_waiting_to_join@.len(),
                c == old(self).clients_on_character_screen@.len(),
                i <= n,
                forall|j: int| 0 <= j < i ==> (#[trigger] self.clients_waiting_to_join@[j]).id != session,
                forall|j: int| 0 <= j < self.clients_on_character_screen@.len() ==> (#[trigger] self.clients_on_character_screen@[j]).id != session,
                forall|j: int| 0 <= j < self.clients@.len() ==> (#[trigger] self.clients@[j]).id != session,
            decreases n - i,
        {
            if self.clients_waiting_to_join[i].id == session {
                let ghost before = self.clients_waiting_to_join@;
                let mut s = self.clients_waiting_to_join.remove(i);
                s.set_reader_finished();
                self.clients_waiting_to_join.insert(i, s);
                proof {
                    let ids = old(self).ids();
                    assert(ids[i as int] == session);
                    assert(screen_ids(self.clients_waiting_to_join@) =~= screen_ids(before)) by {
                        assert forall|j: int| 0 <= j < n implies #[trigger] screen_ids(self.clients_waiting_to_join@)[j] == screen_ids(before)[j] by {
                            if j != i {
                                assert(self.clients_waiting_to_join@[j] == before[j]);
                            }
                        }
                    }
                    assert(self.ids() =~= old(self).ids());
                    assert forall|j: int| 0 <= j < n && j != i implies (#[trigger] before[j]).id != session by {
                        assert(ids[j] == before[j].id);
                    }
                    assert forall|j: int| 0 <= j < n && j != i implies self.clients_waiting_to_join@[j] == #[trigger] before[j] by {}
                }
                return true;
            }
            i = i + 1;
        }
        proof {
            if old(self).ids().contains(session) {
                let k = choose|k: int| 0 <= k < old(self).ids().len() && old(self).ids()[k] == session;
                if k < w {
                    assert(self.clients_waiting_to_join@[k].id == session);
                } else if k < w + c {
                    assert(self.clients_on_character_screen@[k - w].id == session);
                } else {
                    assert(self.clients@[k - w - c].id == session);
                }
            }
        }
        false
    }

    /// Two lists never share a session: one on the character screen is not
    /// also in the world.
    pub proof fn lemma_screen_and_world_disjoint(&self, next_id: u64, i: int, j: int)
        requires
            self.wf(next_id),
            0 <= i < self.clients_on_character_screen@.len(),
            0 <= j < self.clients@.len(),
        ensures
            self.clients_on_character_screen@[i].id != self.clients@[j].id,
    {
        let w = self.clients_waiting_to_join@.len();
        let c = self.clients_on_character_screen@.len();
        assert(self.ids()[w + i] == self.clients_on_character_screen@[i].id);
        assert(self.ids()[w + c + j] == self.clients@[j].id);
    }
}

} // verus!
