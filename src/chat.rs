use vstd::prelude::*;

use crate::geometry::{positions_within_range, within_range, Position, SAY, YELL};
use crate::protocol::{ChatKind, ChatType, Effect, Notice, ServerMessage};
use crate::session::Client;

verus! {

/// The code of a character with ASCII capitals folded to lower case.
pub open spec fn ascii_fold(c: char) -> u32 {
    if 'A' <= c && c <= 'Z' {
        (c as u32 + 32) as u32
    } else {
        c as u32
    }
}

/// Equal when ASCII letters are compared without regard to case.
pub open spec fn eq_ignore_ascii_case_spec(a: Seq<char>, b: Seq<char>) -> bool {
    a.len() == b.len() && forall|i: int| 0 <= i < a.len() ==> #[trigger] ascii_fold(a[i])
        == ascii_fold(b[i])
}

pub fn eq_ignore_ascii_case(a: &str, b: &str) -> (r: bool)
    ensures
        r == eq_ignore_ascii_case_spec(a@, b@),
{
    let n = a.unicode_len();
    if n != b.unicode_len() {
        return false;
    }
    let mut i: usize = 0;
    while i < n
        invariant
            n == a@.len(),
            n == b@.len(),
            i <= n,
            forall|k: int| 0 <= k < i ==> #[trigger] ascii_fold(a@[k]) == ascii_fold(b@[k]),
        decreases n - i,
    {
        let x = a.get_char(i);
        let y = b.get_char(i);
        let fx: u32 = if 'A' <= x && x <= 'Z' {
            x as u32 + 32
        } else {
            x as u32
        };
        let fy: u32 = if 'A' <= y && y <= 'Z' {
            y as u32 + 32
        } else {
            y as u32
        };
        if fx != fy {
            assert(ascii_fold(a@[i as int]) != ascii_fold(b@[i as int]));
            return false;
        }
        i = i + 1;
    }
    true
}

/// The session identifiers of `clients`, in order.
pub open spec fn session_ids(clients: Seq<Client>) -> Seq<u64> {
    clients.map_values(|c: Client| c.id)
}

/// The sessions among `others`, in order, whose characters stand within
/// `range` of `p` on its map.
pub open spec fn ids_in_range(others: Seq<Client>, p: Position, range: u32) -> Seq<u64>
    decreases others.len(),
{
    if others.len() == 0 {
        Seq::empty()
    } else {
        let rest = ids_in_range(others.drop_last(), p, range);
        if within_range(p, others.last().character.position_spec(), range) {
            rest.push(others.last().id)
        } else {
            rest
        }
    }
}

pub fn recipients_in_range(others: &Vec<Client>, p: Position, range: u32) -> (r: Vec<u64>)
    ensures
        r@ == ids_in_range(others@, p, range),
{
    let mut r: Vec<u64> = Vec::new();
    let mut i: usize = 0;
    while i < others.len()
        invariant
            i <= others@.len(),
            r@ == ids_in_range(others@.subrange(0, i as int), p, range),
        decreases others@.len() - i,
    {
        let q = others[i].position();
        proof {
            assert(others@.subrange(0, i + 1).drop_last() =~= others@.subrange(0, i as int));
        }
        if positions_within_range(p, q, range) {
            r.push(others[i].id);
        }
        i = i + 1;
    }
    assert(others@.subrange(0, others@.len() as int) =~= others@);
    r
}

/// Every session among `others`, in order.
pub fn all_ids(others: &Vec<Client>) -> (r: Vec<u64>)
    ensures
        r@ == session_ids(others@),
{
    let mut r: Vec<u64> = Vec::new();
    let mut i: usize = 0;
    while i < others.len()
        invariant
            i <= others@.len(),
            r@ =~= session_ids(others@.subrange(0, i as int)),
        decreases others@.len() - i,
    {
        r.push(others[i].id);
        i = i + 1;
    }
    assert(others@.subrange(0, others@.len() as int) =~= others@);
    r
}

/// A player whose session is among `others` hears a message spoken at `p`
/// exactly when the range gate lets it through: same map, and strictly
/// closer than the range.
pub proof fn lemma_range_gate(others: Seq<Client>, p: Position, range: u32, k: int)
    requires
        session_ids(others).no_duplicates(),
        0 <= k < others.len(),
    ensures
        ids_in_range(others, p, range).contains(others[k].id) <==> within_range(
            p,
            others[k].character.position_spec(),
            range,
        ),
    decreases others.len(),
{
    lemma_ids_in_range_members(others, p, range);
    let last = others.len() - 1;
    if k < last {
        assert(session_ids(others.drop_last()) =~= session_ids(others).drop_last());
        assert(session_ids(others)[k] == others[k].id);
        assert(session_ids(others)[last] == others[last].id);
        assert(others[last].id != others[k].id);
        lemma_range_gate(others.drop_last(), p, range, k);
        assert(others.drop_last()[k] == others[k]);
        let rest = ids_in_range(others.drop_last(), p, range);
        assert(rest.push(others[last].id).contains(others[k].id) <==> rest.contains(others[k].id)) by {
            if rest.push(others[last].id).contains(others[k].id) {
                let j = choose|j: int| 0 <= j < rest.len() + 1 && rest.push(others[last].id)[j] == others[k].id;
                if j < rest.len() {
                    assert(rest[j] == others[k].id);
                }
            }
            if rest.contains(others[k].id) {
                let j = choose|j: int| 0 <= j < rest.len() && rest[j] == others[k].id;
                assert(rest.push(others[last].id)[j] == others[k].id);
            }
        }
    } else {
        lemma_ids_in_range_members(others.drop_last(), p, range);
        if ids_in_range(others.drop_last(), p, range).contains(others[k].id) {
            let j = choose|j: int| 0 <= j < others.drop_last().len() && #[trigger] others.drop_last()[j].id == others[k].id;
            assert(session_ids(others)[j] == session_ids(others)[k]);
        }
        let rest = ids_in_range(others.drop_last(), p, range);
        assert(rest.push(others[k].id)[rest.len() as int] == others[k].id);
    }
}

/// Only identifiers of `others` are ever chosen.
proof fn lemma_ids_in_range_members(others: Seq<Client>, p: Position, range: u32)
    ensures
        forall|x: u64| #[trigger] ids_in_range(others, p, range).contains(x) ==> exists|j: int|
            0 <= j < others.len() && #[trigger] others[j].id == x,
    decreases others.len(),
{
    if others.len() > 0 {
        lemma_ids_in_range_members(others.drop_last(), p, range);
        assert forall|x: u64| #[trigger] ids_in_range(others, p, range).contains(x) implies exists|j: int|
            0 <= j < others.len() && #[trigger] others[j].id == x by {
            if ids_in_range(others.drop_last(), p, range).contains(x) {
                let j = choose|j: int| 0 <= j < others.drop_last().len() && #[trigger] others.drop_last()[j].id == x;
                assert(others[j].id == x);
            } else {
                assert(others[others.len() - 1].id == x);
            }
        }
    }
}

/// `e` sends chat `text` of `kind`, credited to `sender`, to `recipients`.
pub open spec fn is_chat_effect(
    e: Effect,
    recipients: Seq<u64>,
    kind: ChatKind,
    sender: u64,
    text: Seq<char>,
) -> bool {
    match e {
        Effect::Send { recipients: r, message: ServerMessage::Chat { kind: k, sender: s, message: m } } =>
            r@ == recipients && k == kind && s == sender && m@ == text,
        _ => false,
    }
}


/// Index of the first player among `others` whose name matches `name`
/// without regard to ASCII case.
pub open spec fn first_named(others: Seq<Client>, name: Seq<char>, k: int) -> bool {
    &&& 0 <= k < others.len()
    &&& eq_ignore_ascii_case_spec(others[k].character.name@, name)
    &&& forall|j: int| 0 <= j < k ==> !eq_ignore_ascii_case_spec(#[trigger] others[j].character.name@, name)
}

pub fn find_player_by_name(others: &Vec<Client>, name: &str) -> (r: Option<usize>)
    ensures
        match r {
            Some(k) => first_named(others@, name@, k as int),
            None => forall|j: int| 0 <= j < others@.len() ==> !eq_ignore_ascii_case_spec(
                #[trigger] others@[j].character.name@,
                name@,
            ),
        },
{
    let mut i: usize = 0;
    while i < others.len()
        invariant
            i <= others@.len(),
            forall|j: int| 0 <= j < i ==> !eq_ignore_ascii_case_spec(
                #[trigger] others@[j].character.name@,
                name@,
            ),
        decreases others@.len() - i,
    {
        if eq_ignore_ascii_case(others[i].character.name.as_str(), name) {
            return Some(i);
        }
        i = i + 1;
    }
    None
}

/// What a chat message of `chat_type` from `client` does: say and yell
/// reach the speaker and every player in range; a whisper reaches one
/// player found by name; other channels are not served.
pub open spec fn chat_effects(
    client: Client,
    others: Seq<Client>,
    chat_type: ChatType,
    text: Seq<char>,
    effects: Seq<Effect>,
) -> bool {
    let me = client.character;
    match chat_type {
        ChatType::Say => effects.len() == 1 && is_chat_effect(
            effects[0],
            seq![client.id] + ids_in_range(others, me.position_spec(), SAY),
            ChatKind::Say,
            me.guid,
            text,
        ),
        ChatType::Yell => effects.len() == 1 && is_chat_effect(
            effects[0],
            seq![client.id] + ids_in_range(others, me.position_spec(), YELL),
            ChatKind::Yell,
            me.guid,
            text,
        ),
        ChatType::Whisper { target_player } => if eq_ignore_ascii_case_spec(me.name@, target_player@) {
            effects.len() == 1 && match effects[0] {
                Effect::Send { recipients, message: ServerMessage::System { notice: Notice::CannotWhisperSelf } } =>
                    recipients@ == seq![client.id],
                _ => false,
            }
        } else if exists|k: int| first_named(others, target_player@, k) {
            exists|k: int|
                first_named(others, target_player@, k) && effects.len() == 2 && is_chat_effect(
                    effects[0],
                    seq![client.id],
                    ChatKind::WhisperInform,
                    others[k].character.guid,
                    text,
                ) && is_chat_effect(
                    effects[1],
                    seq![others[k].id],
                    ChatKind::Whisper,
                    me.guid,
                    text,
                )
        } else {
            effects.len() == 1 && match effects[0] {
                Effect::Send {
                    recipients,
                    message: ServerMessage::System { notice: Notice::PlayerNotFound { name } },
                } => recipients@ == seq![client.id] && name@ == target_player@,
                _ => false,
            }
        },
        ChatType::Other => effects.len() == 0,
    }
}

pub fn handle_message(
    client: &Client,
    others: &Vec<Client>,
    chat_type: &ChatType,
    message: &String,
    out: &mut Vec<Effect>,
)
    ensures
        final(out)@.len() >= old(out)@.len(),
        final(out)@.subrange(0, old(out)@.len() as int) == old(out)@,
        chat_effects(
            *client,
            others@,
            *chat_type,
            message@,
            final(out)@.subrange(old(out)@.len() as int, final(out)@.len() as int),
        ),
{
    let ghost start = old(out)@;
    let me = &client.character;
    match chat_type {
        ChatType::Say | ChatType::Yell => {
            let (range, kind) = match chat_type {
                ChatType::Say => (SAY, ChatKind::Say),
                _ => (YELL, ChatKind::Yell),
            };
            let mut recipients: Vec<u64> = Vec::new();
            recipients.push(client.id);
            let mut near = recipients_in_range(others, me.position(), range);
            recipients.append(&mut near);
            out.push(
                Effect::Send {
                    recipients,
                    message: ServerMessage::Chat { kind, sender: me.guid, message: message.clone() },
                },
            );
            assert(out@.subrange(start.len() as int, out@.len() as int) =~= seq![out@.last()]);
        },
        ChatType::Whisper { target_player } => {
            if eq_ignore_ascii_case(me.name.as_str(), target_player.as_str()) {
                let mut recipients: Vec<u64> = Vec::new();
                recipients.push(client.id);
                out.push(
                    Effect::Send {
                        recipients,
                        message: ServerMessage::System { notice: Notice::CannotWhisperSelf },
                    },
                );
                assert(out@.subrange(start.len() as int, out@.len() as int) =~= seq![out@.last()]);
                return ;
            }
            match find_player_by_name(others, target_player.as_str()) {
                Some(k) => {
                    let target = &others[k];
                    let mut to_sender: Vec<u64> = Vec::new();
                    to_sender.push(client.id);
                    out.push(
                        Effect::Send {
                            recipients: to_sender,
                            message: ServerMessage::Chat {
                                kind: ChatKind::WhisperInform,
                                sender: target.character.guid,
                                message: message.clone(),
                            },
                        },
                    );
                    let mut to_target: Vec<u64> = Vec::new();
                    to_target.push(target.id);
                    out.push(
                        Effect::Send {
                            recipients: to_target,
                            message: ServerMessage::Chat {
                                kind: ChatKind::Whisper,
                                sender: me.guid,
                                message: message.clone(),
                            },
                        },
                    );
                    let ghost added = out@.subrange(start.len() as int, out@.len() as int);
                    assert(added =~= seq![out@[out@.len() - 2], out@[out@.len() - 1]]);
                    assert(first_named(others@, target_player@, k as int));
                },
                None => {
                    let mut recipients: Vec<u64> = Vec::new();
                    recipients.push(client.id);
                    out.push(
                        Effect::Send {
                            recipients,
                            message: ServerMessage::System {
                                notice: Notice::PlayerNotFound { name: target_player.clone() },
                            },
                        },
                    );
                    assert(out@.subrange(start.len() as int, out@.len() as int) =~= seq![out@.last()]);
                },
            }
        },
        ChatType::Other => {
            assert(out@.subrange(start.len() as int, out@.len() as int) =~= Seq::<Effect>::empty());
        },
    }
}

} // verus!
