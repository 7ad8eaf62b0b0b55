use vstd::prelude::*;

use crate::character::Character;
use crate::geometry::{distance_squared, Position};
use crate::protocol::ClientOpcode;

verus! {

/// Where a session on the character screen stands.
#[derive(Clone, Copy, Debug, PartialEq, Eq, Structural)]
pub enum CharacterScreenProgress {
    CharacterScreen,
    /// The player picked this character; the next tick brings it into the world.
    WaitingToLogIn(u64),
}

/// A connection that has authenticated but has no character in the world.
#[derive(Debug)]
pub struct CharacterScreenClient {
    pub id: u64,
    pub status: CharacterScreenProgress,
    pub account_name: String,
    pub received_messages: Vec<ClientOpcode>,
    pub reader_finished: bool,
}

/// A connection playing a character in the world.
#[derive(Debug)]
pub struct Client {
    pub id: u64,
    pub character: Character,
    pub in_process_of_teleport: bool,
    pub logout_requested: bool,
    pub account_name: String,
    pub received_messages: Vec<ClientOpcode>,
    pub reader_finished: bool,
}

impl CharacterScreenClient {
    /// A freshly authenticated session with nothing received yet.
    pub fn new(id: u64, account_name: String) -> (r: CharacterScreenClient)
        ensures
            r.id == id,
            r.status == CharacterScreenProgress::CharacterScreen,
            r.account_name@ == account_name@,
            r.received_messages@.len() == 0,
            !r.reader_finished,
    {
        CharacterScreenClient {
            id,
            status: CharacterScreenProgress::CharacterScreen,
            account_name,
            received_messages: Vec::new(),
            reader_finished: false,
        }
    }

    /// The session, now playing `character`; the connection moves along.
    pub fn into_client(self, character: Character) -> (r: Client)
        ensures
            r.id == self.id,
            r.character == character,
            !r.in_process_of_teleport,
            !r.logout_requested,
            r.account_name == self.account_name,
            r.received_messages == self.received_messages,
            r.reader_finished == self.reader_finished,
    {
        Client {
            id: self.id,
            character,
            in_process_of_teleport: false,
            logout_requested: false,
            account_name: self.account_name,
            received_messages: self.received_messages,
            reader_finished: self.reader_finished,
        }
    }

    pub fn account_name(&self) -> (r: &str)
        ensures
            r@ == self.account_name@,
    {
        self.account_name.as_str()
    }

    /// Queues a message that the connection received.
    pub fn receive(&mut self, opcode: ClientOpcode)
        ensures
            final(self).received_messages@ == old(self).received_messages@.push(opcode),
            final(self).id == old(self).id,
            final(self).status == old(self).status,
            final(self).account_name == old(self).account_name,
            final(self).reader_finished == old(self).reader_finished,
    {
        self.received_messages.push(opcode);
    }

    /// Records that the connection's reader has stopped.
    pub fn set_reader_finished(&mut self)
        ensures
            *final(self) == (CharacterScreenClient { reader_finished: true, ..*old(self) }),
    {
        self.reader_finished = true;
    }

    pub fn reader_finished(&self) -> (r: bool)
        ensures
            r == self.reader_finished,
    {
        self.reader_finished
    }
}

impl Client {
    /// Back to the character screen; the character stays behind.
    pub fn into_character_screen_client(self) -> (r: CharacterScreenClient)
        ensures
            r.id == self.id,
            r.status == CharacterScreenProgress::CharacterScreen,
            r.account_name == self.account_name,
            r.received_messages == self.received_messages,
            r.reader_finished == self.reader_finished,
    {
        CharacterScreenClient {
            id: self.id,
            status: CharacterScreenProgress::CharacterScreen,
            account_name: self.account_name,
            received_messages: self.received_messages,
            reader_finished: self.reader_finished,
        }
    }

    pub fn character(&self) -> (r: &Character)
        ensures
            *r == self.character,
    {
        &self.character
    }

    pub fn logout_requested(&self) -> (r: bool)
        ensures
            r == self.logout_requested,
    {
        self.logout_requested
    }

    /// Queues a message that the connection received.
    pub fn receive(&mut self, opcode: ClientOpcode)
        ensures
            final(self).received_messages@ == old(self).received_messages@.push(opcode),
            final(self).id == old(self).id,
            final(self).character == old(self).character,
            final(self).in_process_of_teleport == old(self).in_process_of_teleport,
            final(self).logout_requested == old(self).logout_requested,
            final(self).account_name == old(self).account_name,
            final(self).reader_finished == old(self).reader_finished,
    {
        self.received_messages.push(opcode);
    }

    /// Records that the connection's reader has stopped.
    pub fn set_reader_finished(&mut self)
        ensures
            *final(self) == (Client { reader_finished: true, ..*old(self) }),
    {
        self.reader_finished = true;
    }

    pub fn position(&self) -> (r: Position)
        ensures
            r == self.character.position_spec(),
    {
        self.character.position()
    }

    /// The squared distance to `position`, or `None` when it is on another map.
    pub fn distance_to_position(&self, position: &Position) -> (r: Option<u128>)
        ensures
            match r {
                Some(d) => self.character.map == position.map && d as int == distance_squared(
                    self.character.position_spec().point(),
                    position.point(),
                ),
                None => self.character.map != position.map,
            },
    {
        if self.character.map == position.map {
            let me = self.position();
            Some(crate::geometry::distance_squared_between(
                crate::geometry::Vector3 { x: me.x, y: me.y, z: me.z },
                crate::geometry::Vector3 { x: position.x, y: position.y, z: position.z },
            ))
        } else {
            None
        }
    }

    /// The squared distance to another player, or `None` across maps.
    pub fn distance_to_center(&self, other: &Client) -> (r: Option<u128>)
        ensures
            match r {
                Some(d) => self.character.map == other.character.map && d as int
                    == distance_squared(
                    self.character.position_spec().point(),
                    other.character.position_spec().point(),
                ),
                None => self.character.map != other.character.map,
            },
    {
        let p = other.position();
        self.distance_to_position(&p)
    }
}

} // verus!
