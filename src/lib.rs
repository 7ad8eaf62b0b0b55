//! The authoritative core of a game world server: sessions move from the
//! character screen into the world and back, one tick at a time, and every
//! client message is turned into changes of the world and messages to the
//! players who should see them. Sockets, encryption and the wire encoding
//! stay outside; they hand this library decoded messages and carry out the
//! effects it returns.

/// Points, positions and the range gate, in fixed-point world units.
pub mod geometry;
/// Races, classes and the tables that go with them.
pub mod race;
/// The slot table of a character's items.
pub mod inventory;
/// The player character record.
pub mod character;
/// Base attributes and the health and mana derived from them.
pub mod stats;
/// The store of characters and the source of fresh identifiers.
pub mod database;
/// Non-player entities.
pub mod creature;
/// The version-neutral messages between clients and the world.
pub mod protocol;
/// Connections on the character screen and in the world.
pub mod session;
/// Spoken, yelled and whispered chat.
pub mod chat;
/// Lookups in the static item and map tables.
pub mod items;
/// What one message from a player in the world does.
pub mod dispatch;
/// What one message from the character screen does.
pub mod screen;
/// Game master commands typed into chat.
pub mod gm_command;
/// Reading words and numbers out of chat text.
pub mod text;
/// The world and its tick.
pub mod world;
/// The realm list's address of the world server.
pub mod realm;
