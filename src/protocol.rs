use vstd::prelude::*;

use crate::character::{Character, MovementInfo};
use crate::creature::Creature;
use crate::geometry::Position;
use crate::gm_command::GmCommandError;
use crate::inventory::Item;
use crate::race::{Class, Gender, Race};

verus! {

/// The movement opcodes, relayed to other players as they come.
#[derive(Clone, Copy, Debug, PartialEq, Eq, Structural)]
pub enum MovementKind {
    StartForward,
    StartBackward,
    Stop,
    StartStrafeLeft,
    StartStrafeRight,
    StopStrafe,
    Jump,
    StartTurnLeft,
    StartTurnRight,
    StopTurn,
    StartPitchUp,
    StartPitchDown,
    StopPitch,
    SetRunMode,
    SetWalkMode,
    FallLand,
    StartSwim,
    StopSwim,
    SetFacing,
    SetPitch,
    Heartbeat,
}

/// How a player's chat message is to be spread.
#[derive(Debug)]
pub enum ChatType {
    Say,
    Yell,
    Whisper { target_player: String },
    /// Any other channel; not served.
    Other,
}

/// A decoded message from a client.
#[derive(Debug)]
pub enum ClientOpcode {
    Ping { sequence_id: u32 },
    CharEnum,
    CharCreate {
        name: String,
        race: u8,
        class: u8,
        gender: u8,
        skin: u8,
        face: u8,
        hair_style: u8,
        hair_color: u8,
        facial_hair: u8,
    },
    CharDelete { guid: u64 },
    PlayerLogin { guid: u64 },
    Movement { kind: MovementKind, info: MovementInfo },
    MoveFallReset { info: MovementInfo },
    MessageChat { chat_type: ChatType, message: String },
    SetSelection { target: u64 },
    AttackSwing { target: u64 },
    AttackStop,
    SwapInvItem { source_slot: u8, destination_slot: u8 },
    LogoutRequest,
    NameQuery { guid: u64 },
    CreatureQuery { entry: u32, guid: u64 },
    ItemQuerySingle { item: u32 },
    ItemNameQuery { item: u32 },
    QueryTime,
    WorldTeleport { destination: Position },
    WorldportAck,
    TextEmote { text_emote: u32, emote: u32 },
    UpdateAccountData,
    /// A message this server does not serve, by name.
    Unhandled { name: String },
}

/// Who sent a chat message, and how it is framed to the reader.
#[derive(Clone, Copy, Debug, PartialEq, Eq, Structural)]
pub enum ChatKind {
    Say,
    Yell,
    /// A whisper, as its receiver sees it.
    Whisper,
    /// A whisper, as its sender sees it: "you sent".
    WhisperInform,
}

/// What the server tells a player in a system message.
#[derive(Debug)]
pub enum Notice {
    CannotWhisperSelf,
    NoFreeSlots,
    IdentifiersExhausted,
    Command(GmCommandError),
    WhereAmI { position: Position },
    /// The squared distance to the target, in squared fixed-point units.
    RangeToTarget { distance_squared: u128 },
    PlayerInformation { character: Character },
    CreatureInformation { creature: Creature },
    TargetNotFound { guid: u64 },
    PlayerNotFound { name: String },
    Bookmarked { position: Position },
    NoPathfindingMap { map: u32 },
    TextEmote { text_emote: u32, emote: u32 },
}

/// A message from the server to clients.
#[derive(Debug)]
pub enum ServerMessage {
    Pong { sequence_id: u32 },
    CharacterList { characters: Vec<Character> },
    CharacterCreateResult { success: bool },
    /// Everything a client needs to enter the world as `character`: time,
    /// tutorial flags, spells, items and the character itself.
    LoginSequence { character: Character },
    CreatePlayer { character: Character },
    CreateCreature { creature: Creature },
    DestroyObject { guid: u64 },
    Movement { kind: MovementKind, guid: u64, info: MovementInfo },
    Chat { kind: ChatKind, sender: u64, message: String },
    System { notice: Notice },
    AttackStart { attacker: u64, victim: u64 },
    AttackStop { player: u64, enemy: u64 },
    AttackerStateUpdate { attacker: u64, target: u64, damage: u32 },
    CharacterLoginFailed,
    LogoutResponse,
    LogoutComplete,
    NameQueryResponse { guid: u64, name: String, race: Race, gender: Gender, class: Class },
    CreatureQueryResponse { entry: u32, name: String },
    ItemQueryResponse { item: u32 },
    ItemNotFound { item: u32 },
    ItemNameQueryResponse { item: u32 },
    QueryTimeResponse { time: u32 },
    EquipmentUpdate {
        guid: u64,
        source_slot: u8,
        source_item: u64,
        destination_slot: u8,
        destination_item: u64,
        equipment: Vec<Option<Item>>,
    },
    TeleportAck { guid: u64, destination: Position },
    TransferPending { map: u32 },
    NewWorld { destination: Position },
    ForceRunSpeedChange { guid: u64, speed: i32 },
    SplineSetRunSpeed { guid: u64, speed: i32 },
    ItemCreated { owner: u64, item: Item, slot: u8 },
    ItemPushResult { owner: u64, item: Item, slot: u8 },
    Emote { guid: u64, text_emote: u32, emote: u32 },
    MonsterMove { guid: u64 },
}

/// What the world asks of the outside after a step: a message for a list
/// of sessions, or a bookmark to keep.
#[derive(Debug)]
pub enum Effect {
    Send { recipients: Vec<u64>, message: ServerMessage },
    Bookmark { names: Vec<String>, position: Position },
}

} // verus!
