//! The wire protocol: message kinds, decoding of a request's fields, and the
//! routing of each request to the session and game operations.
use std::collections::HashMap;
use vstd::prelude::*;
use vstd::std_specs::iter::IteratorSpec;
use crate::error::ServerError;
use crate::game::{spell_cast, BlockType, DifficultyLevel, Game, GameState, GameType};
use crate::session::{fresh_session, joined, left_game, Session, SessionManager, User, UserRole};
use crate::game_manager::{fresh_game, spawn_finished};
use crate::ids::{parse_uuid, uuid_parse};

verus! {

broadcast use vstd::std_specs::hash::group_hash_axioms;

/// Settings of the network layer.
pub struct NetworkConfig {
    pub host: String,
    pub port: u16,
    pub max_message_size: usize,
    pub connection_timeout: u64,
    pub enable_cors: bool,
    pub cors_allowed_origins: Vec<String>,
    pub enable_ssl: bool,
    pub ssl_cert_path: String,
    pub ssl_key_path: String,
}

impl NetworkConfig {
    /// Local port 8080, messages up to one megabyte, CORS open to all.
    pub fn default_config() -> (c: NetworkConfig)
        ensures
            c.port == 8080,
            c.max_message_size == 1024 * 1024,
            c.connection_timeout == 60,
            c.enable_cors,
            !c.enable_ssl,
    {
        let mut origins: Vec<String> = Vec::new();
        origins.push(String::from_str("*"));
        NetworkConfig {
            host: String::from_str("127.0.0.1"),
            port: 8080,
            max_message_size: 1024 * 1024,
            connection_timeout: 60,
            enable_cors: true,
            cors_allowed_origins: origins,
            enable_ssl: false,
            ssl_cert_path: String::from_str("cert.pem"),
            ssl_key_path: String::from_str("key.pem"),
        }
    }
}

impl Default for NetworkConfig {
    fn default() -> (c: NetworkConfig)
        ensures
            c.port == 8080,
            c.max_message_size == 1024 * 1024,
            c.connection_timeout == 60,
            c.enable_cors,
            !c.enable_ssl,
    {
        NetworkConfig::default_config()
    }
}

/// The kind of a message envelope.
#[derive(Clone, Copy, Debug, PartialEq, Eq, Structural)]
pub enum MessageType {
    Auth,
    CreateGame,
    JoinGame,
    LeaveGame,
    StartGame,
    PauseGame,
    ResumeGame,
    FinishGame,
    SpawnBlock,
    MoveBlock,
    RotateBlock,
    CastSpell,
    GameState,
    PlayerState,
    BlockState,
    SpellState,
    PlayerJoined,
    PlayerLeft,
    SpellUsed,
    ChatMessage,
    Error,
    Ping,
    Pong,
}

/// The name of a message kind on the wire.
pub open spec fn message_type_name(t: MessageType) -> Seq<char> {
    match t {
        MessageType::Auth => "Auth"@,
        MessageType::CreateGame => "CreateGame"@,
        MessageType::JoinGame => "JoinGame"@,
        MessageType::LeaveGame => "LeaveGame"@,
        MessageType::StartGame => "StartGame"@,
        MessageType::PauseGame => "PauseGame"@,
        MessageType::ResumeGame => "ResumeGame"@,
        MessageType::FinishGame => "FinishGame"@,
        MessageType::SpawnBlock => "SpawnBlock"@,
        MessageType::MoveBlock => "MoveBlock"@,
        MessageType::RotateBlock => "RotateBlock"@,
        MessageType::CastSpell => "CastSpell"@,
        MessageType::GameState => "GameState"@,
        MessageType::PlayerState => "PlayerState"@,
        MessageType::BlockState => "BlockState"@,
        MessageType::SpellState => "SpellState"@,
        MessageType::PlayerJoined => "PlayerJoined"@,
        MessageType::PlayerLeft => "PlayerLeft"@,
        MessageType::SpellUsed => "SpellUsed"@,
        MessageType::ChatMessage => "ChatMessage"@,
        MessageType::Error => "Error"@,
        MessageType::Ping => "Ping"@,
        MessageType::Pong => "Pong"@,
    }
}

impl MessageType {
    /// The wire name of this kind.
    pub fn name(&self) -> (r: &'static str)
        ensures
            r@ == message_type_name(*self),
    {
        match self {
            MessageType::Auth => "Auth",
            MessageType::CreateGame => "CreateGame",
            MessageType::JoinGame => "JoinGame",
            MessageType::LeaveGame => "LeaveGame",
            MessageType::StartGame => "StartGame",
            MessageType::PauseGame => "PauseGame",
            MessageType::ResumeGame => "ResumeGame",
            MessageType::FinishGame => "FinishGame",
            MessageType::SpawnBlock => "SpawnBlock",
            MessageType::MoveBlock => "MoveBlock",
            MessageType::RotateBlock => "RotateBlock",
            MessageType::CastSpell => "CastSpell",
            MessageType::GameState => "GameState",
            MessageType::PlayerState => "PlayerState",
            MessageType::BlockState => "BlockState",
            MessageType::SpellState => "SpellState",
            MessageType::PlayerJoined => "PlayerJoined",
            MessageType::PlayerLeft => "PlayerLeft",
            MessageType::SpellUsed => "SpellUsed",
            MessageType::ChatMessage => "ChatMessage",
            MessageType::Error => "Error",
            MessageType::Ping => "Ping",
            MessageType::Pong => "Pong",
        }
    }

    /// The kind whose wire name is `s`.
    pub fn from_name(s: &str) -> (r: Option<MessageType>)
        ensures
            match r {
                Some(t) => message_type_name(t) == s@,
                None => forall|t: MessageType| message_type_name(t) != s@,
            },
    {
        let text: String = s.to_owned();
        let all: [MessageType; 23] = [
            MessageType::Auth,
            MessageType::CreateGame,
            MessageType::JoinGame,
            MessageType::LeaveGame,
            MessageType::StartGame,
            MessageType::PauseGame,
            MessageType::ResumeGame,
            MessageType::FinishGame,
            MessageType::SpawnBlock,
            MessageType::MoveBlock,
            MessageType::RotateBlock,
            MessageType::CastSpell,
            MessageType::GameState,
            MessageType::PlayerState,
            MessageType::BlockState,
            MessageType::SpellState,
            MessageType::PlayerJoined,
            MessageType::PlayerLeft,
            MessageType::SpellUsed,
            MessageType::ChatMessage,
            MessageType::Error,
            MessageType::Ping,
            MessageType::Pong,
        ];
        let mut i: usize = 0;
        while i < 23
            invariant
                text@ == s@,
                forall|j: int| 0 <= j < i ==> message_type_name(all@[j]) != s@,
                all@ == seq![
                    MessageType::Auth,
                    MessageType::CreateGame,
                    MessageType::JoinGame,
                    MessageType::LeaveGame,
                    MessageType::StartGame,
                    MessageType::PauseGame,
                    MessageType::ResumeGame,
                    MessageType::FinishGame,
                    MessageType::SpawnBlock,
                    MessageType::MoveBlock,
                    MessageType::RotateBlock,
                    MessageType::CastSpell,
                    MessageType::GameState,
                    MessageType::PlayerState,
                    MessageType::BlockState,
                    MessageType::SpellState,
                    MessageType::PlayerJoined,
                    MessageType::PlayerLeft,
                    MessageType::SpellUsed,
                    MessageType::ChatMessage,
                    MessageType::Error,
                    MessageType::Ping,
                    MessageType::Pong,
                ],
            decreases 23 - i,
        {
            let t = all[i];
            let name = String::from_str(t.name());
            if name == text {
                return Some(t);
            }
            i = i + 1;
        }
        proof {
            assert forall|t: MessageType| message_type_name(t) != s@ by {
                match t {
                    MessageType::Auth => assert(all@[0] == t),
                    MessageType::CreateGame => assert(all@[1] == t),
                    MessageType::JoinGame => assert(all@[2] == t),
                    MessageType::LeaveGame => assert(all@[3] == t),
                    MessageType::StartGame => assert(all@[4] == t),
                    MessageType::PauseGame => assert(all@[5] == t),
                    MessageType::ResumeGame => assert(all@[6] == t),
                    MessageType::FinishGame => assert(all@[7] == t),
                    MessageType::SpawnBlock => assert(all@[8] == t),
                    MessageType::MoveBlock => assert(all@[9] == t),
                    MessageType::RotateBlock => assert(all@[10] == t),
                    MessageType::CastSpell => assert(all@[11] == t),
                    MessageType::GameState => assert(all@[12] == t),
                    MessageType::PlayerState => assert(all@[13] == t),
                    MessageType::BlockState => assert(all@[14] == t),
                    MessageType::SpellState => assert(all@[15] == t),
                    MessageType::PlayerJoined => assert(all@[16] == t),
                    MessageType::PlayerLeft => assert(all@[17] == t),
                    MessageType::SpellUsed => assert(all@[18] == t),
                    MessageType::ChatMessage => assert(all@[19] == t),
                    MessageType::Error => assert(all@[20] == t),
                    MessageType::Ping => assert(all@[21] == t),
                    MessageType::Pong => assert(all@[22] == t),
                }
            }
        }
        None
    }
}

/// The value of one field of a message's `data` object, as far as routing
/// needs it: text is kept, numbers are only noted.
pub enum FieldValue {
    Text(String),
    Number,
    Other,
}

pub struct DataField {
    pub key: String,
    pub value: FieldValue,
}

/// The first field of `data` under `key`.
pub open spec fn lookup(data: Seq<DataField>, key: Seq<char>) -> Option<FieldValue>
    decreases data.len(),
{
    if data.len() == 0 {
        None
    } else if data[0].key@ == key {
        Some(data[0].value)
    } else {
        lookup(data.drop_first(), key)
    }
}

/// The text under `key`, when that field is text.
pub open spec fn text_field(data: Seq<DataField>, key: Seq<char>) -> Option<Seq<char>> {
    match lookup(data, key) {
        Some(FieldValue::Text(s)) => Some(s@),
        _ => None,
    }
}

pub open spec fn number_field(data: Seq<DataField>, key: Seq<char>) -> bool {
    lookup(data, key) matches Some(FieldValue::Number)
}

/// The first field of `data` under `key`.
pub fn find_field<'a>(data: &'a Vec<DataField>, key: &str) -> (r: Option<&'a FieldValue>)
    ensures
        match r {
            Some(v) => lookup(data@, key@) == Some(*v),
            None => lookup(data@, key@) is None,
        },
{
    let wanted: String = key.to_owned();
    let ghost d = data@;
    let mut i: usize = 0;
    assert(d.subrange(0, d.len() as int) =~= d);
    while i < data.len()
        invariant
            d == data@,
            wanted@ == key@,
            i <= d.len(),
            lookup(d, key@) == lookup(d.subrange(i as int, d.len() as int), key@),
        decreases d.len() - i,
    {
        assert(d.subrange(i as int, d.len() as int).drop_first() =~= d.subrange(i + 1, d.len() as int));
        if data[i].key == wanted {
            return Some(&data[i].value);
        }
        i = i + 1;
    }
    None
}

/// The text under `key`, when that field is text.
pub fn find_text(data: &Vec<DataField>, key: &str) -> (r: Option<String>)
    ensures
        match r {
            Some(t) => text_field(data@, key@) == Some(t@),
            None => text_field(data@, key@) is None,
        },
{
    match find_field(data, key) {
        Some(FieldValue::Text(t)) => Some(t.clone()),
        _ => None,
    }
}

/// The game mode named on the wire.
pub open spec fn game_type_named(s: Seq<char>) -> Option<GameType> {
    if s == "race"@ {
        Some(GameType::Race)
    } else if s == "survival"@ {
        Some(GameType::Survival)
    } else if s == "puzzle"@ {
        Some(GameType::Puzzle)
    } else {
        None
    }
}

/// The difficulty named on the wire.
pub open spec fn difficulty_named(s: Seq<char>) -> Option<DifficultyLevel> {
    if s == "easy"@ {
        Some(DifficultyLevel::Easy)
    } else if s == "medium"@ {
        Some(DifficultyLevel::Medium)
    } else if s == "hard"@ {
        Some(DifficultyLevel::Hard)
    } else if s == "expert"@ {
        Some(DifficultyLevel::Expert)
    } else {
        None
    }
}

pub fn parse_game_type(s: &String) -> (r: Option<GameType>)
    ensures
        r == game_type_named(s@),
{
    if *s == String::from_str("race") {
        Some(GameType::Race)
    } else if *s == String::from_str("survival") {
        Some(GameType::Survival)
    } else if *s == String::from_str("puzzle") {
        Some(GameType::Puzzle)
    } else {
        None
    }
}

pub fn parse_difficulty(s: &String) -> (r: Option<DifficultyLevel>)
    ensures
        r == difficulty_named(s@),
{
    if *s == String::from_str("easy") {
        Some(DifficultyLevel::Easy)
    } else if *s == String::from_str("medium") {
        Some(DifficultyLevel::Medium)
    } else if *s == String::from_str("hard") {
        Some(DifficultyLevel::Hard)
    } else if *s == String::from_str("expert") {
        Some(DifficultyLevel::Expert)
    } else {
        None
    }
}

/// A client request with the fields it needs, checked and typed.
pub enum Request {
    Auth { user_name: String },
    CreateGame { game_name: String, game_type: GameType, difficulty: DifficultyLevel },
    JoinGame { game_id: u128 },
    LeaveGame,
    StartGame,
    PauseGame,
    ResumeGame,
    FinishGame,
    SpawnBlock,
    /// The direction itself stays with the caller, which hands it to the physics engine.
    MoveBlock,
    /// The angle itself stays with the caller, which hands it to the physics engine.
    RotateBlock,
    CastSpell { spell_id: String, target_id: Option<u128> },
    Ping,
}

/// What checking the fields of a request of kind `kind` gives.
pub open spec fn decoded(kind: MessageType, data: Seq<DataField>, r: Result<Request, ServerError>) -> bool {
    &&& r is Err ==> r == Err::<Request, ServerError>(ServerError::ProtocolError)
    &&& match kind {
        MessageType::Auth => match r {
            Ok(Request::Auth { user_name }) => text_field(data, "user_name"@) == Some(user_name@),
            Ok(_) => false,
            Err(_) => text_field(data, "user_name"@) is None,
        },
        MessageType::CreateGame => match r {
            Ok(Request::CreateGame { game_name, game_type, difficulty }) => {
                &&& text_field(data, "game_name"@) == Some(game_name@)
                &&& text_field(data, "game_type"@) matches Some(t) && game_type_named(t) == Some(game_type)
                &&& text_field(data, "difficulty"@) matches Some(d) && difficulty_named(d) == Some(difficulty)
            },
            Ok(_) => false,
            Err(_) => {
                ||| text_field(data, "game_name"@) is None
                ||| !(text_field(data, "game_type"@) matches Some(t) && game_type_named(t) is Some)
                ||| !(text_field(data, "difficulty"@) matches Some(d) && difficulty_named(d) is Some)
            },
        },
        MessageType::JoinGame => match r {
            Ok(Request::JoinGame { game_id }) => text_field(data, "game_id"@) matches Some(t) && uuid_parse(t) == Some(game_id),
            Ok(_) => false,
            Err(_) => !(text_field(data, "game_id"@) matches Some(t) && uuid_parse(t) is Some),
        },
        MessageType::LeaveGame => r matches Ok(Request::LeaveGame),
        MessageType::StartGame => r matches Ok(Request::StartGame),
        MessageType::PauseGame => r matches Ok(Request::PauseGame),
        MessageType::ResumeGame => r matches Ok(Request::ResumeGame),
        MessageType::FinishGame => r matches Ok(Request::FinishGame),
        MessageType::SpawnBlock => r matches Ok(Request::SpawnBlock),
        MessageType::MoveBlock => (r matches Ok(Request::MoveBlock)) == (number_field(data, "direction_x"@)
            && number_field(data, "direction_y"@)),
        MessageType::RotateBlock => (r matches Ok(Request::RotateBlock)) == number_field(data, "angle_delta"@),
        MessageType::CastSpell => match r {
            Ok(Request::CastSpell { spell_id, target_id }) => {
                &&& text_field(data, "spell_id"@) == Some(spell_id@)
                &&& match text_field(data, "target_id"@) {
                    Some(t) => uuid_parse(t) is Some && target_id == uuid_parse(t),
                    None => target_id is None,
                }
            },
            Ok(_) => false,
            Err(_) => text_field(data, "spell_id"@) is None || (text_field(data, "target_id"@) matches Some(t)
                && uuid_parse(t) is None),
        },
        MessageType::Ping => r matches Ok(Request::Ping),
        _ => r is Err,
    }
}

/// Checks that a request of kind `kind` carries the fields it needs.
pub fn decode_request(kind: MessageType, data: &Vec<DataField>) -> (r: Result<Request, ServerError>)
    ensures
        decoded(kind, data@, r),
{
    match kind {
        MessageType::Auth => match find_text(data, "user_name") {
            Some(user_name) => Ok(Request::Auth { user_name }),
            None => Err(ServerError::ProtocolError),
        },
        MessageType::CreateGame => {
            let game_name = match find_text(data, "game_name") {
                Some(n) => n,
                None => return Err(ServerError::ProtocolError),
            };
            let game_type = match find_text(data, "game_type") {
                Some(t) => match parse_game_type(&t) {
                    Some(g) => g,
                    None => return Err(ServerError::ProtocolError),
                },
                None => return Err(ServerError::ProtocolError),
            };
            let difficulty = match find_text(data, "difficulty") {
                Some(d) => match parse_difficulty(&d) {
                    Some(d) => d,
                    None => return Err(ServerError::ProtocolError),
                },
                None => return Err(ServerError::ProtocolError),
            };
            Ok(Request::CreateGame { game_name, game_type, difficulty })
        },
        MessageType::JoinGame => match find_text(data, "game_id") {
            Some(t) => match parse_uuid(t.as_str()) {
                Some(game_id) => Ok(Request::JoinGame { game_id }),
                None => Err(ServerError::ProtocolError),
            },
            None => Err(ServerError::ProtocolError),
        },
        MessageType::LeaveGame => Ok(Request::LeaveGame),
        MessageType::StartGame => Ok(Request::StartGame),
        MessageType::PauseGame => Ok(Request::PauseGame),
        MessageType::ResumeGame => Ok(Request::ResumeGame),
        MessageType::FinishGame => Ok(Request::FinishGame),
        MessageType::SpawnBlock => Ok(Request::SpawnBlock),
        MessageType::MoveBlock => {
            let x = match find_field(data, "direction_x") {
                Some(FieldValue::Number) => true,
                _ => false,
            };
            let y = match find_field(data, "direction_y") {
                Some(FieldValue::Number) => true,
                _ => false,
            };
            if x && y {
                Ok(Request::MoveBlock)
            } else {
                Err(ServerError::ProtocolError)
            }
        },
        MessageType::RotateBlock => match find_field(data, "angle_delta") {
            Some(FieldValue::Number) => Ok(Request::RotateBlock),
            _ => Err(ServerError::ProtocolError),
        },
        MessageType::CastSpell => {
            let spell_id = match find_text(data, "spell_id") {
                Some(s) => s,
                None => return Err(ServerError::ProtocolError),
            };
            let target_id = match find_text(data, "target_id") {
                Some(t) => match parse_uuid(t.as_str()) {
                    Some(id) => Some(id),
                    None => return Err(ServerError::ProtocolError),
                },
                None => None,
            };
            Ok(Request::CastSpell { spell_id, target_id })
        },
        MessageType::Ping => Ok(Request::Ping),
        _ => Err(ServerError::ProtocolError),
    }
}

/// Reads an envelope's kind and fields into a request. Kinds that only the
/// server sends, and names of no kind, are protocol errors.
pub fn parse_request(kind_name: &str, data: &Vec<DataField>) -> (r: Result<Request, ServerError>)
    ensures
        (forall|t: MessageType| message_type_name(t) != kind_name@) ==> r == Err::<Request, ServerError>(ServerError::ProtocolError),
        forall|t: MessageType| message_type_name(t) == kind_name@ ==> decoded(t, data@, r),
{
    match MessageType::from_name(kind_name) {
        Some(kind) => {
            proof {
                lemma_message_type_names_distinct();
            }
            decode_request(kind, data)
        },
        None => Err(ServerError::ProtocolError),
    }
}

/// No two message kinds share a wire name.
pub proof fn lemma_message_type_names_distinct()
    ensures
        forall|a: MessageType, b: MessageType| message_type_name(a) == message_type_name(b) ==> a == b,
{
    reveal_strlit("Auth");
    reveal_strlit("CreateGame");
    reveal_strlit("JoinGame");
    reveal_strlit("LeaveGame");
    reveal_strlit("StartGame");
    reveal_strlit("PauseGame");
    reveal_strlit("ResumeGame");
    reveal_strlit("FinishGame");
    reveal_strlit("SpawnBlock");
    reveal_strlit("MoveBlock");
    reveal_strlit("RotateBlock");
    reveal_strlit("CastSpell");
    reveal_strlit("GameState");
    reveal_strlit("PlayerState");
    reveal_strlit("BlockState");
    reveal_strlit("SpellState");
    reveal_strlit("PlayerJoined");
    reveal_strlit("PlayerLeft");
    reveal_strlit("SpellUsed");
    reveal_strlit("ChatMessage");
    reveal_strlit("Error");
    reveal_strlit("Ping");
    reveal_strlit("Pong");
    assert forall|a: MessageType, b: MessageType| message_type_name(a) == message_type_name(b) implies a == b by {
        let na = message_type_name(a);
        let nb = message_type_name(b);
        assert(na.len() == nb.len());
        if na.len() > 0 {
            assert(na[0] == nb[0]);
        }
        if na.len() > 1 {
            assert(na[1] == nb[1]);
        }
        if na.len() > 2 {
            assert(na[2] == nb[2]);
        }
        if na.len() > 5 {
            assert(na[5] == nb[5]);
        }
    }
}

/// What a reply carries besides its kind.
#[derive(Clone, Copy, Debug, PartialEq, Eq, Structural)]
pub enum ReplyBody {
    Empty,
    Session(u128),
    Game(u128),
    Block(i32),
}

/// What the caller is to do after a request was routed.
pub enum Outcome {
    /// Send a reply of `kind` to the requesting connection, then, if
    /// `broadcast` names a game, send that game's state to its players.
    Reply { kind: MessageType, session_id: Option<u128>, body: ReplyBody, broadcast: Option<u128> },
    /// Send an `Error` message to the requesting connection; it stays open.
    Failure { error: ServerError, session_id: Option<u128> },
    /// Have the physics engine make a floor for a new game, then call
    /// `complete_create_game`.
    NeedFloor { session_id: u128, game_name: String, game_type: GameType, difficulty: DifficultyLevel },
    /// Have the physics engine make a piece of `shape` at the spawn point,
    /// then call `complete_spawn`.
    NeedPiece { session_id: u128, game_id: u128, player_id: u128, shape: BlockType, field_height: usize },
    /// Move (or rotate) `block_id` in the physics engine, then reply with
    /// `kind` and broadcast the game.
    NeedTransform { kind: MessageType, session_id: u128, game_id: u128, block_id: i32 },
}

/// The connection table: each open connection and the session bound to it.
pub struct WebSocketHandler {
    pub connections: HashMap<u128, Option<u128>>,
}

impl WebSocketHandler {
    pub fn new() -> (h: WebSocketHandler)
        ensures
            h.connections@ == Map::<u128, Option<u128>>::empty(),
    {
        WebSocketHandler { connections: HashMap::new() }
    }

    /// Registers a new connection, with no session yet.
    pub fn connect(&mut self, connection_id: u128)
        ensures
            final(self).connections@ == old(self).connections@.insert(connection_id, None),
    {
        self.connections.insert(connection_id, None);
    }

    /// Forgets a connection. A session bound to it is kept, with its
    /// activity refreshed: expiry decides when it ends.
    pub fn disconnect(&mut self, sessions: &mut SessionManager, connection_id: u128, now: u64)
        requires
            old(sessions).wf(),
        ensures
            final(sessions).wf(),
            final(self).connections@ == old(self).connections@.remove(connection_id),
            final(sessions).game_manager == old(sessions).game_manager,
            final(sessions).config == old(sessions).config,
            match old(self).connections@.get(connection_id) {
                Some(Some(sid)) => old(sessions).sessions@.contains_key(sid) ==> final(sessions).sessions@
                    == old(sessions).sessions@.insert(sid, Session {
                        last_activity: now,
                        user: User { last_activity: now, ..old(sessions).sessions@[sid].user },
                        ..old(sessions).sessions@[sid]
                    }),
                _ => true,
            },
            final(sessions).sessions@.dom() == old(sessions).sessions@.dom(),
            !(old(self).connections@.get(connection_id) matches Some(Some(sid)) && old(sessions).sessions@.contains_key(sid))
                ==> final(sessions).sessions@ == old(sessions).sessions@,
    {
        match self.connections.remove(&connection_id) {
            Some(Some(session_id)) => {
                let _ = sessions.update_session_activity(session_id, now);
            },
            _ => {},
        }
    }

    pub fn connection_count(&self) -> (r: usize)
        ensures
            r == self.connections@.len(),
    {
        self.connections.len()
    }

    /// The ids of all open connections.
    pub fn get_connections(&self) -> (r: Vec<u128>)
        ensures
            r@.to_set() == self.connections@.dom(),
            r@.no_duplicates(),
    {
        let mut r: Vec<u128> = Vec::new();
        for k in it: self.connections.keys()
            invariant
                r@.len() == it.index(),
                forall|i: int| 0 <= i < it.index() ==> r@[i] == *it.seq()[i],
        {
            r.push(*k);
        }
        assert(r@ =~= vstd::std_specs::hash::spec_keys_iter(&self.connections).remaining().unref());
        r
    }

    /// The open connections bound to a session.
    pub fn connections_of_session(&self, session_id: u128) -> (r: Vec<u128>)
        ensures
            forall|i: int| 0 <= i < r@.len() ==> self.connections@.contains_key(#[trigger] r@[i])
                && self.connections@[r@[i]] == Some(session_id),
            forall|c: u128| #[trigger] self.connections@.contains_key(c) && self.connections@[c] == Some(session_id)
                ==> r@.contains(c),
    {
        let ids = self.get_connections();
        let mut r: Vec<u128> = Vec::new();
        let mut i: usize = 0;
        while i < ids.len()
            invariant
                ids@.to_set() == self.connections@.dom(),
                i <= ids@.len(),
                forall|k: int| 0 <= k < r@.len() ==> self.connections@.contains_key(#[trigger] r@[k])
                    && self.connections@[r@[k]] == Some(session_id),
                forall|j: int| 0 <= j < i && self.connections@[#[trigger] ids@[j]] == Some(session_id) ==> r@.contains(ids@[j]),
            decreases ids@.len() - i,
        {
            let c = ids[i];
            assert(ids@.to_set().contains(c));
            let ghost prev = r@;
            if *self.connections.get(&c).unwrap() == Some(session_id) {
                r.push(c);
            }
            proof {
                assert forall|j: int| 0 <= j < i + 1 && self.connections@[#[trigger] ids@[j]] == Some(session_id)
                    implies r@.contains(ids@[j]) by {
                    if j < i {
                        assert(prev.contains(ids@[j]));
                        let k = choose|k: int| 0 <= k < prev.len() && prev[k] == ids@[j];
                        assert(r@[k] == prev[k]);
                    } else {
                        assert(r@[r@.len() - 1] == c);
                    }
                }
            }
            i = i + 1;
        }
        proof {
            assert forall|c: u128| #[trigger] self.connections@.contains_key(c) && self.connections@[c] == Some(session_id)
                implies r@.contains(c) by {
                assert(ids@.to_set().contains(c));
                let j = choose|j: int| 0 <= j < ids@.len() && ids@[j] == c;
            }
        }
        r
    }

    /// The connections to send a game's state to: those whose bound session
    /// is in that game.
    pub fn broadcast_targets(&self, sessions: &SessionManager, game_id: u128) -> (r: Vec<(u128, u128)>)
        ensures
            forall|i: int| 0 <= i < r@.len() ==> {
                let (c, s) = #[trigger] r@[i];
                &&& self.connections@.contains_key(c)
                &&& self.connections@[c] == Some(s)
                &&& sessions.sessions@.contains_key(s)
                &&& sessions.sessions@[s].game_id == Some(game_id)
            },
            forall|c: u128| #[trigger] self.connections@.contains_key(c) && (self.connections@[c] matches Some(s)
                && sessions.sessions@.contains_key(s) && sessions.sessions@[s].game_id == Some(game_id))
                ==> exists|i: int| 0 <= i < r@.len() && r@[i].0 == c,
    {
        let ids = self.get_connections();
        let mut r: Vec<(u128, u128)> = Vec::new();
        let mut i: usize = 0;
        while i < ids.len()
            invariant
                ids@.to_set() == self.connections@.dom(),
                i <= ids@.len(),
                forall|k: int| 0 <= k < r@.len() ==> {
                    let (c, s) = #[trigger] r@[k];
                    &&& self.connections@.contains_key(c)
                    &&& self.connections@[c] == Some(s)
                    &&& sessions.sessions@.contains_key(s)
                    &&& sessions.sessions@[s].game_id == Some(game_id)
                },
                forall|j: int| 0 <= j < i && (self.connections@[#[trigger] ids@[j]] matches Some(s)
                    && sessions.sessions@.contains_key(s) && sessions.sessions@[s].game_id == Some(game_id))
                    ==> exists|k: int| 0 <= k < r@.len() && r@[k].0 == ids@[j],
            decreases ids@.len() - i,
        {
            let c = ids[i];
            assert(ids@.to_set().contains(c));
            let ghost prev = r@;
            match self.connections.get(&c) {
                Some(Some(sid)) => match sessions.sessions.get(sid) {
                    Some(sess) => {
                        if sess.game_id == Some(game_id) {
                            r.push((c, *sid));
                        }
                    },
                    None => {},
                },
                _ => {},
            }
            proof {
                assert forall|j: int| 0 <= j < i + 1 && (self.connections@[#[trigger] ids@[j]] matches Some(s)
                    && sessions.sessions@.contains_key(s) && sessions.sessions@[s].game_id == Some(game_id))
                    implies exists|k: int| 0 <= k < r@.len() && r@[k].0 == ids@[j] by {
                    if j < i {
                        let k = choose|k: int| 0 <= k < prev.len() && prev[k].0 == ids@[j];
                        assert(r@[k] == prev[k]);
                    } else {
                        assert(r@[r@.len() - 1].0 == c);
                    }
                }
            }
            i = i + 1;
        }
        proof {
            assert forall|c: u128| #[trigger] self.connections@.contains_key(c) && (self.connections@[c] matches Some(s)
                && sessions.sessions@.contains_key(s) && sessions.sessions@[s].game_id == Some(game_id))
                implies exists|i: int| 0 <= i < r@.len() && r@[i].0 == c by {
                assert(ids@.to_set().contains(c));
                let j = choose|j: int| 0 <= j < ids@.len() && ids@[j] == c;
            }
        }
        r
    }
}

/// What routing a request of the live session `sid` does: a failure changes
/// no table; a reply that names a game to broadcast names the session's game,
/// in the state that the request asked for; and each request succeeds on
/// exactly the states the game operations allow.
pub open spec fn routed(
    before: SessionManager,
    after: SessionManager,
    sid: u128,
    request: Request,
    now: u64,
    out: Outcome,
) -> bool {
    &&& out is Failure ==> after.same_tables(&before)
    &&& out matches Outcome::Reply { broadcast: Some(g), .. } ==> after.game_manager.games@.contains_key(g)
    &&& match out {
        Outcome::Reply { kind, broadcast: Some(g), .. } => {
            &&& kind == MessageType::StartGame ==> after.game_manager.games@[g].state == GameState::Running
            &&& kind == MessageType::PauseGame ==> after.game_manager.games@[g].state == GameState::Paused
            &&& kind == MessageType::ResumeGame ==> after.game_manager.games@[g].state == GameState::Running
            &&& kind == MessageType::FinishGame ==> after.game_manager.games@[g].state == GameState::Finished
            &&& kind != MessageType::LeaveGame ==> (after.sessions@.contains_key(sid)
                && after.sessions@[sid].game_id == Some(g))
        },
        _ => true,
    }
    &&& before.sessions@.contains_key(sid) && !before.sessions@[sid].spec_is_expired(now) ==> {
        let sess = before.sessions@[sid];
        let games = before.game_manager.games@;
        &&& match request {
            Request::CreateGame { .. } => out is NeedFloor,
            Request::JoinGame { game_id } => match out {
                Outcome::Reply { kind, body, broadcast, .. } => kind == MessageType::JoinGame
                    && body == ReplyBody::Game(game_id) && broadcast == Some(game_id)
                    && joined(before, after, sid, game_id, now, Ok(())),
                Outcome::Failure { error, .. } => joined(before, after, sid, game_id, now, Err(error)),
                _ => false,
            },
            _ => true,
        }
        &&& match sess.game_id {
            Some(g) => games.contains_key(g) ==> {
                let gm = games[g];
                match request {
                    Request::StartGame => match out {
                        Outcome::Reply { kind, broadcast, .. } => kind == MessageType::StartGame && broadcast == Some(g)
                            && gm.spec_can_start() && after.sessions@ == before.sessions@
                            && after.game_manager.games@ == games.insert(g, Game { state: GameState::Running, started_at: Some(now), ..gm }),
                        Outcome::Failure { error, .. } => error == ServerError::InvalidState && !gm.spec_can_start()
                            && after.same_tables(&before),
                        _ => false,
                    },
                    Request::PauseGame => match out {
                        Outcome::Reply { kind, broadcast, .. } => kind == MessageType::PauseGame && broadcast == Some(g)
                            && gm.spec_can_pause() && after.sessions@ == before.sessions@
                            && after.game_manager.games@ == games.insert(g, Game { state: GameState::Paused, ..gm }),
                        Outcome::Failure { error, .. } => error == ServerError::InvalidState && !gm.spec_can_pause()
                            && after.same_tables(&before),
                        _ => false,
                    },
                    Request::ResumeGame => match out {
                        Outcome::Reply { kind, broadcast, .. } => kind == MessageType::ResumeGame && broadcast == Some(g)
                            && gm.spec_can_resume() && after.sessions@ == before.sessions@
                            && after.game_manager.games@ == games.insert(g, Game { state: GameState::Running, ..gm }),
                        Outcome::Failure { error, .. } => error == ServerError::InvalidState && !gm.spec_can_resume()
                            && after.same_tables(&before),
                        _ => false,
                    },
                    Request::FinishGame => match out {
                        Outcome::Reply { kind, broadcast, .. } => kind == MessageType::FinishGame && broadcast == Some(g)
                            && gm.spec_can_finish() && after.sessions@ == before.sessions@
                            && after.game_manager.games@ == games.insert(g, Game { state: GameState::Finished, finished_at: Some(now), winner_id: None, ..gm }),
                        Outcome::Failure { error, .. } => error == ServerError::InvalidState && !gm.spec_can_finish()
                            && after.same_tables(&before),
                        _ => false,
                    },
                    Request::LeaveGame => match out {
                        Outcome::Reply { kind, broadcast, .. } => kind == MessageType::LeaveGame && broadcast == Some(g)
                            && after.sessions@ == before.sessions@.insert(sid, Session {
                                game_id: None,
                                last_activity: now,
                                user: User { last_activity: now, ..sess.user },
                                ..sess
                            })
                            && left_game(games, after.game_manager.games@, Some(g), sess.user.id),
                        _ => false,
                    },
                    Request::SpawnBlock => gm.state == GameState::Running && gm.has_player(sess.user.id)
                        ==> (out matches Outcome::NeedPiece { game_id, player_id, .. } && game_id == g
                        && player_id == sess.user.id),
                    Request::MoveBlock => gm.state == GameState::Running && gm.current_block_id is Some
                        ==> (out matches Outcome::NeedTransform { game_id, block_id, .. } && game_id == g
                        && gm.current_block_id == Some(block_id)),
                    Request::RotateBlock => gm.state == GameState::Running && gm.current_block_id is Some
                        ==> (out matches Outcome::NeedTransform { game_id, block_id, .. } && game_id == g
                        && gm.current_block_id == Some(block_id)),
                    Request::CastSpell { spell_id, target_id } => gm.state == GameState::Running ==> match out {
                        Outcome::Reply { .. } => spell_cast(gm, after.game_manager.games@[g], sess.user.id,
                            spell_id@, target_id, now, Ok(())),
                        Outcome::Failure { error, .. } => spell_cast(gm, after.game_manager.games@[g],
                            sess.user.id, spell_id@, target_id, now, Err(error)),
                        _ => false,
                    },
                    _ => true,
                }
            },
            None => (request is StartGame || request is PauseGame || request is ResumeGame || request is FinishGame
                || request is LeaveGame || request is SpawnBlock || request is MoveBlock || request is RotateBlock
                || request is CastSpell) ==> (out matches Outcome::Failure { error, .. } && error
                == ServerError::InvalidState),
        }
    }
}

/// The live session and the game it is in.
pub fn session_game(sessions: &SessionManager, session_id: u128, now: u64) -> (r: Result<(u128, u128), ServerError>)
    ensures
        match r {
            Ok((game_id, user_id)) => sessions.sessions@.contains_key(session_id)
                && !sessions.sessions@[session_id].spec_is_expired(now)
                && sessions.sessions@[session_id].game_id == Some(game_id)
                && sessions.sessions@[session_id].user.id == user_id,
            Err(e) => {
                ||| e == ServerError::NotFound && (!sessions.sessions@.contains_key(session_id)
                    || sessions.sessions@[session_id].spec_is_expired(now))
                ||| e == ServerError::InvalidState && sessions.sessions@.contains_key(session_id)
                    && !sessions.sessions@[session_id].spec_is_expired(now)
                    && sessions.sessions@[session_id].game_id is None
            },
        },
{
    let s = match sessions.get_session(session_id, now) {
        Ok(s) => s,
        Err(e) => return Err(e),
    };
    match s.game_id {
        Some(g) => Ok((g, s.user.id)),
        None => Err(ServerError::InvalidState),
    }
}

/// Which routing helper handles a request other than `Auth` and `Ping`.
fn request_kind(request: &Request) -> (k: u8)
    ensures
        k == 0 <==> request is CreateGame,
        k == 1 <==> request is JoinGame,
        k == 2 <==> (request is StartGame || request is PauseGame || request is ResumeGame || request is FinishGame
            || request is LeaveGame),
        k == 3 <==> request is SpawnBlock,
        k == 4 <==> (request is MoveBlock || request is RotateBlock),
        k == 5 <==> (request is CastSpell || request is Auth || request is Ping),
{
    match request {
        Request::CreateGame { .. } => 0,
        Request::JoinGame { .. } => 1,
        Request::StartGame | Request::PauseGame | Request::ResumeGame | Request::FinishGame | Request::LeaveGame => 2,
        Request::SpawnBlock => 3,
        Request::MoveBlock | Request::RotateBlock => 4,
        _ => 5,
    }
}

fn route_create(sessions: &mut SessionManager, sid: u128, request: Request, now: u64) -> (out: Outcome)
    requires
        old(sessions).wf(),
        request is CreateGame,
    ensures
        final(sessions).wf(),
        routed(*old(sessions), *final(sessions), sid, request, now, out),
{
    match request {
        Request::CreateGame { game_name, game_type, difficulty } => match sessions.get_session(sid, now) {
            Ok(_) => Outcome::NeedFloor { session_id: sid, game_name, game_type, difficulty },
            Err(e) => Outcome::Failure { error: e, session_id: Some(sid) },
        },
        _ => Outcome::Failure { error: ServerError::ProtocolError, session_id: Some(sid) },
    }
}

fn route_join(sessions: &mut SessionManager, sid: u128, request: Request, now: u64) -> (out: Outcome)
    requires
        old(sessions).wf(),
        request is JoinGame,
    ensures
        final(sessions).wf(),
        routed(*old(sessions), *final(sessions), sid, request, now, out),
{
    let game_id = match request {
        Request::JoinGame { game_id } => game_id,
        _ => return Outcome::Failure { error: ServerError::ProtocolError, session_id: Some(sid) },
    };
    if let Err(e) = sessions.get_session(sid, now) {
        return Outcome::Failure { error: e, session_id: Some(sid) };
    }
    match sessions.join_game(sid, game_id, now) {
        Ok(()) => Outcome::Reply {
            kind: MessageType::JoinGame,
            session_id: Some(sid),
            body: ReplyBody::Game(game_id),
            broadcast: Some(game_id),
        },
        Err(e) => Outcome::Failure { error: e, session_id: Some(sid) },
    }
}

fn route_lifecycle(sessions: &mut SessionManager, sid: u128, request: Request, now: u64) -> (out: Outcome)
    requires
        old(sessions).wf(),
        request is StartGame || request is PauseGame || request is ResumeGame || request is FinishGame
            || request is LeaveGame,
    ensures
        final(sessions).wf(),
        routed(*old(sessions), *final(sessions), sid, request, now, out),
{
    let (g, _user) = match session_game(sessions, sid, now) {
        Ok(p) => p,
        Err(e) => return Outcome::Failure { error: e, session_id: Some(sid) },
    };
    let (kind, r) = match request {
        Request::StartGame => (MessageType::StartGame, sessions.game_manager.start_game(g, now)),
        Request::PauseGame => (MessageType::PauseGame, sessions.game_manager.pause_game(g)),
        Request::ResumeGame => (MessageType::ResumeGame, sessions.game_manager.resume_game(g)),
        Request::FinishGame => (MessageType::FinishGame, sessions.game_manager.finish_game(g, None, now)),
        _ => {
            let _ = sessions.leave_game(sid, now);
            let broadcast = if sessions.game_manager.games.contains_key(&g) {
                Some(g)
            } else {
                None
            };
            return Outcome::Reply { kind: MessageType::LeaveGame, session_id: Some(sid), body: ReplyBody::Empty, broadcast };
        },
    };
    match r {
        Ok(()) => Outcome::Reply { kind, session_id: Some(sid), body: ReplyBody::Empty, broadcast: Some(g) },
        Err(e) => Outcome::Failure { error: e, session_id: Some(sid) },
    }
}

fn route_spawn(sessions: &mut SessionManager, sid: u128, request: Request, now: u64) -> (out: Outcome)
    requires
        old(sessions).wf(),
        request is SpawnBlock,
    ensures
        final(sessions).wf(),
        routed(*old(sessions), *final(sessions), sid, request, now, out),
{
    let (g, user) = match session_game(sessions, sid, now) {
        Ok(p) => p,
        Err(e) => return Outcome::Failure { error: e, session_id: Some(sid) },
    };
    match sessions.game_manager.begin_spawn(g, user) {
        Ok(shape) => {
            let field_height = sessions.game_manager.games.get(&g).unwrap().field_height;
            Outcome::NeedPiece { session_id: sid, game_id: g, player_id: user, shape, field_height }
        },
        Err(e) => Outcome::Failure { error: e, session_id: Some(sid) },
    }
}

fn route_transform(sessions: &mut SessionManager, sid: u128, request: Request, now: u64) -> (out: Outcome)
    requires
        old(sessions).wf(),
        request is MoveBlock || request is RotateBlock,
    ensures
        final(sessions).wf(),
        routed(*old(sessions), *final(sessions), sid, request, now, out),
{
    let kind = match request {
        Request::MoveBlock => MessageType::MoveBlock,
        _ => MessageType::RotateBlock,
    };
    let (g, _user) = match session_game(sessions, sid, now) {
        Ok(p) => p,
        Err(e) => return Outcome::Failure { error: e, session_id: Some(sid) },
    };
    match sessions.game_manager.current_block(g) {
        Ok(block_id) => Outcome::NeedTransform { kind, session_id: sid, game_id: g, block_id },
        Err(e) => Outcome::Failure { error: e, session_id: Some(sid) },
    }
}

fn route_cast(sessions: &mut SessionManager, sid: u128, request: Request, now: u64) -> (out: Outcome)
    requires
        old(sessions).wf(),
        request is CastSpell || request is Auth || request is Ping,
    ensures
        final(sessions).wf(),
        request is CastSpell ==> routed(*old(sessions), *final(sessions), sid, request, now, out),
{
    let (spell_id, target_id) = match request {
        Request::CastSpell { spell_id, target_id } => (spell_id, target_id),
        _ => return Outcome::Failure { error: ServerError::ProtocolError, session_id: Some(sid) },
    };
    let (g, user) = match session_game(sessions, sid, now) {
        Ok(p) => p,
        Err(e) => return Outcome::Failure { error: e, session_id: Some(sid) },
    };
    match sessions.game_manager.cast_spell(g, user, spell_id.as_str(), target_id, now) {
        Ok(()) => Outcome::Reply { kind: MessageType::CastSpell, session_id: Some(sid), body: ReplyBody::Empty, broadcast: Some(g) },
        Err(e) => Outcome::Failure { error: e, session_id: Some(sid) },
    }
}

impl WebSocketHandler {
    /// Routes one decoded request from a connection. Authentication and
    /// pings need no session; every other request needs the session bound
    /// to the connection. A request that fails changes nothing.
    pub fn handle_request(&mut self, sessions: &mut SessionManager, connection_id: u128, request: Request, now: u64) -> (out: Outcome)
        requires
            old(sessions).wf(),
        ensures
            final(sessions).wf(),
            final(self).connections@.dom() == old(self).connections@.dom(),
            out is Failure ==> final(sessions).same_tables(&*old(sessions)) && final(self).connections@ == old(self).connections@,
            !(request is Auth) ==> final(self).connections@ == old(self).connections@,
            !old(self).connections@.contains_key(connection_id) ==> (out matches Outcome::Failure { error, .. } && error == ServerError::NotFound),
            old(self).connections@.contains_key(connection_id) && request is Ping ==> {
                &&& out matches Outcome::Reply { kind, session_id, body, broadcast }
                    && kind == MessageType::Pong && session_id == old(self).connections@[connection_id]
                    && body == ReplyBody::Empty && broadcast is None
                &&& final(sessions).same_tables(&*old(sessions))
            },
            old(self).connections@.contains_key(connection_id) && old(self).connections@[connection_id] is None
                && !(request is Auth) && !(request is Ping)
                ==> (out matches Outcome::Failure { error, .. } && error == ServerError::Unauthorized),
            old(self).connections@.contains_key(connection_id) ==> match request {
                Request::Auth { user_name } => match out {
                    Outcome::Reply { kind, session_id, body, broadcast } => kind == MessageType::Auth && (session_id matches Some(id)
                        && body == ReplyBody::Session(id) && broadcast is None
                        && !old(sessions).sessions@.contains_key(id)
                        && final(sessions).sessions@ == old(sessions).sessions@.insert(id, final(sessions).sessions@[id])
                        && fresh_session(final(sessions).sessions@[id], user_name@, UserRole::Player, now,
                            old(sessions).config.session_ttl)
                        && final(sessions).game_manager == old(sessions).game_manager
                        && final(self).connections@ == old(self).connections@.insert(connection_id, Some(id))),
                    Outcome::Failure { error, .. } => error == ServerError::CapacityExceeded
                        && old(sessions).sessions@.len() >= old(sessions).config.max_sessions,
                    _ => false,
                },
                _ => true,
            },
            match old(self).connections@.get(connection_id) {
                Some(Some(sid)) => !(request is Auth) && !(request is Ping)
                    ==> routed(*old(sessions), *final(sessions), sid, request, now, out),
                _ => true,
            },
    {
        let bound = match self.connections.get(&connection_id) {
            Some(b) => *b,
            None => return Outcome::Failure { error: ServerError::NotFound, session_id: None },
        };
        match request {
            Request::Ping => {
                return Outcome::Reply { kind: MessageType::Pong, session_id: bound, body: ReplyBody::Empty, broadcast: None };
            },
            Request::Auth { user_name } => {
                return match sessions.create_session(user_name, UserRole::Player, now) {
                    Ok(id) => {
                        self.connections.insert(connection_id, Some(id));
                        Outcome::Reply { kind: MessageType::Auth, session_id: Some(id), body: ReplyBody::Session(id), broadcast: None }
                    },
                    Err(e) => Outcome::Failure { error: e, session_id: bound },
                };
            },
            _ => {},
        }
        let sid = match bound {
            Some(sid) => sid,
            None => return Outcome::Failure { error: ServerError::Unauthorized, session_id: None },
        };
        let kind = request_kind(&request);
        if kind == 0 {
            route_create(sessions, sid, request, now)
        } else if kind == 1 {
            route_join(sessions, sid, request, now)
        } else if kind == 2 {
            route_lifecycle(sessions, sid, request, now)
        } else if kind == 3 {
            route_spawn(sessions, sid, request, now)
        } else if kind == 4 {
            route_transform(sessions, sid, request, now)
        } else {
            route_cast(sessions, sid, request, now)
        }
    }

    /// Stores a game created for a session, once the physics engine has
    /// made its floor block.
    pub fn complete_create_game(
        &self,
        sessions: &mut SessionManager,
        session_id: u128,
        game_name: String,
        game_type: GameType,
        difficulty: DifficultyLevel,
        floor_block_id: i32,
        now: u64,
    ) -> (out: Outcome)
        requires
            old(sessions).wf(),
        ensures
            final(sessions).wf(),
            final(sessions).sessions@ == old(sessions).sessions@,
            final(sessions).game_manager.config == old(sessions).game_manager.config,
            match out {
                Outcome::Reply { kind, session_id: sid, body, broadcast } => kind == MessageType::CreateGame
                    && sid == Some(session_id) && broadcast is None && (body matches ReplyBody::Game(g)
                    && !old(sessions).game_manager.games@.contains_key(g)
                    && final(sessions).game_manager.games@ == old(sessions).game_manager.games@.insert(g,
                        final(sessions).game_manager.games@[g])
                    && fresh_game(final(sessions).game_manager.games@[g], g, game_name@, game_type, difficulty,
                        old(sessions).game_manager.config, floor_block_id, now)),
                Outcome::Failure { .. } => false,
                _ => false,
            },
    {
        match sessions.game_manager.create_game(game_name, game_type, difficulty, floor_block_id, now) {
            Ok(g) => Outcome::Reply {
                kind: MessageType::CreateGame,
                session_id: Some(session_id),
                body: ReplyBody::Game(g),
                broadcast: None,
            },
            Err(e) => Outcome::Failure { error: e, session_id: Some(session_id) },
        }
    }

    /// Records a piece that the physics engine made for a player.
    pub fn complete_spawn(
        &self,
        sessions: &mut SessionManager,
        session_id: u128,
        game_id: u128,
        player_id: u128,
        block_ids: &Vec<i32>,
    ) -> (out: Outcome)
        requires
            old(sessions).wf(),
        ensures
            final(sessions).wf(),
            final(sessions).sessions@ == old(sessions).sessions@,
            match out {
                Outcome::Reply { kind, session_id: sid, body, broadcast } => kind == MessageType::SpawnBlock
                    && sid == Some(session_id) && broadcast == Some(game_id) && (body matches ReplyBody::Block(b)
                    && spawn_finished(old(sessions).game_manager.games@, final(sessions).game_manager.games@, game_id,
                        player_id, block_ids@, Ok(b))),
                Outcome::Failure { error, session_id: sid } => sid == Some(session_id)
                    && spawn_finished(old(sessions).game_manager.games@, final(sessions).game_manager.games@, game_id,
                        player_id, block_ids@, Err(error)),
                _ => false,
            },
    {
        match sessions.game_manager.finish_spawn(game_id, player_id, block_ids) {
            Ok(b) => Outcome::Reply {
                kind: MessageType::SpawnBlock,
                session_id: Some(session_id),
                body: ReplyBody::Block(b),
                broadcast: Some(game_id),
            },
            Err(e) => Outcome::Failure { error: e, session_id: Some(session_id) },
        }
    }
}

} // verus!
