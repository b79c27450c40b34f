use tetris_towers::game::GameState;
use tetris_towers::game_manager::{GameConfig, GameManager};
use tetris_towers::ids::uuid_string;
use tetris_towers::network::{
    decode_request, parse_request, DataField, FieldValue, MessageType, Outcome, ReplyBody, Request, WebSocketHandler,
};
use tetris_towers::session::{SessionConfig, SessionManager};
use tetris_towers::ServerError;

fn text(key: &str, value: &str) -> DataField {
    DataField { key: key.to_string(), value: FieldValue::Text(value.to_string()) }
}

fn number(key: &str) -> DataField {
    DataField { key: key.to_string(), value: FieldValue::Number }
}

fn setup() -> (WebSocketHandler, SessionManager) {
    let sm = SessionManager::new(SessionConfig::default_config(), GameManager::new(GameConfig::default_config()));
    (WebSocketHandler::new(), sm)
}

fn authed(h: &mut WebSocketHandler, sm: &mut SessionManager, conn: u128, name: &str) -> u128 {
    h.connect(conn);
    let req = parse_request("Auth", &vec![text("user_name", name)]).unwrap();
    match h.handle_request(sm, conn, req, 0) {
        Outcome::Reply { kind: MessageType::Auth, body: ReplyBody::Session(id), .. } => id,
        _ => panic!("authentication failed"),
    }
}

#[test]
fn unknown_message_type_then_ping() {
    let (mut h, mut sm) = setup();
    h.connect(1);
    assert!(matches!(parse_request("Teleport", &vec![]), Err(ServerError::ProtocolError)));
    assert!(matches!(parse_request("GameState", &vec![]), Err(ServerError::ProtocolError)));
    assert_eq!(h.connection_count(), 1);
    let ping = parse_request("Ping", &vec![]).unwrap();
    let out = h.handle_request(&mut sm, 1, ping, 0);
    assert!(matches!(out, Outcome::Reply { kind: MessageType::Pong, session_id: None, body: ReplyBody::Empty, broadcast: None }));
    assert_eq!(h.get_connections(), vec![1]);
}

#[test]
fn requests_without_a_session_are_unauthorized() {
    let (mut h, mut sm) = setup();
    h.connect(1);
    let out = h.handle_request(&mut sm, 1, Request::StartGame, 0);
    assert!(matches!(out, Outcome::Failure { error: ServerError::Unauthorized, .. }));
    let out = h.handle_request(&mut sm, 2, Request::Ping, 0);
    assert!(matches!(out, Outcome::Failure { error: ServerError::NotFound, .. }));
}

#[test]
fn missing_fields_are_protocol_errors() {
    assert!(matches!(decode_request(MessageType::Auth, &vec![]), Err(ServerError::ProtocolError)));
    assert!(matches!(decode_request(MessageType::Auth, &vec![number("user_name")]), Err(ServerError::ProtocolError)));
    let bad_type = vec![text("game_name", "g"), text("game_type", "chess"), text("difficulty", "easy")];
    assert!(matches!(decode_request(MessageType::CreateGame, &bad_type), Err(ServerError::ProtocolError)));
    let good = vec![text("game_name", "g"), text("game_type", "survival"), text("difficulty", "expert")];
    assert!(matches!(decode_request(MessageType::CreateGame, &good), Ok(Request::CreateGame { .. })));
    assert!(matches!(decode_request(MessageType::JoinGame, &vec![text("game_id", "nope")]), Err(ServerError::ProtocolError)));
    assert!(matches!(decode_request(MessageType::MoveBlock, &vec![number("direction_x")]), Err(ServerError::ProtocolError)));
    assert!(matches!(
        decode_request(MessageType::MoveBlock, &vec![number("direction_x"), number("direction_y")]),
        Ok(Request::MoveBlock)
    ));
    assert!(matches!(decode_request(MessageType::RotateBlock, &vec![number("angle_delta")]), Ok(Request::RotateBlock)));
    assert!(matches!(decode_request(MessageType::CastSpell, &vec![]), Err(ServerError::ProtocolError)));
    assert!(matches!(
        decode_request(MessageType::CastSpell, &vec![text("spell_id", "s"), text("target_id", "x")]),
        Err(ServerError::ProtocolError)
    ));
}

#[test]
fn a_whole_game_over_the_protocol() {
    let (mut h, mut sm) = setup();
    let s1 = authed(&mut h, &mut sm, 1, "alice");
    let s2 = authed(&mut h, &mut sm, 2, "bob");
    h.connect(3);
    let create = parse_request(
        "CreateGame",
        &vec![text("game_name", "g"), text("game_type", "race"), text("difficulty", "easy")],
    )
    .unwrap();
    let gid = match h.handle_request(&mut sm, 1, create, 0) {
        Outcome::NeedFloor { session_id, game_name, game_type, difficulty } => {
            assert_eq!(session_id, s1);
            match h.complete_create_game(&mut sm, session_id, game_name, game_type, difficulty, 77, 0) {
                Outcome::Reply { kind: MessageType::CreateGame, body: ReplyBody::Game(g), .. } => g,
                _ => panic!("game not created"),
            }
        },
        _ => panic!("expected a floor request"),
    };
    let id_text = uuid_string(gid);
    for conn in [1u128, 2] {
        let join = parse_request("JoinGame", &vec![text("game_id", &id_text)]).unwrap();
        let out = h.handle_request(&mut sm, conn, join, 1);
        assert!(matches!(out, Outcome::Reply { kind: MessageType::JoinGame, broadcast: Some(g), .. } if g == gid));
    }
    let mut targets: Vec<(u128, u128)> = h.broadcast_targets(&sm, gid);
    targets.sort();
    assert_eq!(targets, vec![(1, s1), (2, s2)]);
    let out = h.handle_request(&mut sm, 1, Request::StartGame, 2);
    assert!(matches!(out, Outcome::Reply { kind: MessageType::StartGame, .. }));
    assert_eq!(sm.game_manager().get_game(gid).unwrap().state, GameState::Running);
    let out = h.handle_request(&mut sm, 2, Request::MoveBlock, 3);
    assert!(matches!(out, Outcome::Failure { error: ServerError::NoCurrentBlock, .. }));
    match h.handle_request(&mut sm, 2, Request::SpawnBlock, 3) {
        Outcome::NeedPiece { session_id, game_id, player_id, .. } => {
            let out = h.complete_spawn(&mut sm, session_id, game_id, player_id, &vec![5, 6, 7, 8]);
            assert!(matches!(out, Outcome::Reply { kind: MessageType::SpawnBlock, body: ReplyBody::Block(5), .. }));
        },
        _ => panic!("expected a piece request"),
    }
    let out = h.handle_request(&mut sm, 1, Request::RotateBlock, 4);
    assert!(matches!(out, Outcome::NeedTransform { kind: MessageType::RotateBlock, block_id: 5, .. }));
    let out = h.handle_request(&mut sm, 1, Request::CastSpell { spell_id: "none".to_string(), target_id: None }, 4);
    assert!(matches!(out, Outcome::Failure { error: ServerError::NotFound, .. }));
    let out = h.handle_request(&mut sm, 1, Request::PauseGame, 5);
    assert!(matches!(out, Outcome::Reply { kind: MessageType::PauseGame, .. }));
    let out = h.handle_request(&mut sm, 1, Request::ResumeGame, 6);
    assert!(matches!(out, Outcome::Reply { kind: MessageType::ResumeGame, .. }));
    let out = h.handle_request(&mut sm, 2, Request::LeaveGame, 7);
    assert!(matches!(out, Outcome::Reply { kind: MessageType::LeaveGame, broadcast: Some(_), .. }));
    assert_eq!(h.broadcast_targets(&sm, gid), vec![(1, s1)]);
    let out = h.handle_request(&mut sm, 3, Request::LeaveGame, 7);
    assert!(matches!(out, Outcome::Failure { error: ServerError::Unauthorized, .. }));
    let out = h.handle_request(&mut sm, 1, Request::FinishGame, 8);
    assert!(matches!(out, Outcome::Reply { kind: MessageType::FinishGame, .. }));
    assert_eq!(sm.game_manager().get_game(gid).unwrap().state, GameState::Finished);
    h.disconnect(&mut sm, 2, 9);
    assert_eq!(h.connection_count(), 2);
    assert_eq!(sm.sessions.get(&s2).unwrap().last_activity, 9);
}

#[test]
fn message_type_names_round_trip() {
    for t in [MessageType::Auth, MessageType::CastSpell, MessageType::Pong, MessageType::ChatMessage] {
        assert_eq!(MessageType::from_name(t.name()), Some(t));
    }
    assert_eq!(MessageType::from_name("auth"), None);
}

#[test]
fn game_state_snapshot_survives_a_json_round_trip() {
    let (mut h, mut sm) = setup();
    let _s1 = authed(&mut h, &mut sm, 1, "alice");
    let gid = sm.game_manager.create_game_with_id(9, "g".to_string(), tetris_towers::game::GameType::Race,
        tetris_towers::game::DifficultyLevel::Easy, 1, 0).unwrap();
    sm.game_manager.add_player_to_game(gid, 41, "p".to_string()).unwrap();
    sm.game_manager.add_player_to_game(gid, 42, "q".to_string()).unwrap();
    sm.game_manager.games.get_mut(&gid).unwrap().update_player_score(42, 17).unwrap();
    let g = sm.game_manager().get_game(gid).unwrap();
    let mut players = Vec::new();
    for p in &g.players {
        let mut obj = serde_json::Map::new();
        obj.insert("id".to_string(), serde_json::Value::String(uuid_string(p.id)));
        obj.insert("score".to_string(), serde_json::Value::from(p.score));
        players.push(serde_json::Value::Object(obj));
    }
    let mut snapshot = serde_json::Map::new();
    snapshot.insert("state".to_string(), serde_json::Value::String(format!("{:?}", g.state)));
    snapshot.insert("players".to_string(), serde_json::Value::Array(players));
    let wire = serde_json::to_string(&serde_json::Value::Object(snapshot)).unwrap();
    let back: serde_json::Value = serde_json::from_str(&wire).unwrap();
    assert_eq!(back["state"].as_str(), Some("Waiting"));
    let parsed: Vec<(u128, u64)> = back["players"]
        .as_array()
        .unwrap()
        .iter()
        .map(|p| (tetris_towers::ids::parse_uuid(p["id"].as_str().unwrap()).unwrap(), p["score"].as_u64().unwrap()))
        .collect();
    assert_eq!(parsed, vec![(41, 0), (42, 17)]);
}

#[test]
fn connections_of_a_session() {
    let (mut h, mut sm) = setup();
    let s = authed(&mut h, &mut sm, 1, "alice");
    h.connect(2);
    assert_eq!(h.connections_of_session(s), vec![1]);
    assert!(h.connections_of_session(s + 1).is_empty());
}
