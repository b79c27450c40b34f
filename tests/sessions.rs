use tetris_towers::game::{DifficultyLevel, GameType};
use tetris_towers::game_manager::{GameConfig, GameManager};
use tetris_towers::session::{SessionConfig, SessionManager, UserRole};
use tetris_towers::ServerError;

fn manager(max_players: usize) -> SessionManager {
    let mut gc = GameConfig::default_config();
    gc.max_players = max_players;
    SessionManager::new(SessionConfig::default_config(), GameManager::new(gc))
}

fn new_game(sm: &mut SessionManager, id: u128) -> u128 {
    sm.game_manager.create_game_with_id(id, "g".to_string(), GameType::Race, DifficultyLevel::Easy, 1, 0).unwrap()
}

#[test]
fn second_join_beyond_the_limit_is_game_full() {
    let mut sm = manager(1);
    let gid = new_game(&mut sm, 500);
    let a = sm.create_session("a".to_string(), UserRole::Player, 0).unwrap();
    let b = sm.create_session("b".to_string(), UserRole::Player, 0).unwrap();
    assert_eq!(sm.join_game(a, gid, 1), Ok(()));
    assert_eq!(sm.join_game(b, gid, 2), Err(ServerError::GameFull));
    assert_eq!(sm.game_manager().get_game(gid).unwrap().players.len(), 1);
    assert_eq!(sm.get_session(b, 2).unwrap().game_id, None);
}

#[test]
fn switching_games_leaves_the_first() {
    let mut sm = manager(4);
    let a = new_game(&mut sm, 1);
    let b = new_game(&mut sm, 2);
    let s = sm.create_session("s".to_string(), UserRole::Player, 0).unwrap();
    let user = sm.get_session(s, 0).unwrap().user.id;
    assert_eq!(sm.join_game(s, a, 1), Ok(()));
    assert!(sm.game_manager().get_game(a).unwrap().get_player(user).is_some());
    assert_eq!(sm.join_game(s, b, 2), Ok(()));
    assert_eq!(sm.get_session(s, 2).unwrap().game_id, Some(b));
    assert!(sm.game_manager().get_game(a).unwrap().get_player(user).is_none());
    assert!(sm.game_manager().get_game(b).unwrap().get_player(user).is_some());
    // Joining the game one is already in changes nothing.
    assert_eq!(sm.join_game(s, b, 3), Ok(()));
    assert_eq!(sm.game_manager().get_game(b).unwrap().players.len(), 1);
}

#[test]
fn leaving_and_deleting() {
    let mut sm = manager(4);
    let g = new_game(&mut sm, 1);
    let s = sm.create_session("s".to_string(), UserRole::Guest, 0).unwrap();
    let user = sm.get_session(s, 0).unwrap().user.id;
    sm.join_game(s, g, 1).unwrap();
    assert_eq!(sm.leave_game(s, 2), Ok(()));
    assert_eq!(sm.get_session(s, 2).unwrap().game_id, None);
    assert!(sm.game_manager().get_game(g).unwrap().get_player(user).is_none());
    sm.join_game(s, g, 3).unwrap();
    // The game disappearing is tolerated.
    sm.game_manager.delete_game(g).unwrap();
    assert_eq!(sm.leave_game(s, 4), Ok(()));
    assert_eq!(sm.delete_session(s), Ok(()));
    assert_eq!(sm.delete_session(s), Err(ServerError::NotFound));
    assert_eq!(sm.leave_game(s, 5), Err(ServerError::NotFound));
}

#[test]
fn session_limit_is_capacity_exceeded() {
    let mut cfg = SessionConfig::default_config();
    cfg.max_sessions = 1;
    let mut sm = SessionManager::new(cfg, GameManager::new(GameConfig::default_config()));
    sm.create_session("a".to_string(), UserRole::Player, 0).unwrap();
    assert_eq!(sm.create_session("b".to_string(), UserRole::Player, 0), Err(ServerError::CapacityExceeded));
}

#[test]
fn expired_sessions_are_reaped_and_leave_their_game() {
    let mut sm = manager(4);
    let g = new_game(&mut sm, 1);
    let old = sm.create_session_with_ids(10, 20, "old".to_string(), UserRole::Player, 0).unwrap();
    sm.join_game(old, g, 0).unwrap();
    let ttl_ms = 3600 * 1000;
    let young = sm.create_session_with_ids(11, 21, "young".to_string(), UserRole::Player, ttl_ms).unwrap();
    let now = ttl_ms + 1;
    assert!(sm.get_session(old, now).is_err());
    assert!(sm.get_session(young, now).is_ok());
    let removed = sm.cleanup_expired(now);
    assert_eq!(removed, vec![old]);
    let active: Vec<u128> = sm.get_active_sessions(now).iter().map(|s| s.id).collect();
    assert_eq!(active, vec![young]);
    assert_eq!(sm.get_all_sessions().len(), 1);
    assert!(sm.game_manager().get_game(g).unwrap().get_player(20).is_none());
}

#[test]
fn inactivity_brings_expiry_forward() {
    let mut sm = manager(4);
    let s = sm.create_session_with_ids(10, 20, "idle".to_string(), UserRole::Player, 0).unwrap();
    let busy = sm.create_session_with_ids(11, 21, "busy".to_string(), UserRole::Player, 0).unwrap();
    sm.update_session_activity(busy, 299_000).unwrap();
    sm.expire_inactive(300_000);
    assert_eq!(sm.sessions.get(&s).unwrap().expires_at, 300_000);
    assert_eq!(sm.sessions.get(&busy).unwrap().expires_at, 3_600_000);
    assert_eq!(sm.cleanup_expired(300_001), vec![s]);
}

#[test]
fn extend_and_activity() {
    let mut sm = manager(4);
    let s = sm.create_session_with_ids(10, 20, "x".to_string(), UserRole::Admin, 0).unwrap();
    assert_eq!(sm.extend_session(s, 1_000), Ok(()));
    assert_eq!(sm.sessions.get(&s).unwrap().expires_at, 3_601_000);
    assert_eq!(sm.sessions.get(&s).unwrap().user.last_activity, 1_000);
    assert_eq!(sm.extend_session(99, 0), Err(ServerError::NotFound));
    assert_eq!(sm.update_session_activity(99, 0), Err(ServerError::NotFound));
    let sess = sm.get_session(s, 2_000).unwrap();
    assert!(sess.is_active(300, 2_000));
    assert!(!sess.is_active(300, 302_000));
    assert!(!sess.is_expired(3_601_000));
    assert!(sess.is_expired(3_601_001));
}

#[test]
fn new_session_fields() {
    let mut sm = manager(4);
    let s = sm.create_session("x".to_string(), UserRole::Spectator, 5_000).unwrap();
    let sess = sm.get_session(s, 5_000).unwrap();
    assert_eq!(sess.user.role, UserRole::Spectator);
    assert_eq!(sess.created_at, 5_000);
    assert_eq!(sess.last_activity, 5_000);
    assert_eq!(sess.expires_at, 5_000 + 3_600_000);
    assert_eq!(sess.game_id, None);
}
