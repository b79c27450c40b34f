use tetris_towers::game::{
    ActiveSpell, BlockType, DifficultyLevel, Game, GameState, GameType, Player, Spell, SpellType,
};
use tetris_towers::game_manager::{collision_candidates, GameConfig, GameManager};
use tetris_towers::ServerError;

fn config(max_players: usize) -> GameConfig {
    let mut c = GameConfig::default_config();
    c.max_players = max_players;
    c
}

fn spell(id: &str, cost: u32, duration_secs: u64, spell_type: SpellType) -> Spell {
    Spell {
        id: id.to_string(),
        name: id.to_string(),
        spell_type,
        description: String::new(),
        duration_secs,
        cost,
    }
}

fn running_game_with_caster(score: u32) -> Game {
    let mut g = Game::new(1, "g".to_string(), GameType::Race, DifficultyLevel::Easy, 4, 20, 10, 0);
    g.add_player(Player::new(11, "alice".to_string())).unwrap();
    g.add_player(Player::new(12, "bob".to_string())).unwrap();
    g.start(5).unwrap();
    g.update_player_score(11, score).unwrap();
    g.players[0].available_spells.push(spell("freeze", 10, 3, SpellType::Dark));
    g
}

#[test]
fn race_tower_reaching_field_height_wins_on_next_tick() {
    let mut m = GameManager::new(config(2));
    let gid = m
        .create_game_with_id(100, "race".to_string(), GameType::Race, DifficultyLevel::Easy, 7, 0)
        .unwrap();
    assert_eq!(m.add_player_to_game(gid, 11, "alice".to_string()), Ok(11));
    assert_eq!(m.add_player_to_game(gid, 12, "bob".to_string()), Ok(12));
    assert_eq!(m.start_game(gid, 10), Ok(()));
    let height = m.get_game(gid).unwrap().field_height as u32;
    m.games.get_mut(&gid).unwrap().update_player_tower_height(11, height).unwrap();
    let finished = m.update_games(20);
    assert_eq!(finished, vec![gid]);
    let g = m.get_game(gid).unwrap();
    assert_eq!(g.state, GameState::Finished);
    assert_eq!(g.winner_id, Some(11));
    assert_eq!(g.finished_at, Some(20));
    // A finished game is left alone by later ticks.
    assert!(m.update_games(30).is_empty());
    assert_eq!(m.get_game(gid).unwrap().finished_at, Some(20));
}

#[test]
fn race_tie_goes_to_the_earliest_joined_player() {
    let mut g = Game::new(1, "g".to_string(), GameType::Race, DifficultyLevel::Hard, 4, 20, 10, 0);
    g.add_player(Player::new(5, "a".to_string())).unwrap();
    g.add_player(Player::new(3, "b".to_string())).unwrap();
    g.start(1).unwrap();
    g.update_player_tower_height(5, 25).unwrap();
    g.update_player_tower_height(3, 30).unwrap();
    assert_eq!(g.update(2), Some(5));
    assert_eq!(g.winner_id, Some(5));
}

#[test]
fn survival_last_standing_tower_wins() {
    let mut g = Game::new(1, "g".to_string(), GameType::Survival, DifficultyLevel::Medium, 4, 20, 10, 0);
    g.add_player(Player::new(1, "a".to_string())).unwrap();
    g.add_player(Player::new(2, "b".to_string())).unwrap();
    g.start(1).unwrap();
    assert_eq!(g.update(2), None);
    g.update_player_tower_height(2, 4).unwrap();
    assert_eq!(g.update(3), Some(2));
    assert_eq!(g.state, GameState::Finished);
}

#[test]
fn survival_needs_more_than_one_player_ever() {
    let mut g = Game::new(1, "g".to_string(), GameType::Survival, DifficultyLevel::Medium, 4, 20, 10, 0);
    g.add_player(Player::new(1, "a".to_string())).unwrap();
    g.start(1).unwrap();
    g.update_player_tower_height(1, 4).unwrap();
    assert_eq!(g.update(2), None);
    assert_eq!(g.state, GameState::Running);
}

#[test]
fn puzzle_never_finishes_on_its_own() {
    let mut g = Game::new(1, "g".to_string(), GameType::Puzzle, DifficultyLevel::Expert, 4, 20, 10, 0);
    g.add_player(Player::new(1, "a".to_string())).unwrap();
    g.start(1).unwrap();
    g.update_player_tower_height(1, 40).unwrap();
    assert_eq!(g.update(2), None);
    assert_eq!(g.state, GameState::Running);
}

#[test]
fn joining_beyond_the_limit_is_game_full_and_keeps_the_roster() {
    let mut m = GameManager::new(config(1));
    let gid = m
        .create_game_with_id(1, "g".to_string(), GameType::Race, DifficultyLevel::Easy, 7, 0)
        .unwrap();
    assert_eq!(m.add_player_to_game(gid, 11, "alice".to_string()), Ok(11));
    assert_eq!(m.add_player_to_game(gid, 12, "bob".to_string()), Err(ServerError::GameFull));
    let g = m.get_game(gid).unwrap();
    assert_eq!(g.players.len(), 1);
    assert_eq!(g.players[0].id, 11);
}

#[test]
fn lifecycle_of_a_fresh_game() {
    let mut m = GameManager::new(config(4));
    let gid = m
        .create_game_with_id(1, "g".to_string(), GameType::Race, DifficultyLevel::Easy, 7, 0)
        .unwrap();
    assert_eq!(m.pause_game(gid), Err(ServerError::InvalidState));
    assert_eq!(m.resume_game(gid), Err(ServerError::InvalidState));
    assert_eq!(m.finish_game(gid, None, 1), Err(ServerError::InvalidState));
    // With nobody in it the game cannot start.
    assert_eq!(m.start_game(gid, 1), Err(ServerError::InvalidState));
    m.add_player_to_game(gid, 11, "alice".to_string()).unwrap();
    assert_eq!(m.start_game(gid, 2), Ok(()));
    assert_eq!(m.start_game(gid, 3), Err(ServerError::InvalidState));
    assert_eq!(m.resume_game(gid), Err(ServerError::InvalidState));
    assert_eq!(m.add_player_to_game(gid, 12, "bob".to_string()), Err(ServerError::InvalidState));
    assert_eq!(m.pause_game(gid), Ok(()));
    assert_eq!(m.pause_game(gid), Err(ServerError::InvalidState));
    assert_eq!(m.resume_game(gid), Ok(()));
    assert_eq!(m.finish_game(gid, Some(11), 4), Ok(()));
    assert_eq!(m.get_game(gid).unwrap().winner_id, Some(11));
    assert_eq!(m.start_game(gid, 5), Err(ServerError::InvalidState));
    assert_eq!(m.pause_game(gid), Err(ServerError::InvalidState));
    assert_eq!(m.resume_game(gid), Err(ServerError::InvalidState));
    assert_eq!(m.finish_game(gid, None, 5), Err(ServerError::InvalidState));
    assert_eq!(m.add_player_to_game(gid, 13, "carol".to_string()), Err(ServerError::InvalidState));
    assert_eq!(m.cast_spell(gid, 11, "freeze", None, 5), Err(ServerError::InvalidState));
    assert_eq!(m.begin_spawn(gid, 11), Err(ServerError::InvalidState));
    assert_eq!(m.current_block(gid), Err(ServerError::InvalidState));
}

#[test]
fn unknown_game_is_not_found() {
    let mut m = GameManager::new(config(4));
    assert_eq!(m.start_game(9, 0), Err(ServerError::NotFound));
    assert!(m.get_game(9).is_err());
    assert_eq!(m.delete_game(9), Err(ServerError::NotFound));
    assert_eq!(m.remove_player_from_game(9, 1), Err(ServerError::NotFound));
}

#[test]
fn insufficient_score_leaves_the_caster_untouched() {
    let mut g = running_game_with_caster(5);
    let r = g.cast_spell(11, "freeze", Some(12), 100);
    assert_eq!(r, Err(ServerError::InsufficientScore));
    let p = &g.players[0];
    assert_eq!(p.score, 5);
    assert_eq!(p.available_spells.len(), 1);
    assert_eq!(p.available_spells[0].id, "freeze");
    assert!(p.active_spells.is_empty());
}

#[test]
fn successful_cast_debits_exactly_the_cost() {
    let mut g = running_game_with_caster(25);
    assert_eq!(g.cast_spell(11, "freeze", Some(12), 1_000), Ok(()));
    let p = &g.players[0];
    assert_eq!(p.score, 15);
    assert!(p.available_spells.is_empty());
    assert_eq!(p.active_spells.len(), 1);
    assert_eq!(p.active_spells[0].spell.id, "freeze");
    assert_eq!(p.active_spells[0].expires_at, 4_000);
}

#[test]
fn cast_errors() {
    let mut g = running_game_with_caster(25);
    assert_eq!(g.cast_spell(99, "freeze", None, 0), Err(ServerError::NotFound));
    assert_eq!(g.cast_spell(11, "nothing", None, 0), Err(ServerError::NotFound));
    assert_eq!(g.cast_spell(11, "freeze", Some(11), 0), Err(ServerError::InvalidTarget));
    assert_eq!(g.cast_spell(11, "freeze", Some(77), 0), Err(ServerError::NotFound));
    assert_eq!(g.players[0].score, 25);
    assert_eq!(g.players[0].available_spells.len(), 1);
}

#[test]
fn spells_lapse_on_tick() {
    let mut g = running_game_with_caster(25);
    g.players[1].active_spells.push(ActiveSpell { spell: spell("a", 1, 1, SpellType::Light), expires_at: 50 });
    g.players[1].active_spells.push(ActiveSpell { spell: spell("b", 1, 1, SpellType::Light), expires_at: 10 });
    g.players[1].active_spells.push(ActiveSpell { spell: spell("c", 1, 1, SpellType::Light), expires_at: 51 });
    g.update(50);
    let ids: Vec<&str> = g.players[1].active_spells.iter().map(|a| a.spell.id.as_str()).collect();
    assert_eq!(ids, vec!["c"]);
}

#[test]
fn spawn_uses_the_queued_shape_and_records_blocks() {
    let mut m = GameManager::new(config(4));
    let gid = m
        .create_game_with_id(1, "g".to_string(), GameType::Race, DifficultyLevel::Easy, 7, 0)
        .unwrap();
    m.add_player_to_game(gid, 11, "alice".to_string()).unwrap();
    assert_eq!(m.begin_spawn_with(gid, 11, BlockType::T, BlockType::L), Err(ServerError::InvalidState));
    m.start_game(gid, 1).unwrap();
    assert_eq!(m.current_block(gid), Err(ServerError::NoCurrentBlock));
    assert_eq!(m.begin_spawn_with(gid, 11, BlockType::T, BlockType::L), Ok(BlockType::T));
    assert_eq!(m.begin_spawn_with(gid, 11, BlockType::O, BlockType::Z), Ok(BlockType::L));
    assert_eq!(m.begin_spawn_with(gid, 99, BlockType::O, BlockType::Z), Err(ServerError::NotFound));
    assert_eq!(m.finish_spawn(gid, 11, &vec![]), Err(ServerError::PhysicsFailure));
    assert_eq!(m.finish_spawn(gid, 11, &vec![40, 41, 42, 43]), Ok(40));
    assert_eq!(m.current_block(gid), Ok(40));
    let g = m.get_game(gid).unwrap();
    assert_eq!(g.players[0].block_ids, vec![40, 41, 42, 43]);
    assert_eq!(g.players[0].blocks_placed, 4);
    assert_eq!(m.begin_spawn(gid, 11).is_ok(), true);
}

#[test]
fn deleting_a_game_releases_all_its_blocks() {
    let mut m = GameManager::new(config(4));
    let gid = m
        .create_game_with_id(1, "g".to_string(), GameType::Race, DifficultyLevel::Easy, 7, 0)
        .unwrap();
    m.add_player_to_game(gid, 11, "alice".to_string()).unwrap();
    m.add_player_to_game(gid, 12, "bob".to_string()).unwrap();
    m.start_game(gid, 1).unwrap();
    m.finish_spawn(gid, 11, &vec![1, 2]).unwrap();
    m.finish_spawn(gid, 12, &vec![3]).unwrap();
    assert_eq!(m.delete_game(gid), Ok(vec![7, 1, 2, 3, 3]));
    assert!(m.get_game(gid).is_err());
}

#[test]
fn player_blocks_and_removal() {
    let mut g = Game::new(1, "g".to_string(), GameType::Race, DifficultyLevel::Easy, 4, 20, 10, 0);
    g.add_player(Player::new(1, "a".to_string())).unwrap();
    g.add_player_block(1, 9).unwrap();
    g.add_player_block(1, 8).unwrap();
    assert_eq!(g.remove_player_block(1, 9), Ok(()));
    assert_eq!(g.remove_player_block(1, 9), Err(ServerError::NotFound));
    assert_eq!(g.players[0].block_ids, vec![8]);
    assert_eq!(g.players[0].blocks_destroyed, 1);
    assert_eq!(g.remove_player(1), Ok(()));
    assert_eq!(g.remove_player(1), Err(ServerError::NotFound));
    assert!(g.get_player(1).is_none());
}

#[test]
fn removing_an_absent_player_from_a_game_is_no_error() {
    let mut m = GameManager::new(config(4));
    let gid = m
        .create_game_with_id(1, "g".to_string(), GameType::Race, DifficultyLevel::Easy, 7, 0)
        .unwrap();
    assert_eq!(m.remove_player_from_game(gid, 5), Ok(()));
    assert_eq!(m.create_game_with_id(1, "h".to_string(), GameType::Race, DifficultyLevel::Easy, 8, 0), Err(ServerError::Internal));
    let fresh = m.create_game("r".to_string(), GameType::Survival, DifficultyLevel::Hard, 9, 0).unwrap();
    assert_ne!(fresh, gid);
    let mut ids = m.game_ids();
    ids.sort();
    let mut expected = vec![gid, fresh];
    expected.sort();
    assert_eq!(ids, expected);
}

#[test]
fn listings_and_collision_candidates() {
    let mut m = GameManager::new(config(2));
    let a = m.create_game_with_id(1, "a".to_string(), GameType::Race, DifficultyLevel::Easy, 70, 0).unwrap();
    let b = m.create_game_with_id(2, "b".to_string(), GameType::Race, DifficultyLevel::Easy, 71, 0).unwrap();
    m.add_player_to_game(a, 11, "alice".to_string()).unwrap();
    m.add_player_to_game(a, 12, "bob".to_string()).unwrap();
    assert_eq!(m.get_available_games(), vec![b]);
    let mut all: Vec<u128> = m.get_all_games().iter().map(|g| g.id).collect();
    all.sort();
    assert_eq!(all, vec![a, b]);
    m.start_game(a, 1).unwrap();
    assert!(collision_candidates(m.get_game(a).unwrap()).is_none());
    m.finish_spawn(a, 11, &vec![5, 6]).unwrap();
    m.finish_spawn(a, 12, &vec![7]).unwrap();
    assert_eq!(collision_candidates(m.get_game(a).unwrap()), Some((7, vec![5, 6, 70])));
}

#[test]
fn default_settings() {
    let g = GameConfig::default();
    assert_eq!((g.max_players, g.field_height, g.field_width, g.update_interval_ms), (4, 20, 10, 16));
    let s = tetris_towers::session::SessionConfig::default();
    assert_eq!((s.session_ttl, s.max_sessions, s.inactivity_timeout), (3600, 1000, 300));
    let n = tetris_towers::network::NetworkConfig::default();
    assert_eq!((n.host.as_str(), n.port), ("127.0.0.1", 8080));
}
