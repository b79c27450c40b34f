//! The table of games and the operations that clients and the tick drive on it.
use std::collections::HashMap;
use vstd::prelude::*;
use vstd::std_specs::iter::IteratorSpec;
use crate::error::ServerError;
use crate::game::{spell_cast, ticked, BlockType, DifficultyLevel, Game, GameState, GameType, Player};
use crate::ids::{fresh_id, random_uuid};
use crate::random::random_below;

verus! {

broadcast use vstd::std_specs::hash::group_hash_axioms;

/// Settings of the game manager.
pub struct GameConfig {
    pub max_players: usize,
    pub field_height: usize,
    pub field_width: usize,
    /// Period of the tick, in milliseconds.
    pub update_interval_ms: u64,
    pub debug_mode: bool,
    pub resources_path: String,
}

impl GameConfig {
    /// Four players on a field twenty cells high and ten wide, ticking every 16 ms.
    pub fn default_config() -> (c: GameConfig)
        ensures
            c.max_players == 4,
            c.field_height == 20,
            c.field_width == 10,
            c.update_interval_ms == 16,
            !c.debug_mode,
    {
        GameConfig {
            max_players: 4,
            field_height: 20,
            field_width: 10,
            update_interval_ms: 16,
            debug_mode: false,
            resources_path: String::from_str("resources"),
        }
    }
}

impl Default for GameConfig {
    fn default() -> (c: GameConfig)
        ensures
            c.max_players == 4,
            c.field_height == 20,
            c.field_width == 10,
            c.update_interval_ms == 16,
            !c.debug_mode,
    {
        GameConfig::default_config()
    }
}

/// The shape at a position of the fixed list of the seven tetrominoes.
pub open spec fn shape_at(i: int) -> BlockType {
    if i == 0 {
        BlockType::I
    } else if i == 1 {
        BlockType::J
    } else if i == 2 {
        BlockType::L
    } else if i == 3 {
        BlockType::O
    } else if i == 4 {
        BlockType::S
    } else if i == 5 {
        BlockType::T
    } else {
        BlockType::Z
    }
}

/// The tetromino at position `i` of `I, J, L, O, S, T, Z`.
pub fn shape_from_index(i: usize) -> (b: BlockType)
    requires
        i < 7,
    ensures
        b == shape_at(i as int),
{
    if i == 0 {
        BlockType::I
    } else if i == 1 {
        BlockType::J
    } else if i == 2 {
        BlockType::L
    } else if i == 3 {
        BlockType::O
    } else if i == 4 {
        BlockType::S
    } else if i == 5 {
        BlockType::T
    } else {
        BlockType::Z
    }
}

/// A tetromino drawn uniformly at random.
pub fn random_shape() -> BlockType {
    let i = random_below(7);
    shape_from_index(i)
}

/// Every block of the players of a roster, player by player.
pub open spec fn player_blocks(players: Seq<Player>) -> Seq<i32>
    decreases players.len(),
{
    if players.len() == 0 {
        Seq::empty()
    } else {
        player_blocks(players.drop_last()) + players.last().block_ids@
    }
}

/// Every physics block that a game owns: its floor, its players' blocks and
/// the block being placed.
pub open spec fn owned_blocks(g: Game) -> Seq<i32> {
    g.floor_block_ids@ + player_blocks(g.players@) + match g.current_block_id {
        Some(b) => seq![b],
        None => Seq::empty(),
    }
}

/// Appends `ids` to `out`.
fn append_ids(out: &mut Vec<i32>, ids: &Vec<i32>)
    ensures
        final(out)@ == old(out)@ + ids@,
{
    let mut i: usize = 0;
    while i < ids.len()
        invariant
            i <= ids@.len(),
            out@ == old(out)@ + ids@.subrange(0, i as int),
        decreases ids@.len() - i,
    {
        out.push(ids[i]);
        i = i + 1;
        assert(out@ =~= old(out)@ + ids@.subrange(0, i as int));
    }
    assert(ids@.subrange(0, ids@.len() as int) =~= ids@);
}

/// The blocks that a game owns, in the order of `owned_blocks`.
pub fn collect_owned_blocks(g: &Game) -> (r: Vec<i32>)
    ensures
        r@ == owned_blocks(*g),
{
    let mut out: Vec<i32> = Vec::new();
    append_ids(&mut out, &g.floor_block_ids);
    let mut i: usize = 0;
    while i < g.players.len()
        invariant
            i <= g.players@.len(),
            out@ == g.floor_block_ids@ + player_blocks(g.players@.subrange(0, i as int)),
        decreases g.players@.len() - i,
    {
        assert(g.players@.subrange(0, i + 1).drop_last() =~= g.players@.subrange(0, i as int));
        append_ids(&mut out, &g.players[i].block_ids);
        i = i + 1;
        assert(out@ =~= g.floor_block_ids@ + player_blocks(g.players@.subrange(0, i as int)));
    }
    assert(g.players@.subrange(0, g.players@.len() as int) =~= g.players@);
    match g.current_block_id {
        Some(b) => {
            out.push(b);
        },
        None => {},
    }
    assert(out@ =~= owned_blocks(*g));
    out
}

/// `a` plus `n`, saturating at the largest `u32`.
pub open spec fn sat_add(a: u32, n: nat) -> u32 {
    if a + n > u32::MAX {
        u32::MAX
    } else {
        (a + n) as u32
    }
}

/// `s` without the occurrences of `b`, in order.
pub open spec fn without(s: Seq<i32>, b: i32) -> Seq<i32>
    decreases s.len(),
{
    if s.len() == 0 {
        s
    } else if s.last() == b {
        without(s.drop_last(), b)
    } else {
        without(s.drop_last(), b).push(s.last())
    }
}

/// The blocks that a tick tests the current block against: every block of
/// every player but the current one itself, then the floor.
pub open spec fn collision_set(g: Game) -> Option<Seq<i32>> {
    match g.current_block_id {
        Some(b) => Some(without(player_blocks(g.players@), b) + g.floor_block_ids@),
        None => None,
    }
}

/// The current block and the blocks it is to be tested against this tick,
/// when the game has a current block.
pub fn collision_candidates(g: &Game) -> (r: Option<(i32, Vec<i32>)>)
    ensures
        match r {
            Some((b, v)) => g.current_block_id == Some(b) && collision_set(*g) == Some(v@),
            None => g.current_block_id is None,
        },
{
    let b = match g.current_block_id {
        Some(b) => b,
        None => return None,
    };
    let all = collect_owned_blocks(g);
    let total = all.len();
    let nf = g.floor_block_ids.len();
    let np = total - nf - 1;
    let ghost pb = player_blocks(g.players@);
    assert(all@ =~= g.floor_block_ids@ + pb + seq![b]);
    let mut out: Vec<i32> = Vec::new();
    let mut i: usize = 0;
    while i < np
        invariant
            all@ == g.floor_block_ids@ + pb + seq![b],
            all@.len() == nf + np + 1,
            total == all@.len(),
            nf == g.floor_block_ids@.len(),
            np == pb.len(),
            i <= np,
            out@ == without(pb.subrange(0, i as int), b),
        decreases np - i,
    {
        assert(pb.subrange(0, i + 1).drop_last() =~= pb.subrange(0, i as int));
        let x = all[nf + i];
        assert(x == pb[i as int]);
        if x != b {
            out.push(x);
        }
        i = i + 1;
    }
    assert(pb.subrange(0, np as int) =~= pb);
    append_ids(&mut out, &g.floor_block_ids);
    Some((b, out))
}

/// A game just created under `id` from `config`: waiting, empty, with one floor block.
pub open spec fn fresh_game(
    g: Game,
    id: u128,
    name: Seq<char>,
    game_type: GameType,
    difficulty: DifficultyLevel,
    config: GameConfig,
    floor_block_id: i32,
    now: u64,
) -> bool {
    &&& g.id == id
    &&& g.name@ == name
    &&& g.game_type == game_type
    &&& g.difficulty == difficulty
    &&& g.state == GameState::Waiting
    &&& g.created_at == now
    &&& g.started_at is None
    &&& g.finished_at is None
    &&& g.players@.len() == 0
    &&& g.peak_players == 0
    &&& g.max_players == config.max_players
    &&& g.field_height == config.field_height
    &&& g.field_width == config.field_width
    &&& g.floor_block_ids@ == seq![floor_block_id]
    &&& g.winner_id is None
    &&& g.current_block_id is None
    &&& g.next_block_type is None
}

/// `after` is `before` with the player `player_id` taken off the roster, if it was on it.
pub open spec fn player_removed(before: Game, after: Game, player_id: u128) -> bool {
    &&& !after.has_player(player_id)
    &&& !before.has_player(player_id) ==> after == before
    &&& forall|i: int| 0 <= i < before.players@.len() && before.players@[i].id == player_id
        ==> after.players@ == before.players@.remove(i)
    &&& (Game { players: after.players, ..before }) == after
}

/// `after` is `before` with a fresh player `player_id` named `name` on the roster:
/// appended, or in place of a player with that id.
pub open spec fn player_added(before: Game, after: Game, player_id: u128, name: Seq<char>) -> bool {
    &&& after.has_player(player_id)
    &&& after.players@.len() <= after.max_players
    &&& (Game { players: after.players, peak_players: after.peak_players, ..before }) == after
    &&& exists|p: Player| {
        &&& p.id == player_id
        &&& p.name@ == name
        &&& p.is_fresh()
        &&& !before.has_player(player_id) ==> after.players@ == before.players@.push(p)
        &&& forall|i: int| 0 <= i < before.players@.len() && before.players@[i].id == player_id
            ==> after.players@ == before.players@.update(i, p)
    }
}

/// What `finish_spawn` does to the game table and what it returns.
pub open spec fn spawn_finished(
    before: Map<u128, Game>,
    after: Map<u128, Game>,
    game_id: u128,
    player_id: u128,
    block_ids: Seq<i32>,
    r: Result<i32, ServerError>,
) -> bool {
    &&& r is Err ==> after == before
    &&& block_ids.len() == 0 ==> r == Err::<i32, ServerError>(ServerError::PhysicsFailure)
    &&& block_ids.len() > 0 && !before.contains_key(game_id) ==> r == Err::<i32, ServerError>(ServerError::NotFound)
    &&& block_ids.len() > 0 && before.contains_key(game_id) ==> {
        let g = before[game_id];
        &&& g.state != GameState::Running ==> r == Err::<i32, ServerError>(ServerError::InvalidState)
        &&& g.state == GameState::Running && !g.has_player(player_id) ==> r == Err::<i32, ServerError>(ServerError::NotFound)
        &&& g.state == GameState::Running && g.has_player(player_id) ==> {
            let g2 = after[game_id];
            &&& r == Ok::<i32, ServerError>(block_ids[0])
            &&& GameManager::only_changed(before, after, game_id)
            &&& (Game { players: g2.players, current_block_id: Some(block_ids[0]), ..g }) == g2
            &&& g2.players@.len() == g.players@.len()
            &&& forall|i: int| 0 <= i < g.players@.len() ==> {
                if g.players@[i].id == player_id {
                    &&& g2.players@[i].block_ids@ == g.players@[i].block_ids@ + block_ids
                    &&& g2.players@[i].blocks_placed == sat_add(g.players@[i].blocks_placed, block_ids.len())
                    &&& (Player {
                        block_ids: g2.players@[i].block_ids,
                        blocks_placed: g2.players@[i].blocks_placed,
                        ..g.players@[i]
                    }) == g2.players@[i]
                } else {
                    g2.players@[i] == g.players@[i]
                }
            }
        }
    }
}

/// Owns every game. Each game is stored under its own id.
pub struct GameManager {
    pub config: GameConfig,
    pub games: HashMap<u128, Game>,
}

impl GameManager {
    pub open spec fn wf(&self) -> bool {
        forall|id: u128| #[trigger] self.games@.contains_key(id) ==> self.games@[id].wf() && self.games@[id].id == id
    }

    /// Only the game under `id` may differ between the two tables.
    pub open spec fn only_changed(before: Map<u128, Game>, after: Map<u128, Game>, id: u128) -> bool {
        &&& after.contains_key(id)
        &&& after == before.insert(id, after[id])
    }

    pub fn new(config: GameConfig) -> (m: GameManager)
        ensures
            m.wf(),
            m.games@ == Map::<u128, Game>::empty(),
            m.config == config,
    {
        GameManager { config, games: HashMap::new() }
    }

    /// Stores a new waiting game under `game_id`, sized by the configuration,
    /// with the floor block that the physics engine made for it.
    pub fn create_game_with_id(
        &mut self,
        game_id: u128,
        name: String,
        game_type: GameType,
        difficulty: DifficultyLevel,
        floor_block_id: i32,
        now: u64,
    ) -> (r: Result<u128, ServerError>)
        requires
            old(self).wf(),
        ensures
            final(self).wf(),
            final(self).config == old(self).config,
            old(self).games@.contains_key(game_id) ==> r == Err::<u128, ServerError>(ServerError::Internal)
                && final(self).games@ == old(self).games@,
            !old(self).games@.contains_key(game_id) ==> r == Ok::<u128, ServerError>(game_id)
                && final(self).games@ == old(self).games@.insert(game_id, final(self).games@[game_id])
                && fresh_game(final(self).games@[game_id], game_id, name@, game_type, difficulty, old(self).config,
                    floor_block_id, now),
    {
        if self.games.contains_key(&game_id) {
            return Err(ServerError::Internal);
        }
        let mut g = Game::new(
            game_id,
            name,
            game_type,
            difficulty,
            self.config.max_players,
            self.config.field_height,
            self.config.field_width,
            now,
        );
        g.floor_block_ids.push(floor_block_id);
        assert(g.floor_block_ids@ =~= seq![floor_block_id]);
        let ghost made = g;
        self.games.insert(game_id, g);
        assert(self.games@[game_id] == made);
        Ok(game_id)
    }

    /// Creates a game under a random id, or the smallest free one should the
    /// draw be taken; see `create_game_with_id`.
    pub fn create_game(
        &mut self,
        name: String,
        game_type: GameType,
        difficulty: DifficultyLevel,
        floor_block_id: i32,
        now: u64,
    ) -> (r: Result<u128, ServerError>)
        requires
            old(self).wf(),
        ensures
            final(self).wf(),
            final(self).config == old(self).config,
            match r {
                Ok(id) => !old(self).games@.contains_key(id)
                    && final(self).games@ == old(self).games@.insert(id, final(self).games@[id])
                    && fresh_game(final(self).games@[id], id, name@, game_type, difficulty, old(self).config, floor_block_id, now),
                Err(_) => false,
            },
    {
        let id = fresh_id(&self.games, random_uuid());
        self.create_game_with_id(id, name, game_type, difficulty, floor_block_id, now)
    }

    pub fn get_game(&self, game_id: u128) -> (r: Result<&Game, ServerError>)
        ensures
            match r {
                Ok(g) => self.games@.contains_key(game_id) && *g == self.games@[game_id],
                Err(e) => e == ServerError::NotFound && !self.games@.contains_key(game_id),
            },
    {
        match self.games.get(&game_id) {
            Some(g) => Ok(g),
            None => Err(ServerError::NotFound),
        }
    }

    /// Removes a game and hands back every block it owned, for the caller to
    /// release in the physics engine.
    pub fn delete_game(&mut self, game_id: u128) -> (r: Result<Vec<i32>, ServerError>)
        requires
            old(self).wf(),
        ensures
            final(self).wf(),
            final(self).config == old(self).config,
            match r {
                Ok(blocks) => old(self).games@.contains_key(game_id)
                    && blocks@ == owned_blocks(old(self).games@[game_id])
                    && final(self).games@ == old(self).games@.remove(game_id),
                Err(e) => e == ServerError::NotFound && !old(self).games@.contains_key(game_id)
                    && final(self).games@ == old(self).games@,
            },
    {
        match self.games.remove(&game_id) {
            Some(g) => Ok(collect_owned_blocks(&g)),
            None => Err(ServerError::NotFound),
        }
    }

    /// Adds the player `player_id` to a game that is waiting and not full.
    pub fn add_player_to_game(&mut self, game_id: u128, player_id: u128, player_name: String) -> (r: Result<u128, ServerError>)
        requires
            old(self).wf(),
        ensures
            final(self).wf(),
            final(self).config == old(self).config,
            r is Err ==> final(self).games@ == old(self).games@,
            !old(self).games@.contains_key(game_id) ==> r == Err::<u128, ServerError>(ServerError::NotFound),
            old(self).games@.contains_key(game_id) ==> {
                let g = old(self).games@[game_id];
                &&& g.players@.len() >= g.max_players ==> r == Err::<u128, ServerError>(ServerError::GameFull)
                &&& g.players@.len() < g.max_players && g.state != GameState::Waiting
                    ==> r == Err::<u128, ServerError>(ServerError::InvalidState)
                &&& g.spec_can_join() ==> r == Ok::<u128, ServerError>(player_id)
                    && GameManager::only_changed(old(self).games@, final(self).games@, game_id)
                    && player_added(g, final(self).games@[game_id], player_id, player_name@)
            },
    {
        let mut g = match self.games.remove(&game_id) {
            Some(g) => g,
            None => return Err(ServerError::NotFound),
        };
        let player = Player::new(player_id, player_name);
        let ghost p = player;
        let r = g.add_player(player);
        self.games.insert(game_id, g);
        assert(self.games@ =~= old(self).games@.insert(game_id, self.games@[game_id]));
        match r {
            Ok(()) => Ok(player_id),
            Err(e) => {
                assert(self.games@ =~= old(self).games@);
                Err(e)
            },
        }
    }

    /// Takes a player off a game's roster; a player already gone is no error.
    pub fn remove_player_from_game(&mut self, game_id: u128, player_id: u128) -> (r: Result<(), ServerError>)
        requires
            old(self).wf(),
        ensures
            final(self).wf(),
            final(self).config == old(self).config,
            r is Ok <==> old(self).games@.contains_key(game_id),
            r is Err ==> r == Err::<(), ServerError>(ServerError::NotFound) && final(self).games@ == old(self).games@,
            r is Ok ==> {
                let g = old(self).games@[game_id];
                let g2 = final(self).games@[game_id];
                &&& GameManager::only_changed(old(self).games@, final(self).games@, game_id)
                &&& player_removed(g, g2, player_id)
            },
    {
        let mut g = match self.games.remove(&game_id) {
            Some(g) => g,
            None => return Err(ServerError::NotFound),
        };
        let _ = g.remove_player(player_id);
        self.games.insert(game_id, g);
        assert(self.games@ =~= old(self).games@.insert(game_id, self.games@[game_id]));
        Ok(())
    }

    /// Starts a waiting game that has at least one player.
    pub fn start_game(&mut self, game_id: u128, now: u64) -> (r: Result<(), ServerError>)
        requires
            old(self).wf(),
        ensures
            final(self).wf(),
            final(self).config == old(self).config,
            r is Err ==> final(self).games@ == old(self).games@,
            !old(self).games@.contains_key(game_id) ==> r == Err::<(), ServerError>(ServerError::NotFound),
            old(self).games@.contains_key(game_id) ==> {
                let g = old(self).games@[game_id];
                &&& (r is Ok <==> g.spec_can_start())
                &&& r is Err ==> r == Err::<(), ServerError>(ServerError::InvalidState)
                &&& r is Ok ==> final(self).games@ == old(self).games@.insert(game_id,
                    Game { state: GameState::Running, started_at: Some(now), ..g })
            },
    {
        let mut g = match self.games.remove(&game_id) {
            Some(g) => g,
            None => return Err(ServerError::NotFound),
        };
        let r = g.start(now);
        self.games.insert(game_id, g);
        proof {
            if r is Err {
                assert(self.games@ =~= old(self).games@);
            }
        }
        r
    }

    /// Pauses a running game.
    pub fn pause_game(&mut self, game_id: u128) -> (r: Result<(), ServerError>)
        requires
            old(self).wf(),
        ensures
            final(self).wf(),
            final(self).config == old(self).config,
            r is Err ==> final(self).games@ == old(self).games@,
            !old(self).games@.contains_key(game_id) ==> r == Err::<(), ServerError>(ServerError::NotFound),
            old(self).games@.contains_key(game_id) ==> {
                let g = old(self).games@[game_id];
                &&& (r is Ok <==> g.spec_can_pause())
                &&& r is Err ==> r == Err::<(), ServerError>(ServerError::InvalidState)
                &&& r is Ok ==> final(self).games@ == old(self).games@.insert(game_id, Game { state: GameState::Paused, ..g })
            },
    {
        let mut g = match self.games.remove(&game_id) {
            Some(g) => g,
            None => return Err(ServerError::NotFound),
        };
        let r = g.pause();
        self.games.insert(game_id, g);
        proof {
            if r is Err {
                assert(self.games@ =~= old(self).games@);
            }
        }
        r
    }

    /// Resumes a paused game.
    pub fn resume_game(&mut self, game_id: u128) -> (r: Result<(), ServerError>)
        requires
            old(self).wf(),
        ensures
            final(self).wf(),
            final(self).config == old(self).config,
            r is Err ==> final(self).games@ == old(self).games@,
            !old(self).games@.contains_key(game_id) ==> r == Err::<(), ServerError>(ServerError::NotFound),
            old(self).games@.contains_key(game_id) ==> {
                let g = old(self).games@[game_id];
                &&& (r is Ok <==> g.spec_can_resume())
                &&& r is Err ==> r == Err::<(), ServerError>(ServerError::InvalidState)
                &&& r is Ok ==> final(self).games@ == old(self).games@.insert(game_id, Game { state: GameState::Running, ..g })
            },
    {
        let mut g = match self.games.remove(&game_id) {
            Some(g) => g,
            None => return Err(ServerError::NotFound),
        };
        let r = g.resume();
        self.games.insert(game_id, g);
        proof {
            if r is Err {
                assert(self.games@ =~= old(self).games@);
            }
        }
        r
    }

    /// Finishes a running or paused game with an optional winner.
    pub fn finish_game(&mut self, game_id: u128, winner_id: Option<u128>, now: u64) -> (r: Result<(), ServerError>)
        requires
            old(self).wf(),
        ensures
            final(self).wf(),
            final(self).config == old(self).config,
            r is Err ==> final(self).games@ == old(self).games@,
            !old(self).games@.contains_key(game_id) ==> r == Err::<(), ServerError>(ServerError::NotFound),
            old(self).games@.contains_key(game_id) ==> {
                let g = old(self).games@[game_id];
                &&& (r is Ok <==> g.spec_can_finish())
                &&& r is Err ==> r == Err::<(), ServerError>(ServerError::InvalidState)
                &&& r is Ok ==> final(self).games@ == old(self).games@.insert(game_id,
                    Game { state: GameState::Finished, finished_at: Some(now), winner_id, ..g })
            },
    {
        let mut g = match self.games.remove(&game_id) {
            Some(g) => g,
            None => return Err(ServerError::NotFound),
        };
        let r = g.finish(winner_id, now);
        self.games.insert(game_id, g);
        proof {
            if r is Err {
                assert(self.games@ =~= old(self).games@);
            }
        }
        r
    }

    /// First half of spawning a piece for a player of a running game: picks
    /// the queued shape, or `drawn` when none is queued, and queues `next`.
    /// The caller then asks the physics engine for the piece's blocks.
    pub fn begin_spawn_with(&mut self, game_id: u128, player_id: u128, drawn: BlockType, next: BlockType) -> (r: Result<BlockType, ServerError>)
        requires
            old(self).wf(),
        ensures
            final(self).wf(),
            final(self).config == old(self).config,
            r is Err ==> final(self).games@ == old(self).games@,
            !old(self).games@.contains_key(game_id) ==> r == Err::<BlockType, ServerError>(ServerError::NotFound),
            old(self).games@.contains_key(game_id) ==> {
                let g = old(self).games@[game_id];
                &&& g.state != GameState::Running ==> r == Err::<BlockType, ServerError>(ServerError::InvalidState)
                &&& g.state == GameState::Running && !g.has_player(player_id)
                    ==> r == Err::<BlockType, ServerError>(ServerError::NotFound)
                &&& g.state == GameState::Running && g.has_player(player_id) ==> {
                    &&& r == Ok::<BlockType, ServerError>(match g.next_block_type {
                        Some(b) => b,
                        None => drawn,
                    })
                    &&& final(self).games@ == old(self).games@.insert(game_id, Game { next_block_type: Some(next), ..g })
                }
            },
    {
        let mut g = match self.games.remove(&game_id) {
            Some(g) => g,
            None => return Err(ServerError::NotFound),
        };
        if g.state != GameState::Running {
            self.games.insert(game_id, g);
            assert(self.games@ =~= old(self).games@);
            return Err(ServerError::InvalidState);
        }
        if g.find_player(player_id).is_none() {
            self.games.insert(game_id, g);
            assert(self.games@ =~= old(self).games@);
            return Err(ServerError::NotFound);
        }
        let shape = match g.next_block_type {
            Some(b) => b,
            None => drawn,
        };
        g.next_block_type = Some(next);
        self.games.insert(game_id, g);
        Ok(shape)
    }

    /// `begin_spawn_with`, with the fallback and the next shape drawn at random.
    pub fn begin_spawn(&mut self, game_id: u128, player_id: u128) -> (r: Result<BlockType, ServerError>)
        requires
            old(self).wf(),
        ensures
            final(self).wf(),
            r is Err ==> final(self).games@ == old(self).games@,
            final(self).config == old(self).config,
            r is Err ==> final(self).games@ == old(self).games@,
            !old(self).games@.contains_key(game_id) ==> r == Err::<BlockType, ServerError>(ServerError::NotFound),
            old(self).games@.contains_key(game_id) ==> {
                let g = old(self).games@[game_id];
                &&& g.state != GameState::Running ==> r == Err::<BlockType, ServerError>(ServerError::InvalidState)
                &&& g.state == GameState::Running && !g.has_player(player_id)
                    ==> r == Err::<BlockType, ServerError>(ServerError::NotFound)
                &&& g.state == GameState::Running && g.has_player(player_id) ==> {
                    &&& r is Ok
                    &&& g.next_block_type matches Some(b) ==> r == Ok::<BlockType, ServerError>(b)
                    &&& GameManager::only_changed(old(self).games@, final(self).games@, game_id)
                    &&& final(self).games@[game_id].next_block_type is Some
                    &&& (Game { next_block_type: final(self).games@[game_id].next_block_type, ..g }) == final(self).games@[game_id]
                }
            },
    {
        let drawn = random_shape();
        let next = random_shape();
        self.begin_spawn_with(game_id, player_id, drawn, next)
    }

    /// Second half of spawning: records the blocks that the physics engine
    /// made. The first becomes the game's current block and all of them are
    /// attributed to the player.
    pub fn finish_spawn(&mut self, game_id: u128, player_id: u128, block_ids: &Vec<i32>) -> (r: Result<i32, ServerError>)
        requires
            old(self).wf(),
        ensures
            final(self).wf(),
            final(self).config == old(self).config,
            spawn_finished(old(self).games@, final(self).games@, game_id, player_id, block_ids@, r),
    {
        if block_ids.len() == 0 {
            return Err(ServerError::PhysicsFailure);
        }
        let mut g = match self.games.remove(&game_id) {
            Some(g) => g,
            None => {
                assert(self.games@ =~= old(self).games@);
                return Err(ServerError::NotFound);
            },
        };
        if g.state != GameState::Running {
            self.games.insert(game_id, g);
            assert(self.games@ =~= old(self).games@);
            return Err(ServerError::InvalidState);
        }
        let pi = match g.find_player(player_id) {
            Some(pi) => pi,
            None => {
                self.games.insert(game_id, g);
                assert(self.games@ =~= old(self).games@);
                return Err(ServerError::NotFound);
            },
        };
        let ghost g0 = g;
        let first = block_ids[0];
        g.current_block_id = Some(first);
        let mut k: usize = 0;
        while k < block_ids.len()
            invariant
                g0.wf(),
                pi < g0.players@.len(),
                g0.players@[pi as int].id == player_id,
                k <= block_ids@.len(),
                (Game { players: g.players, current_block_id: Some(first), ..g0 }) == g,
                g.players@.len() == g0.players@.len(),
                forall|i: int| 0 <= i < g0.players@.len() && i != pi ==> g.players@[i] == g0.players@[i],
                g.players@[pi as int].block_ids@ == g0.players@[pi as int].block_ids@ + block_ids@.subrange(0, k as int),
                g.players@[pi as int].blocks_placed == sat_add(g0.players@[pi as int].blocks_placed, k as nat),
                (Player {
                    block_ids: g.players@[pi as int].block_ids,
                    blocks_placed: g.players@[pi as int].blocks_placed,
                    ..g0.players@[pi as int]
                }) == g.players@[pi as int],
            decreases block_ids@.len() - k,
        {
            let p = &mut g.players[pi];
            p.block_ids.push(block_ids[k]);
            p.blocks_placed = p.blocks_placed.saturating_add(1);
            k = k + 1;
            assert(g.players@[pi as int].block_ids@ =~= g0.players@[pi as int].block_ids@ + block_ids@.subrange(0, k as int));
        }
        assert(block_ids@.subrange(0, block_ids@.len() as int) =~= block_ids@);
        assert forall|a: int| 0 <= a < g.players@.len() implies g.players@[a].id == g0.players@[a].id by {
            if a != pi {
                assert(g.players@[a] == g0.players@[a]);
            }
        }
        assert forall|i: int| 0 <= i < g0.players@.len() && g0.players@[i].id == player_id implies i == pi by {
            assert(crate::game::ids_unique(g0.players@));
        }
        self.games.insert(game_id, g);
        assert(self.games@ =~= old(self).games@.insert(game_id, self.games@[game_id]));
        Ok(first)
    }

    /// The block being placed in a running game, which moves and rotations act on.
    pub fn current_block(&self, game_id: u128) -> (r: Result<i32, ServerError>)
        ensures
            !self.games@.contains_key(game_id) ==> r == Err::<i32, ServerError>(ServerError::NotFound),
            self.games@.contains_key(game_id) ==> {
                let g = self.games@[game_id];
                &&& g.state != GameState::Running ==> r == Err::<i32, ServerError>(ServerError::InvalidState)
                &&& g.state == GameState::Running ==> r == match g.current_block_id {
                    Some(b) => Ok::<i32, ServerError>(b),
                    None => Err::<i32, ServerError>(ServerError::NoCurrentBlock),
                }
            },
    {
        let g = match self.games.get(&game_id) {
            Some(g) => g,
            None => return Err(ServerError::NotFound),
        };
        if g.state != GameState::Running {
            return Err(ServerError::InvalidState);
        }
        match g.current_block_id {
            Some(b) => Ok(b),
            None => Err(ServerError::NoCurrentBlock),
        }
    }

    /// Casts a spell in a running game; see `Game::cast_spell`.
    pub fn cast_spell(&mut self, game_id: u128, caster_id: u128, spell_id: &str, target_id: Option<u128>, now: u64) -> (r: Result<(), ServerError>)
        requires
            old(self).wf(),
        ensures
            final(self).wf(),
            final(self).config == old(self).config,
            r is Err ==> final(self).games@ == old(self).games@,
            !old(self).games@.contains_key(game_id) ==> r == Err::<(), ServerError>(ServerError::NotFound),
            old(self).games@.contains_key(game_id) ==> {
                let g = old(self).games@[game_id];
                &&& g.state != GameState::Running ==> r == Err::<(), ServerError>(ServerError::InvalidState)
                &&& g.state == GameState::Running ==> GameManager::only_changed(old(self).games@, final(self).games@, game_id)
                    && spell_cast(g, final(self).games@[game_id], caster_id, spell_id@, target_id, now, r)
            },
    {
        let mut g = match self.games.remove(&game_id) {
            Some(g) => g,
            None => return Err(ServerError::NotFound),
        };
        if g.state != GameState::Running {
            self.games.insert(game_id, g);
            assert(self.games@ =~= old(self).games@);
            return Err(ServerError::InvalidState);
        }
        let r = g.cast_spell(caster_id, spell_id, target_id, now);
        self.games.insert(game_id, g);
        assert(self.games@ =~= old(self).games@.insert(game_id, self.games@[game_id]));
        proof {
            if r is Err {
                assert(self.games@ =~= old(self).games@);
            }
        }
        r
    }

    /// The ids of all games, each once.
    pub fn game_ids(&self) -> (r: Vec<u128>)
        ensures
            r@.to_set() == self.games@.dom(),
            r@.no_duplicates(),
    {
        let mut r: Vec<u128> = Vec::new();
        for k in it: self.games.keys()
            invariant
                r@.len() == it.index(),
                forall|i: int| 0 <= i < it.index() ==> r@[i] == *it.seq()[i],
        {
            r.push(*k);
        }
        assert(r@ =~= vstd::std_specs::hash::spec_keys_iter(&self.games).remaining().unref());
        r
    }

    /// Every game.
    pub fn get_all_games(&self) -> (r: Vec<&Game>)
        requires
            self.wf(),
        ensures
            r@.len() == self.games@.len(),
            forall|i: int| 0 <= i < r@.len() ==> self.games@.contains_key(r@[i].id) && self.games@[r@[i].id] == *r@[i],
            forall|id: u128| #[trigger] self.games@.contains_key(id) ==> exists|i: int| 0 <= i < r@.len() && r@[i].id == id,
    {
        let ids = self.game_ids();
        proof {
            ids@.unique_seq_to_set();
        }
        let mut r: Vec<&Game> = Vec::new();
        let mut i: usize = 0;
        while i < ids.len()
            invariant
                self.wf(),
                ids@.to_set() == self.games@.dom(),
                ids@.len() == self.games@.len(),
                i <= ids@.len(),
                r@.len() == i,
                forall|k: int| 0 <= k < i ==> r@[k].id == ids@[k],
                forall|k: int| 0 <= k < r@.len() ==> self.games@.contains_key(r@[k].id) && self.games@[r@[k].id] == *r@[k],
            decreases ids@.len() - i,
        {
            let id = ids[i];
            assert(ids@.to_set().contains(id));
            r.push(self.games.get(&id).unwrap());
            i = i + 1;
        }
        proof {
            assert forall|id: u128| #[trigger] self.games@.contains_key(id) implies exists|i: int| 0 <= i < r@.len() && r@[i].id == id by {
                assert(ids@.to_set().contains(id));
                let j = choose|j: int| 0 <= j < ids@.len() && ids@[j] == id;
                assert(r@[j].id == id);
            }
        }
        r
    }

    /// The ids of the games that a player may join now.
    pub fn get_available_games(&self) -> (r: Vec<u128>)
        ensures
            forall|i: int| 0 <= i < r@.len() ==> self.games@.contains_key(#[trigger] r@[i]) && self.games@[r@[i]].spec_can_join(),
            forall|id: u128| #[trigger] self.games@.contains_key(id) && self.games@[id].spec_can_join() ==> r@.contains(id),
    {
        let ids = self.game_ids();
        let mut r: Vec<u128> = Vec::new();
        let mut i: usize = 0;
        while i < ids.len()
            invariant
                ids@.to_set() == self.games@.dom(),
                i <= ids@.len(),
                forall|k: int| 0 <= k < r@.len() ==> self.games@.contains_key(#[trigger] r@[k]) && self.games@[r@[k]].spec_can_join(),
                forall|j: int| 0 <= j < i && self.games@[#[trigger] ids@[j]].spec_can_join() ==> r@.contains(ids@[j]),
            decreases ids@.len() - i,
        {
            let id = ids[i];
            assert(ids@.to_set().contains(id));
            let ghost prev = r@;
            let g = self.games.get(&id).unwrap();
            if g.can_join() {
                r.push(id);
            }
            proof {
                assert forall|j: int| 0 <= j < i + 1 && self.games@[#[trigger] ids@[j]].spec_can_join() implies r@.contains(ids@[j]) by {
                    if j < i {
                        assert(prev.contains(ids@[j]));
                        let k = choose|k: int| 0 <= k < prev.len() && prev[k] == ids@[j];
                        assert(r@[k] == prev[k]);
                    } else {
                        assert(r@[r@.len() - 1] == id);
                    }
                }
            }
            i = i + 1;
        }
        proof {
            assert forall|id: u128| #[trigger] self.games@.contains_key(id) && self.games@[id].spec_can_join() implies r@.contains(id) by {
                assert(ids@.to_set().contains(id));
                let j = choose|j: int| 0 <= j < ids@.len() && ids@[j] == id;
            }
        }
        r
    }

    /// One tick over every game (see `Game::update`). Hands back the ids of
    /// the games that finished in this tick.
    pub fn update_games(&mut self, now: u64) -> (finished: Vec<u128>)
        requires
            old(self).wf(),
        ensures
            final(self).wf(),
            final(self).config == old(self).config,
            final(self).games@.dom() == old(self).games@.dom(),
            forall|id: u128| #[trigger] old(self).games@.contains_key(id) ==> ticked(old(self).games@[id], final(self).games@[id], now),
            forall|id: u128| #[trigger] finished@.contains(id) <==> old(self).games@.contains_key(id)
                && old(self).games@[id].state == GameState::Running
                && final(self).games@[id].state == GameState::Finished,
    {
        let ids = self.game_ids();
        let mut finished: Vec<u128> = Vec::new();
        let mut i: usize = 0;
        while i < ids.len()
            invariant
                self.wf(),
                self.config == old(self).config,
                ids@.to_set() == old(self).games@.dom(),
                ids@.no_duplicates(),
                i <= ids@.len(),
                self.games@.dom() == old(self).games@.dom(),
                forall|j: int| 0 <= j < i ==> ticked(old(self).games@[#[trigger] ids@[j]], self.games@[ids@[j]], now),
                forall|j: int| i <= j < ids@.len() ==> self.games@[#[trigger] ids@[j]] == old(self).games@[ids@[j]],
                forall|x: u128| #[trigger] finished@.contains(x) ==> exists|j: int| 0 <= j < i && ids@[j] == x,
                forall|x: u128| #[trigger] finished@.contains(x) ==> old(self).games@[x].state == GameState::Running
                    && self.games@[x].state == GameState::Finished,
                forall|j: int| 0 <= j < i && old(self).games@[#[trigger] ids@[j]].state == GameState::Running
                    && self.games@[ids@[j]].state == GameState::Finished ==> finished@.contains(ids@[j]),
            decreases ids@.len() - i,
        {
            let id = ids[i];
            assert(ids@.to_set().contains(id));
            let ghost prev_games = self.games@;
            let mut g = self.games.remove(&id).unwrap();
            let w = g.update(now);
            self.games.insert(id, g);
            let ghost prev = finished@;
            assert(self.games@.dom() =~= old(self).games@.dom());
            if w.is_some() {
                finished.push(id);
            }
            proof {
                assert forall|j: int| 0 <= j < ids@.len() && j != i implies ids@[j] != id by {}
                assert forall|j: int| 0 <= j < i + 1 && old(self).games@[#[trigger] ids@[j]].state == GameState::Running
                    && self.games@[ids@[j]].state == GameState::Finished implies finished@.contains(ids@[j]) by {
                    if j < i {
                        assert(ids@[j] != id);
                        assert(self.games@[ids@[j]] == prev_games[ids@[j]]);
                        assert(prev.contains(ids@[j]));
                        assert(finished@ == prev || finished@ == prev.push(id));
                        if finished@ != prev {
                            let k = choose|k: int| 0 <= k < prev.len() && prev[k] == ids@[j];
                            assert(finished@[k] == ids@[j]);
                        }
                    } else {
                        assert(w is Some);
                        assert(finished@.last() == id);
                    }
                }
                assert forall|x: u128| #[trigger] finished@.contains(x) implies exists|j: int| 0 <= j < i + 1 && ids@[j] == x by {
                    if x != id {
                        assert(prev.contains(x) || x == id);
                    } else {
                        assert(ids@[i as int] == x);
                    }
                }
                assert forall|x: u128| #[trigger] finished@.contains(x) implies old(self).games@[x].state == GameState::Running
                    && self.games@[x].state == GameState::Finished by {
                    if x != id {
                        assert(prev.contains(x));
                        let j = choose|j: int| 0 <= j < i && ids@[j] == x;
                    }
                }
            }
            i = i + 1;
        }
        proof {
            assert forall|id: u128| #[trigger] old(self).games@.contains_key(id) implies ticked(old(self).games@[id], self.games@[id], now) by {
                assert(ids@.to_set().contains(id));
                let j = choose|j: int| 0 <= j < ids@.len() && ids@[j] == id;
            }
            assert forall|id: u128| old(self).games@.contains_key(id)
                && old(self).games@[id].state == GameState::Running
                && self.games@[id].state == GameState::Finished implies #[trigger] finished@.contains(id) by {
                assert(ids@.to_set().contains(id));
                let j = choose|j: int| 0 <= j < ids@.len() && ids@[j] == id;
            }
            assert forall|id: u128| #[trigger] finished@.contains(id) implies old(self).games@.contains_key(id) by {
                let j = choose|j: int| 0 <= j < ids@.len() && ids@[j] == id;
                assert(ids@.to_set().contains(id));
            }
        }
        finished
    }
}

/// No game of a well-formed manager ever has more players than its limit;
/// every operation that changes the table keeps the manager well formed.
pub proof fn lemma_roster_within_limit(m: GameManager, game_id: u128)
    requires
        m.wf(),
        m.games@.contains_key(game_id),
    ensures
        m.games@[game_id].players@.len() <= m.games@[game_id].max_players,
{
}

} // verus!
