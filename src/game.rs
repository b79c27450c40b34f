use vstd::prelude::*;
use crate::error::ServerError;

verus! {

/// The mode of a game, which decides its win condition.
#[derive(Clone, Copy, Debug, PartialEq, Eq, Structural)]
pub enum GameType {
    /// The first player whose tower reaches the field height wins.
    Race,
    /// The last player with a standing tower wins.
    Survival,
    /// Build a structure after a pattern; judged outside the server.
    Puzzle,
}

/// The lifecycle state of a game.
#[derive(Clone, Copy, Debug, PartialEq, Eq, Structural)]
pub enum GameState {
    Waiting,
    Running,
    Paused,
    Finished,
}

#[derive(Clone, Copy, Debug, PartialEq, Eq, Structural)]
pub enum DifficultyLevel {
    Easy,
    Medium,
    Hard,
    Expert,
}

/// Whether a spell helps its caster or hinders an opponent.
#[derive(Clone, Copy, Debug, PartialEq, Eq, Structural)]
pub enum SpellType {
    Light,
    Dark,
}

/// The seven tetromino shapes.
#[derive(Clone, Copy, Debug, PartialEq, Eq, Structural)]
pub enum BlockType {
    I,
    J,
    L,
    O,
    S,
    T,
    Z,
}

/// A spell of the catalog, or one held by a player.
#[derive(Clone, Debug)]
pub struct Spell {
    pub id: String,
    pub name: String,
    pub spell_type: SpellType,
    pub description: String,
    /// How long the effect lasts, in seconds.
    pub duration_secs: u64,
    /// The score that casting it costs.
    pub cost: u32,
}

/// A spell in effect, with the time (milliseconds) at which it lapses.
#[derive(Clone, Debug)]
pub struct ActiveSpell {
    pub spell: Spell,
    pub expires_at: u64,
}

/// A participant of one game; its id is the id of the user who joined.
#[derive(Clone, Debug)]
pub struct Player {
    pub id: u128,
    pub name: String,
    pub score: u32,
    /// Height of the player's tower, in field cells.
    pub tower_height: u32,
    pub blocks_placed: u32,
    pub blocks_destroyed: u32,
    pub available_spells: Vec<Spell>,
    pub active_spells: Vec<ActiveSpell>,
    pub block_ids: Vec<i32>,
}

/// One match: its board, roster and state machine. Times are milliseconds.
#[derive(Clone, Debug)]
pub struct Game {
    pub id: u128,
    pub name: String,
    pub game_type: GameType,
    pub state: GameState,
    pub difficulty: DifficultyLevel,
    pub created_at: u64,
    pub started_at: Option<u64>,
    pub finished_at: Option<u64>,
    /// The roster, in the order in which players joined.
    pub players: Vec<Player>,
    /// The largest roster the game has had.
    pub peak_players: usize,
    pub max_players: usize,
    pub field_height: usize,
    pub field_width: usize,
    pub winner_id: Option<u128>,
    pub floor_block_ids: Vec<i32>,
    pub current_block_id: Option<i32>,
    pub next_block_type: Option<BlockType>,
}

/// No two players of the roster share an id.
pub open spec fn ids_unique(players: Seq<Player>) -> bool {
    forall|i: int, j: int|
        0 <= i < players.len() && 0 <= j < players.len() && i != j ==> players[i].id != players[j].id
}

pub open spec fn roster_has(players: Seq<Player>, id: u128) -> bool {
    exists|i: int| 0 <= i < players.len() && players[i].id == id
}

/// A spell milliseconds after `now` that lasts `secs` seconds ends, saturating.
pub open spec fn expiry(now: u64, secs: u64) -> u64 {
    if now + secs * 1000 > u64::MAX {
        u64::MAX
    } else {
        (now + secs * 1000) as u64
    }
}

/// The spells of `s` that are still in effect at `now`, in their order.
pub open spec fn unexpired(s: Seq<ActiveSpell>, now: u64) -> Seq<ActiveSpell>
    decreases s.len(),
{
    if s.len() == 0 {
        s
    } else {
        let rest = unexpired(s.drop_last(), now);
        if s.last().expires_at > now {
            rest.push(s.last())
        } else {
            rest
        }
    }
}

/// The first player of the roster, in join order, whose tower reaches `height`.
pub open spec fn first_reaching(players: Seq<Player>, height: usize) -> Option<u128>
    decreases players.len(),
{
    if players.len() == 0 {
        None
    } else if players[0].tower_height >= height {
        Some(players[0].id)
    } else {
        first_reaching(players.drop_first(), height)
    }
}

/// How many players still have a standing tower.
pub open spec fn count_standing(players: Seq<Player>) -> nat
    decreases players.len(),
{
    if players.len() == 0 {
        0
    } else {
        count_standing(players.drop_last()) + if players.last().tower_height > 0 {
            1nat
        } else {
            0nat
        }
    }
}

/// The last player of the roster with a standing tower.
pub open spec fn last_standing(players: Seq<Player>) -> Option<u128>
    decreases players.len(),
{
    if players.len() == 0 {
        None
    } else if players.last().tower_height > 0 {
        Some(players.last().id)
    } else {
        last_standing(players.drop_last())
    }
}

/// The winner that the win condition of a running game names, if any.
pub open spec fn winner_of(game_type: GameType, players: Seq<Player>, peak: usize, height: usize) -> Option<u128> {
    match game_type {
        GameType::Race => first_reaching(players, height),
        GameType::Survival => if peak > 1 && count_standing(players) == 1 {
            last_standing(players)
        } else {
            None
        },
        GameType::Puzzle => None,
    }
}

/// Position `k` holds the first spell of `spells` with this id.
pub open spec fn first_spell_at(spells: Seq<Spell>, id: Seq<char>, k: int) -> bool {
    &&& 0 <= k < spells.len()
    &&& spells[k].id@ == id
    &&& forall|j: int| 0 <= j < k ==> spells[j].id@ != id
}

pub open spec fn holds_spell(spells: Seq<Spell>, id: Seq<char>) -> bool {
    exists|k: int| 0 <= k < spells.len() && spells[k].id@ == id
}

/// When something that starts at `now` and lasts `secs` seconds ends.
pub fn expiry_time(now: u64, secs: u64) -> (r: u64)
    ensures
        r == expiry(now, secs),
{
    let room: u64 = (u64::MAX - now) / 1000;
    if secs <= room {
        assert(secs * 1000 <= u64::MAX - now) by (nonlinear_arith)
            requires
                secs <= room,
                room == (u64::MAX - now) / 1000,
        ;
        now + secs * 1000
    } else {
        assert(secs * 1000 > u64::MAX - now) by (nonlinear_arith)
            requires
                secs > room,
                room == (u64::MAX - now) / 1000,
        ;
        u64::MAX
    }
}

/// The position of the first spell of `spells` with the id `id`.
pub fn find_spell(spells: &Vec<Spell>, id: &String) -> (r: Option<usize>)
    ensures
        match r {
            Some(k) => first_spell_at(spells@, id@, k as int),
            None => !holds_spell(spells@, id@),
        },
{
    let mut k: usize = 0;
    while k < spells.len()
        invariant
            k <= spells@.len(),
            forall|j: int| 0 <= j < k ==> spells@[j].id@ != id@,
        decreases spells@.len() - k,
    {
        if spells[k].id == *id {
            return Some(k);
        }
        k = k + 1;
    }
    None
}

/// What a cast of `spell_id` by `caster_id` does to a game: the outcome and
/// the game after it.
pub open spec fn spell_cast(
    before: Game,
    after: Game,
    caster_id: u128,
    spell_id: Seq<char>,
    target_id: Option<u128>,
    now: u64,
    r: Result<(), ServerError>,
) -> bool {
    &&& r is Err ==> after == before
    &&& (Game { players: after.players, ..before }) == after
    &&& !before.has_player(caster_id) ==> r == Err::<(), ServerError>(ServerError::NotFound)
    &&& forall|c: int| 0 <= c < before.players@.len() && before.players@[c].id == caster_id ==> {
        let caster = before.players@[c];
        &&& !holds_spell(caster.available_spells@, spell_id) ==> r == Err::<(), ServerError>(ServerError::NotFound)
        &&& forall|k: int| first_spell_at(caster.available_spells@, spell_id, k) ==> {
            let spell = caster.available_spells@[k];
            let affordable = caster.score >= spell.cost;
            let target_ok = match target_id {
                Some(t) => t != caster_id && before.has_player(t),
                None => true,
            };
            &&& !affordable ==> r == Err::<(), ServerError>(ServerError::InsufficientScore)
            &&& affordable && target_id == Some(caster_id) ==> r == Err::<(), ServerError>(ServerError::InvalidTarget)
            &&& affordable && target_id != Some(caster_id) && !target_ok ==> r == Err::<(), ServerError>(ServerError::NotFound)
            &&& affordable && target_ok ==> r is Ok
            &&& r is Ok ==> after.players@ == before.players@.update(c, Player {
                score: (caster.score - spell.cost) as u32,
                available_spells: after.players@[c].available_spells,
                active_spells: after.players@[c].active_spells,
                ..caster
            })
            &&& r is Ok ==> after.players@[c].available_spells@ == caster.available_spells@.remove(k)
            &&& r is Ok ==> after.players@[c].active_spells@ == caster.active_spells@.push(
                ActiveSpell { spell, expires_at: expiry(now, spell.duration_secs) })
        }
    }
}

/// What one tick does to a game: a game that is not running stays as it is;
/// in a running game every player's lapsed spells are dropped and, when the
/// win condition names a winner, the game finishes with it.
pub open spec fn ticked(before: Game, after: Game, now: u64) -> bool {
    if before.state != GameState::Running {
        after == before
    } else {
        let w = winner_of(before.game_type, before.players@, before.peak_players, before.field_height);
        &&& after.players@.len() == before.players@.len()
        &&& forall|i: int| 0 <= i < before.players@.len() ==> {
            &&& after.players@[i].active_spells@ == unexpired(before.players@[i].active_spells@, now)
            &&& (Player { active_spells: after.players@[i].active_spells, ..before.players@[i] }) == after.players@[i]
        }
        &&& w is None ==> (Game { players: after.players, ..before }) == after
        &&& w is Some ==> (Game {
            players: after.players,
            state: GameState::Finished,
            finished_at: Some(now),
            winner_id: w,
            ..before
        }) == after
    }
}

impl Player {
    /// A fresh player: no score, no tower, no spells, no blocks.
    pub fn new(id: u128, name: String) -> (p: Player)
        ensures
            p.id == id,
            p.name@ == name@,
            p.is_fresh(),
    {
        Player {
            id,
            name,
            score: 0,
            tower_height: 0,
            blocks_placed: 0,
            blocks_destroyed: 0,
            available_spells: Vec::new(),
            active_spells: Vec::new(),
            block_ids: Vec::new(),
        }
    }

    pub open spec fn is_fresh(&self) -> bool {
        &&& self.score == 0
        &&& self.tower_height == 0
        &&& self.blocks_placed == 0
        &&& self.blocks_destroyed == 0
        &&& self.available_spells@.len() == 0
        &&& self.active_spells@.len() == 0
        &&& self.block_ids@.len() == 0
    }

    /// Drops the spells whose time has come (`expires_at <= now`).
    pub fn update_spells(&mut self, now: u64)
        ensures
            final(self).active_spells@ == unexpired(old(self).active_spells@, now),
            (Player { active_spells: final(self).active_spells, ..*old(self) }) == *final(self),
    {
        let mut rest: Vec<ActiveSpell> = Vec::new();
        std::mem::swap(&mut rest, &mut self.active_spells);
        let ghost s = rest@;
        let mut kept: Vec<ActiveSpell> = Vec::new();
        let ghost mut i: int = 0;
        while rest.len() > 0
            invariant
                0 <= i <= s.len(),
                rest@ == s.subrange(i, s.len() as int),
                kept@ == unexpired(s.subrange(0, i), now),
            decreases rest.len(),
        {
            let e = rest.remove(0);
            proof {
                assert(s.subrange(0, i + 1).drop_last() =~= s.subrange(0, i));
                assert(rest@ =~= s.subrange(i + 1, s.len() as int));
            }
            if e.expires_at > now {
                kept.push(e);
            }
            proof {
                i = i + 1;
            }
        }
        assert(s.subrange(0, s.len() as int) =~= s);
        self.active_spells = kept;
    }
}

impl Game {
    /// The roster respects its limit and no two players share an id.
    pub open spec fn wf(&self) -> bool {
        &&& self.players@.len() <= self.max_players
        &&& self.players@.len() <= self.peak_players
        &&& ids_unique(self.players@)
    }

    pub open spec fn has_player(&self, id: u128) -> bool {
        roster_has(self.players@, id)
    }

    pub open spec fn spec_can_join(&self) -> bool {
        self.state == GameState::Waiting && self.players@.len() < self.max_players
    }

    pub open spec fn spec_is_active(&self) -> bool {
        self.state == GameState::Running || self.state == GameState::Paused
    }

    pub open spec fn spec_can_start(&self) -> bool {
        self.state == GameState::Waiting && self.players@.len() > 0
    }

    pub open spec fn spec_can_pause(&self) -> bool {
        self.state == GameState::Running
    }

    pub open spec fn spec_can_resume(&self) -> bool {
        self.state == GameState::Paused
    }

    pub open spec fn spec_can_finish(&self) -> bool {
        self.spec_is_active()
    }

    /// Spells, pieces, moves and rotations need a running game.
    pub open spec fn spec_can_play(&self) -> bool {
        self.state == GameState::Running
    }

    /// A new game in `Waiting`, with an empty roster and no blocks.
    pub fn new(
        id: u128,
        name: String,
        game_type: GameType,
        difficulty: DifficultyLevel,
        max_players: usize,
        field_height: usize,
        field_width: usize,
        now: u64,
    ) -> (g: Game)
        ensures
            g.wf(),
            g.id == id,
            g.name@ == name@,
            g.game_type == game_type,
            g.difficulty == difficulty,
            g.state == GameState::Waiting,
            g.created_at == now,
            g.started_at is None,
            g.finished_at is None,
            g.players@.len() == 0,
            g.peak_players == 0,
            g.max_players == max_players,
            g.field_height == field_height,
            g.field_width == field_width,
            g.winner_id is None,
            g.floor_block_ids@.len() == 0,
            g.current_block_id is None,
            g.next_block_type is None,
    {
        Game {
            id,
            name,
            game_type,
            state: GameState::Waiting,
            difficulty,
            created_at: now,
            started_at: None,
            finished_at: None,
            players: Vec::new(),
            peak_players: 0,
            max_players,
            field_height,
            field_width,
            winner_id: None,
            floor_block_ids: Vec::new(),
            current_block_id: None,
            next_block_type: None,
        }
    }

    /// The position of the player with this id in the roster.
    pub fn find_player(&self, id: u128) -> (r: Option<usize>)
        ensures
            match r {
                Some(i) => i < self.players@.len() && self.players@[i as int].id == id,
                None => !self.has_player(id),
            },
    {
        let mut i: usize = 0;
        while i < self.players.len()
            invariant
                i <= self.players@.len(),
                forall|j: int| 0 <= j < i ==> self.players@[j].id != id,
            decreases self.players@.len() - i,
        {
            if self.players[i].id == id {
                return Some(i);
            }
            i = i + 1;
        }
        None
    }

    /// Adds a player to a waiting game. A player whose id is already on the
    /// roster is replaced in place.
    pub fn add_player(&mut self, player: Player) -> (r: Result<(), ServerError>)
        requires
            old(self).wf(),
        ensures
            final(self).wf(),
            old(self).players@.len() >= old(self).max_players ==> r == Err::<(), ServerError>(ServerError::GameFull),
            old(self).players@.len() < old(self).max_players && old(self).state != GameState::Waiting
                ==> r == Err::<(), ServerError>(ServerError::InvalidState),
            r is Err ==> *final(self) == *old(self),
            r is Ok ==> {
                &&& old(self).spec_can_join()
                &&& final(self).has_player(player.id)
                &&& !old(self).has_player(player.id) ==> final(self).players@ == old(self).players@.push(player)
                &&& forall|i: int| 0 <= i < old(self).players@.len() && old(self).players@[i].id == player.id
                        ==> final(self).players@ == old(self).players@.update(i, player)
                &&& (Game { players: final(self).players, peak_players: final(self).peak_players, ..*old(self) }) == *final(self)
            },
            r is Ok <==> old(self).spec_can_join(),
    {
        if self.players.len() >= self.max_players {
            return Err(ServerError::GameFull);
        }
        if self.state != GameState::Waiting {
            return Err(ServerError::InvalidState);
        }
        let pid = player.id;
        match self.find_player(pid) {
            Some(i) => {
                self.players.set(i, player);
                assert(self.players@[i as int].id == pid);
            },
            None => {
                self.players.push(player);
                assert(self.players@[self.players@.len() - 1].id == pid);
                if self.peak_players < self.players.len() {
                    self.peak_players = self.players.len();
                }
            },
        }
        Ok(())
    }

    /// Removes a player from the roster.
    pub fn remove_player(&mut self, player_id: u128) -> (r: Result<(), ServerError>)
        requires
            old(self).wf(),
        ensures
            final(self).wf(),
            r is Ok <==> old(self).has_player(player_id),
            r is Err ==> r == Err::<(), ServerError>(ServerError::NotFound) && *final(self) == *old(self),
            r is Ok ==> !final(self).has_player(player_id),
            forall|i: int| 0 <= i < old(self).players@.len() && old(self).players@[i].id == player_id
                ==> final(self).players@ == old(self).players@.remove(i),
            (Game { players: final(self).players, ..*old(self) }) == *final(self),
    {
        match self.find_player(player_id) {
            Some(i) => {
                let ghost before = self.players@;
                self.players.remove(i);
                assert forall|k: int| 0 <= k < self.players@.len() implies self.players@[k].id != player_id by {
                    if k < i {
                        assert(self.players@[k] == before[k]);
                    } else {
                        assert(self.players@[k] == before[k + 1]);
                    }
                }
                Ok(())
            },
            None => Err(ServerError::NotFound),
        }
    }

    /// `Waiting` to `Running`; needs at least one player.
    pub fn start(&mut self, now: u64) -> (r: Result<(), ServerError>)
        ensures
            r is Ok <==> old(self).spec_can_start(),
            r is Err ==> r == Err::<(), ServerError>(ServerError::InvalidState) && *final(self) == *old(self),
            r is Ok ==> *final(self) == (Game { state: GameState::Running, started_at: Some(now), ..*old(self) }),
    {
        if self.state != GameState::Waiting {
            return Err(ServerError::InvalidState);
        }
        if self.players.len() == 0 {
            return Err(ServerError::InvalidState);
        }
        self.state = GameState::Running;
        self.started_at = Some(now);
        Ok(())
    }

    /// `Running` to `Paused`.
    pub fn pause(&mut self) -> (r: Result<(), ServerError>)
        ensures
            r is Ok <==> old(self).spec_can_pause(),
            r is Err ==> r == Err::<(), ServerError>(ServerError::InvalidState) && *final(self) == *old(self),
            r is Ok ==> *final(self) == (Game { state: GameState::Paused, ..*old(self) }),
    {
        if self.state != GameState::Running {
            return Err(ServerError::InvalidState);
        }
        self.state = GameState::Paused;
        Ok(())
    }

    /// `Paused` to `Running`.
    pub fn resume(&mut self) -> (r: Result<(), ServerError>)
        ensures
            r is Ok <==> old(self).spec_can_resume(),
            r is Err ==> r == Err::<(), ServerError>(ServerError::InvalidState) && *final(self) == *old(self),
            r is Ok ==> *final(self) == (Game { state: GameState::Running, ..*old(self) }),
    {
        if self.state != GameState::Paused {
            return Err(ServerError::InvalidState);
        }
        self.state = GameState::Running;
        Ok(())
    }

    /// `Running` or `Paused` to `Finished`, recording the winner.
    pub fn finish(&mut self, winner_id: Option<u128>, now: u64) -> (r: Result<(), ServerError>)
        ensures
            r is Ok <==> old(self).spec_can_finish(),
            r is Err ==> r == Err::<(), ServerError>(ServerError::InvalidState) && *final(self) == *old(self),
            r is Ok ==> *final(self) == (Game {
                state: GameState::Finished,
                finished_at: Some(now),
                winner_id: winner_id,
                ..*old(self)
            }),
    {
        if !self.is_active() {
            return Err(ServerError::InvalidState);
        }
        self.state = GameState::Finished;
        self.finished_at = Some(now);
        self.winner_id = winner_id;
        Ok(())
    }

    /// Whether a new player may join now.
    pub fn can_join(&self) -> (r: bool)
        ensures
            r == self.spec_can_join(),
    {
        self.state == GameState::Waiting && self.players.len() < self.max_players
    }

    /// Whether `start` would succeed.
    pub fn is_ready_to_start(&self) -> (r: bool)
        ensures
            r == (self.state == GameState::Waiting && self.players@.len() > 0),
    {
        self.state == GameState::Waiting && self.players.len() > 0
    }

    /// Whether the game has started and not finished.
    pub fn is_active(&self) -> (r: bool)
        ensures
            r == self.spec_is_active(),
    {
        self.state == GameState::Running || self.state == GameState::Paused
    }

    pub fn get_player(&self, player_id: u128) -> (r: Option<&Player>)
        ensures
            match r {
                Some(p) => p.id == player_id && self.players@.contains(*p),
                None => !self.has_player(player_id),
            },
    {
        match self.find_player(player_id) {
            Some(i) => Some(&self.players[i]),
            None => None,
        }
    }
}

impl Game {
    /// Sets a player's score.
    pub fn update_player_score(&mut self, player_id: u128, score: u32) -> (r: Result<(), ServerError>)
        requires
            old(self).wf(),
        ensures
            final(self).wf(),
            r is Ok <==> old(self).has_player(player_id),
            r is Err ==> r == Err::<(), ServerError>(ServerError::NotFound) && *final(self) == *old(self),
            forall|i: int| 0 <= i < old(self).players@.len() && old(self).players@[i].id == player_id
                ==> final(self).players@ == old(self).players@.update(i, Player { score, ..old(self).players@[i] }),
            (Game { players: final(self).players, ..*old(self) }) == *final(self),
    {
        match self.find_player(player_id) {
            Some(i) => {
                self.players[i].score = score;
                assert(self.players@ =~= old(self).players@.update(i as int, Player { score, ..old(self).players@[i as int] }));
                Ok(())
            },
            None => Err(ServerError::NotFound),
        }
    }

    /// Sets the height of a player's tower.
    pub fn update_player_tower_height(&mut self, player_id: u128, height: u32) -> (r: Result<(), ServerError>)
        requires
            old(self).wf(),
        ensures
            final(self).wf(),
            r is Ok <==> old(self).has_player(player_id),
            r is Err ==> r == Err::<(), ServerError>(ServerError::NotFound) && *final(self) == *old(self),
            forall|i: int| 0 <= i < old(self).players@.len() && old(self).players@[i].id == player_id
                ==> final(self).players@ == old(self).players@.update(i, Player { tower_height: height, ..old(self).players@[i] }),
            (Game { players: final(self).players, ..*old(self) }) == *final(self),
    {
        match self.find_player(player_id) {
            Some(i) => {
                self.players[i].tower_height = height;
                assert(self.players@ =~= old(self).players@.update(i as int, Player { tower_height: height, ..old(self).players@[i as int] }));
                Ok(())
            },
            None => Err(ServerError::NotFound),
        }
    }

    /// Attributes a block to a player and counts it as placed (the count saturates).
    pub fn add_player_block(&mut self, player_id: u128, block_id: i32) -> (r: Result<(), ServerError>)
        requires
            old(self).wf(),
        ensures
            final(self).wf(),
            r is Ok <==> old(self).has_player(player_id),
            r is Err ==> r == Err::<(), ServerError>(ServerError::NotFound) && *final(self) == *old(self),
            forall|i: int| 0 <= i < old(self).players@.len() && old(self).players@[i].id == player_id ==> {
                &&& final(self).players@.len() == old(self).players@.len()
                &&& forall|j: int| 0 <= j < old(self).players@.len() && j != i ==> final(self).players@[j] == old(self).players@[j]
                &&& final(self).players@[i].block_ids@ == old(self).players@[i].block_ids@.push(block_id)
                &&& final(self).players@[i].blocks_placed == if old(self).players@[i].blocks_placed == u32::MAX {
                    u32::MAX
                } else {
                    (old(self).players@[i].blocks_placed + 1) as u32
                }
                &&& (Player {
                    block_ids: final(self).players@[i].block_ids,
                    blocks_placed: final(self).players@[i].blocks_placed,
                    ..old(self).players@[i]
                }) == final(self).players@[i]
            },
            (Game { players: final(self).players, ..*old(self) }) == *final(self),
    {
        match self.find_player(player_id) {
            Some(i) => {
                let p = &mut self.players[i];
                p.block_ids.push(block_id);
                p.blocks_placed = p.blocks_placed.saturating_add(1);
                Ok(())
            },
            None => Err(ServerError::NotFound),
        }
    }

    /// Takes a block away from a player and counts it as destroyed (the count saturates).
    pub fn remove_player_block(&mut self, player_id: u128, block_id: i32) -> (r: Result<(), ServerError>)
        requires
            old(self).wf(),
        ensures
            final(self).wf(),
            r is Ok <==> old(self).has_player(player_id) && exists|i: int|
                0 <= i < old(self).players@.len() && old(self).players@[i].id == player_id
                && old(self).players@[i].block_ids@.contains(block_id),
            r is Err ==> r == Err::<(), ServerError>(ServerError::NotFound) && *final(self) == *old(self),
            (Game { players: final(self).players, ..*old(self) }) == *final(self),
            final(self).players@.len() == old(self).players@.len(),
            forall|i: int| 0 <= i < old(self).players@.len() && old(self).players@[i].id != player_id
                ==> final(self).players@[i] == old(self).players@[i],
            r is Ok ==> forall|i: int| 0 <= i < old(self).players@.len() && old(self).players@[i].id == player_id ==> {
                &&& exists|k: int| 0 <= k < old(self).players@[i].block_ids@.len()
                    && old(self).players@[i].block_ids@[k] == block_id
                    && final(self).players@[i].block_ids@ == old(self).players@[i].block_ids@.remove(k)
                &&& final(self).players@[i].blocks_destroyed == if old(self).players@[i].blocks_destroyed == u32::MAX {
                    u32::MAX
                } else {
                    (old(self).players@[i].blocks_destroyed + 1) as u32
                }
                &&& (Player {
                    block_ids: final(self).players@[i].block_ids,
                    blocks_destroyed: final(self).players@[i].blocks_destroyed,
                    ..old(self).players@[i]
                }) == final(self).players@[i]
            },
    {
        match self.find_player(player_id) {
            Some(i) => {
                let mut k: usize = 0;
                let n = self.players[i].block_ids.len();
                while k < n
                    invariant
                        *self == *old(self),
                        i < self.players@.len(),
                        self.players@[i as int].id == player_id,
                        old(self).wf(),
                        n == self.players@[i as int].block_ids@.len(),
                        k <= n,
                        forall|j: int| 0 <= j < k ==> self.players@[i as int].block_ids@[j] != block_id,
                    decreases n - k,
                {
                    if self.players[i].block_ids[k] == block_id {
                        let p = &mut self.players[i];
                        p.block_ids.remove(k);
                        p.blocks_destroyed = p.blocks_destroyed.saturating_add(1);
                        proof {
                            assert(old(self).players@[i as int].block_ids@[k as int] == block_id);
                            assert(old(self).players@[i as int].block_ids@.contains(block_id));
                            assert forall|a: int| 0 <= a < self.players@.len() implies self.players@[a].id
                                == old(self).players@[a].id by {
                                if a != i {
                                    assert(self.players@[a] == old(self).players@[a]);
                                }
                            }
                        }
                        return Ok(());
                    }
                    k = k + 1;
                }
                assert(!old(self).players@[i as int].block_ids@.contains(block_id));
                Err(ServerError::NotFound)
            },
            None => Err(ServerError::NotFound),
        }
    }
}

impl Game {
    /// Casts one of the caster's available spells. The spell is consumed
    /// from the available list, its cost is debited and it becomes active
    /// until `now` plus its duration. Every check comes before any change,
    /// so a failed cast leaves the game exactly as it was.
    pub fn cast_spell(&mut self, caster_id: u128, spell_id: &str, target_id: Option<u128>, now: u64) -> (r: Result<(), ServerError>)
        requires
            old(self).wf(),
        ensures
            final(self).wf(),
            spell_cast(*old(self), *final(self), caster_id, spell_id@, target_id, now, r),
    {
        let c = match self.find_player(caster_id) {
            Some(c) => c,
            None => return Err(ServerError::NotFound),
        };
        let wanted: String = spell_id.to_owned();
        let k = match find_spell(&self.players[c].available_spells, &wanted) {
            Some(k) => k,
            None => return Err(ServerError::NotFound),
        };
        let ghost caster = self.players@[c as int];
        assert(first_spell_at(caster.available_spells@, spell_id@, k as int));
        let cost = self.players[c].available_spells[k].cost;
        if self.players[c].score < cost {
            return Err(ServerError::InsufficientScore);
        }
        match target_id {
            Some(t) => {
                if t == caster_id {
                    return Err(ServerError::InvalidTarget);
                }
                if self.find_player(t).is_none() {
                    return Err(ServerError::NotFound);
                }
            },
            None => {},
        }
        let p = &mut self.players[c];
        let spell = p.available_spells.remove(k);
        let expires_at = expiry_time(now, spell.duration_secs);
        p.score = p.score - cost;
        p.active_spells.push(ActiveSpell { spell, expires_at });
        proof {
            assert(self.players@[c as int].id == caster_id);
            assert forall|a: int| 0 <= a < self.players@.len() implies self.players@[a].id
                == old(self).players@[a].id by {
                if a != c {
                    assert(self.players@[a] == old(self).players@[a]);
                }
            }
            assert forall|c2: int, k2: int| 0 <= c2 < old(self).players@.len() && old(self).players@[c2].id == caster_id
                && first_spell_at(old(self).players@[c2].available_spells@, spell_id@, k2)
                implies c2 == c && k2 == k by {
                if c2 != c {
                    assert(ids_unique(old(self).players@));
                }
            }
        }
        Ok(())
    }

    /// The first player, in join order, whose tower reaches the field height.
    pub fn race_winner(&self) -> (r: Option<u128>)
        ensures
            r == first_reaching(self.players@, self.field_height),
    {
        let ghost s = self.players@;
        let mut i: usize = 0;
        assert(s.subrange(0, s.len() as int) =~= s);
        while i < self.players.len()
            invariant
                s == self.players@,
                i <= s.len(),
                first_reaching(s, self.field_height) == first_reaching(s.subrange(i as int, s.len() as int), self.field_height),
            decreases s.len() - i,
        {
            assert(s.subrange(i as int, s.len() as int).drop_first() =~= s.subrange(i + 1, s.len() as int));
            if self.players[i].tower_height as usize >= self.field_height {
                return Some(self.players[i].id);
            }
            i = i + 1;
        }
        None
    }

    /// The sole player left with a standing tower, once the game has had
    /// more than one player.
    pub fn survival_winner(&self) -> (r: Option<u128>)
        ensures
            r == (if self.peak_players > 1 && count_standing(self.players@) == 1 {
                last_standing(self.players@)
            } else {
                None
            }),
    {
        let ghost s = self.players@;
        let mut count: usize = 0;
        let mut last: Option<u128> = None;
        let mut i: usize = 0;
        while i < self.players.len()
            invariant
                s == self.players@,
                i <= s.len(),
                count as nat == count_standing(s.subrange(0, i as int)),
                count <= i,
                last == last_standing(s.subrange(0, i as int)),
            decreases s.len() - i,
        {
            assert(s.subrange(0, i + 1).drop_last() =~= s.subrange(0, i as int));
            if self.players[i].tower_height > 0 {
                count = count + 1;
                last = Some(self.players[i].id);
            }
            i = i + 1;
        }
        assert(s.subrange(0, s.len() as int) =~= s);
        if self.peak_players > 1 && count == 1 {
            last
        } else {
            None
        }
    }

    /// The winner that the mode's win condition names now, if any.
    pub fn check_winner(&self) -> (r: Option<u128>)
        ensures
            r == winner_of(self.game_type, self.players@, self.peak_players, self.field_height),
    {
        match self.game_type {
            GameType::Race => self.race_winner(),
            GameType::Survival => self.survival_winner(),
            GameType::Puzzle => None,
        }
    }

    /// One tick of a running game: lapsed spells are dropped and, when the
    /// mode's win condition names a winner, the game finishes with it.
    /// A game that is not running is left alone.
    pub fn update(&mut self, now: u64) -> (winner: Option<u128>)
        requires
            old(self).wf(),
        ensures
            final(self).wf(),
            ticked(*old(self), *final(self), now),
            winner == (if old(self).state == GameState::Running {
                winner_of(old(self).game_type, old(self).players@, old(self).peak_players, old(self).field_height)
            } else {
                None
            }),
    {
        if self.state != GameState::Running {
            return None;
        }
        let winner = self.check_winner();
        let n = self.players.len();
        let mut i: usize = 0;
        while i < n
            invariant
                n == old(self).players@.len(),
                self.players@.len() == n,
                i <= n,
                (Game { players: self.players, ..*old(self) }) == *self,
                forall|j: int| 0 <= j < i ==> {
                    &&& self.players@[j].active_spells@ == unexpired(old(self).players@[j].active_spells@, now)
                    &&& (Player { active_spells: self.players@[j].active_spells, ..old(self).players@[j] }) == self.players@[j]
                },
                forall|j: int| i <= j < n ==> self.players@[j] == old(self).players@[j],
            decreases n - i,
        {
            self.players[i].update_spells(now);
            i = i + 1;
        }
        assert forall|a: int| 0 <= a < n implies self.players@[a].id == old(self).players@[a].id by {
            assert((Player { active_spells: self.players@[a].active_spells, ..old(self).players@[a] }) == self.players@[a]);
        }
        if winner.is_some() {
            self.state = GameState::Finished;
            self.finished_at = Some(now);
            self.winner_id = winner;
        }
        winner
    }
}

/// The lifecycle: a fresh game can only be started; a running game can be
/// paused or finished but not started or resumed; a finished game admits no
/// change of state, no new player and no play.
pub proof fn lemma_lifecycle(g: Game)
    ensures
        g.state == GameState::Waiting ==> !g.spec_can_pause() && !g.spec_can_resume() && !g.spec_can_finish()
            && !g.spec_can_play() && (g.spec_can_start() <==> g.players@.len() > 0),
        g.state == GameState::Running ==> !g.spec_can_start() && !g.spec_can_resume() && g.spec_can_pause()
            && g.spec_can_finish() && !g.spec_can_join(),
        g.state == GameState::Finished ==> !g.spec_can_start() && !g.spec_can_pause() && !g.spec_can_resume()
            && !g.spec_can_finish() && !g.spec_can_join() && !g.spec_can_play(),
{
}

/// A spell cast is all or nothing: on failure the game is exactly as before;
/// on success the caster's score drops by exactly the spell's cost, the spell
/// leaves the available list and joins the active ones.
pub proof fn lemma_spell_cast_atomic(
    before: Game,
    after: Game,
    caster_id: u128,
    spell_id: Seq<char>,
    target_id: Option<u128>,
    now: u64,
    r: Result<(), ServerError>,
)
    requires
        before.wf(),
        spell_cast(before, after, caster_id, spell_id, target_id, now, r),
    ensures
        r is Err ==> after == before,
        r is Ok ==> exists|c: int, k: int| {
            &&& 0 <= c < before.players@.len()
            &&& before.players@[c].id == caster_id
            &&& first_spell_at(before.players@[c].available_spells@, spell_id, k)
            &&& after.players@[c].score == before.players@[c].score - before.players@[c].available_spells@[k].cost
            &&& after.players@[c].available_spells@ == before.players@[c].available_spells@.remove(k)
            &&& after.players@[c].active_spells@.last().spell == before.players@[c].available_spells@[k]
        },
{
    if r is Ok {
        if !before.has_player(caster_id) {
            assert(false);
        }
        let c = choose|c: int| 0 <= c < before.players@.len() && before.players@[c].id == caster_id;
        let caster = before.players@[c];
        if !holds_spell(caster.available_spells@, spell_id) {
            assert(false);
        }
        let k0 = choose|k: int| 0 <= k < caster.available_spells@.len() && caster.available_spells@[k].id@ == spell_id;
        let k = first_spell_index(caster.available_spells@, spell_id, k0);
        assert(after.players@[c].score == (Player {
            score: (caster.score - caster.available_spells@[k].cost) as u32,
            available_spells: after.players@[c].available_spells,
            active_spells: after.players@[c].active_spells,
            ..caster
        }).score);
    }
}

/// Some position holds the first spell with an id that `k0` holds.
proof fn first_spell_index(spells: Seq<Spell>, id: Seq<char>, k0: int) -> (k: int)
    requires
        0 <= k0 < spells.len(),
        spells[k0].id@ == id,
    ensures
        first_spell_at(spells, id, k),
    decreases k0,
{
    if exists|j: int| 0 <= j < k0 && spells[j].id@ == id {
        let j = choose|j: int| 0 <= j < k0 && spells[j].id@ == id;
        first_spell_index(spells, id, j)
    } else {
        k0
    }
}

} // verus!
