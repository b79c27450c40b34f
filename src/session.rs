//! Authenticated sessions and their lifetimes. Times are milliseconds.
use std::collections::HashMap;
use vstd::prelude::*;
use vstd::std_specs::iter::IteratorSpec;
use crate::error::ServerError;
use crate::game::expiry;
use crate::game::expiry_time;
use crate::game::GameState;
use crate::game_manager::{player_added, player_removed, GameManager};
use crate::game::Game;
use crate::ids::{fresh_id, random_uuid};

verus! {

broadcast use vstd::std_specs::hash::group_hash_axioms;

/// Settings of the session manager; durations are in seconds.
pub struct SessionConfig {
    pub session_ttl: u64,
    pub cleanup_interval: u64,
    pub max_sessions: usize,
    pub enable_heartbeat: bool,
    pub heartbeat_interval: u64,
    pub inactivity_timeout: u64,
}

impl SessionConfig {
    /// An hour of life, a sweep every five minutes, a thousand sessions,
    /// heartbeat checks every thirty seconds and five minutes of grace.
    pub fn default_config() -> (c: SessionConfig)
        ensures
            c.session_ttl == 3600,
            c.cleanup_interval == 300,
            c.max_sessions == 1000,
            c.enable_heartbeat,
            c.heartbeat_interval == 30,
            c.inactivity_timeout == 300,
    {
        SessionConfig {
            session_ttl: 3600,
            cleanup_interval: 300,
            max_sessions: 1000,
            enable_heartbeat: true,
            heartbeat_interval: 30,
            inactivity_timeout: 300,
        }
    }
}

impl Default for SessionConfig {
    fn default() -> (c: SessionConfig)
        ensures
            c.session_ttl == 3600,
            c.cleanup_interval == 300,
            c.max_sessions == 1000,
            c.enable_heartbeat,
            c.heartbeat_interval == 30,
            c.inactivity_timeout == 300,
    {
        SessionConfig::default_config()
    }
}

#[derive(Clone, Copy, Debug, PartialEq, Eq, Structural)]
pub enum UserRole {
    Guest,
    Player,
    Spectator,
    Admin,
}

/// Whether something last touched at `last` has been idle for less than
/// `timeout_secs` at `now`.
pub open spec fn recently_active(last: u64, timeout_secs: u64, now: u64) -> bool {
    now <= last || now - last < timeout_secs * 1000
}

fn was_recently_active(last: u64, timeout_secs: u64, now: u64) -> (r: bool)
    ensures
        r == recently_active(last, timeout_secs, now),
{
    if now <= last {
        return true;
    }
    let idle = now - last;
    let idle_secs = idle / 1000;
    assert(idle < timeout_secs * 1000 <==> idle_secs < timeout_secs) by (nonlinear_arith)
        requires
            idle_secs == idle / 1000,
    ;
    idle_secs < timeout_secs
}

pub struct User {
    pub id: u128,
    pub name: String,
    pub role: UserRole,
    pub created_at: u64,
    pub last_activity: u64,
}

impl User {
    pub fn new(id: u128, name: String, role: UserRole, now: u64) -> (u: User)
        ensures
            u.id == id,
            u.name@ == name@,
            u.role == role,
            u.created_at == now,
            u.last_activity == now,
    {
        User { id, name, role, created_at: now, last_activity: now }
    }

    pub fn update_activity(&mut self, now: u64)
        ensures
            *final(self) == (User { last_activity: now, ..*old(self) }),
    {
        self.last_activity = now;
    }

    pub fn is_active(&self, inactivity_timeout: u64, now: u64) -> (r: bool)
        ensures
            r == recently_active(self.last_activity, inactivity_timeout, now),
    {
        was_recently_active(self.last_activity, inactivity_timeout, now)
    }
}

pub struct Session {
    pub id: u128,
    pub user: User,
    /// The game the session's user plays in, if any.
    pub game_id: Option<u128>,
    pub created_at: u64,
    pub expires_at: u64,
    pub last_activity: u64,
}

impl Session {
    pub open spec fn spec_is_expired(&self, now: u64) -> bool {
        now > self.expires_at
    }

    pub open spec fn spec_is_active(&self, inactivity_timeout: u64, now: u64) -> bool {
        !self.spec_is_expired(now) && recently_active(self.last_activity, inactivity_timeout, now)
    }

    /// A session that lives `ttl` seconds from `now`.
    pub fn new(id: u128, user: User, ttl: u64, now: u64) -> (s: Session)
        ensures
            s.id == id,
            s.user == user,
            s.game_id is None,
            s.created_at == now,
            s.expires_at == expiry(now, ttl),
            s.last_activity == now,
    {
        Session { id, user, game_id: None, created_at: now, expires_at: expiry_time(now, ttl), last_activity: now }
    }

    pub fn update_activity(&mut self, now: u64)
        ensures
            *final(self) == (Session {
                last_activity: now,
                user: User { last_activity: now, ..old(self).user },
                ..*old(self)
            }),
    {
        self.last_activity = now;
        self.user.update_activity(now);
    }

    /// Pushes the expiry to `ttl` seconds from `now` and records activity.
    pub fn extend(&mut self, ttl: u64, now: u64)
        ensures
            *final(self) == (Session {
                expires_at: expiry(now, ttl),
                last_activity: now,
                user: User { last_activity: now, ..old(self).user },
                ..*old(self)
            }),
    {
        self.expires_at = expiry_time(now, ttl);
        self.update_activity(now);
    }

    pub fn is_expired(&self, now: u64) -> (r: bool)
        ensures
            r == self.spec_is_expired(now),
    {
        now > self.expires_at
    }

    pub fn is_active(&self, inactivity_timeout: u64, now: u64) -> (r: bool)
        ensures
            r == self.spec_is_active(inactivity_timeout, now),
    {
        if self.is_expired(now) {
            return false;
        }
        was_recently_active(self.last_activity, inactivity_timeout, now)
    }

    pub fn join_game(&mut self, game_id: u128, now: u64)
        ensures
            *final(self) == (Session {
                game_id: Some(game_id),
                last_activity: now,
                user: User { last_activity: now, ..old(self).user },
                ..*old(self)
            }),
    {
        self.game_id = Some(game_id);
        self.update_activity(now);
    }

    pub fn leave_game(&mut self, now: u64)
        ensures
            *final(self) == (Session {
                game_id: None,
                last_activity: now,
                user: User { last_activity: now, ..old(self).user },
                ..*old(self)
            }),
    {
        self.game_id = None;
        self.update_activity(now);
    }
}

/// The sessions of a table that are not expired at `now`.
pub open spec fn live_sessions(m: Map<u128, Session>, now: u64) -> Map<u128, Session> {
    m.restrict(m.dom().filter(|id: u128| !m[id].spec_is_expired(now)))
}

/// What leaving the game `game` does to the game table for the user `user_id`:
/// the user is taken off that game's roster, if the game is still there.
pub open spec fn left_game(before: Map<u128, Game>, after: Map<u128, Game>, game: Option<u128>, user_id: u128) -> bool {
    match game {
        Some(g) => if before.contains_key(g) {
            GameManager::only_changed(before, after, g) && player_removed(before[g], after[g], user_id)
        } else {
            after == before
        },
        None => after == before,
    }
}

/// Taking a player off one roster leaves every other player's absence as it was.
pub proof fn lemma_left_game_keeps_absence(
    before: Map<u128, Game>,
    after: Map<u128, Game>,
    game: Option<u128>,
    user_id: u128,
    g: u128,
    x: u128,
)
    requires
        left_game(before, after, game, user_id),
        before.contains_key(g),
        !before[g].has_player(x),
    ensures
        after.contains_key(g),
        !after[g].has_player(x),
{
    if game == Some(g) {
        let b = before[g];
        let a = after[g];
        if b.has_player(user_id) {
            let i = choose|i: int| 0 <= i < b.players@.len() && b.players@[i].id == user_id;
            assert(a.players@ == b.players@.remove(i));
            assert forall|k: int| 0 <= k < a.players@.len() implies a.players@[k].id != x by {
                if k < i {
                    assert(a.players@[k] == b.players@[k]);
                } else {
                    assert(a.players@[k] == b.players@[k + 1]);
                }
            }
        }
    }
}

/// A session just opened at `now` for a new user `user_name` with `role`.
pub open spec fn fresh_session(s: Session, user_name: Seq<char>, role: UserRole, now: u64, ttl: u64) -> bool {
    &&& s.user.name@ == user_name
    &&& s.user.role == role
    &&& s.user.created_at == now
    &&& s.user.last_activity == now
    &&& s.game_id is None
    &&& s.created_at == now
    &&& s.last_activity == now
    &&& s.expires_at == expiry(now, ttl)
}

/// What joining the game `game_id` does for the session `session_id`: the
/// outcome, the session table and the game table.
pub open spec fn joined(
    before: SessionManager,
    after: SessionManager,
    session_id: u128,
    game_id: u128,
    now: u64,
    r: Result<(), ServerError>,
) -> bool {
    &&& !before.sessions@.contains_key(session_id) ==> r == Err::<(), ServerError>(ServerError::NotFound)
    &&& before.sessions@.contains_key(session_id) && !before.game_manager.games@.contains_key(game_id)
        ==> r == Err::<(), ServerError>(ServerError::NotFound)
    &&& before.sessions@.contains_key(session_id) && before.game_manager.games@.contains_key(game_id) ==> {
        let s = before.sessions@[session_id];
        let g = before.game_manager.games@[game_id];
        &&& s.game_id == Some(game_id) ==> r is Ok && after.same_tables(&before)
        &&& s.game_id != Some(game_id) && g.players@.len() >= g.max_players
            ==> r == Err::<(), ServerError>(ServerError::GameFull)
        &&& s.game_id != Some(game_id) && g.players@.len() < g.max_players && g.state != GameState::Waiting
            ==> r == Err::<(), ServerError>(ServerError::InvalidState)
        &&& s.game_id != Some(game_id) && g.spec_can_join() ==> {
            &&& r is Ok
            &&& after.sessions@ == before.sessions@.insert(session_id, Session {
                game_id: Some(game_id),
                last_activity: now,
                user: User { last_activity: now, ..s.user },
                ..s
            })
            &&& after.game_manager.games@.dom() == before.game_manager.games@.dom()
            &&& player_added(g, after.game_manager.games@[game_id], s.user.id, s.user.name@)
            &&& forall|k: u128| #[trigger] before.game_manager.games@.contains_key(k) && k != game_id
                && s.game_id != Some(k) ==> after.game_manager.games@[k] == before.game_manager.games@[k]
            &&& forall|other: u128| s.game_id == Some(other) && before.game_manager.games@.contains_key(other)
                ==> player_removed(before.game_manager.games@[other], after.game_manager.games@[other], s.user.id)
        }
    }
    &&& r is Err ==> after.same_tables(&before)
}

/// Owns every session, and the game manager that sessions join games through.
pub struct SessionManager {
    pub config: SessionConfig,
    pub game_manager: GameManager,
    pub sessions: HashMap<u128, Session>,
}

impl SessionManager {
    pub open spec fn wf(&self) -> bool {
        &&& self.game_manager.wf()
        &&& forall|id: u128| #[trigger] self.sessions@.contains_key(id) ==> self.sessions@[id].id == id
    }

    pub fn new(config: SessionConfig, game_manager: GameManager) -> (m: SessionManager)
        requires
            game_manager.wf(),
        ensures
            m.wf(),
            m.config == config,
            m.game_manager == game_manager,
            m.sessions@ == Map::<u128, Session>::empty(),
    {
        SessionManager { config, game_manager, sessions: HashMap::new() }
    }

    /// Both tables hold the same entries.
    pub open spec fn same_tables(&self, other: &SessionManager) -> bool {
        &&& self.sessions@ == other.sessions@
        &&& self.game_manager.games@ == other.game_manager.games@
    }

    pub fn game_manager(&self) -> (r: &GameManager)
        ensures
            *r == self.game_manager,
    {
        &self.game_manager
    }

    /// Opens a session under `session_id` for a new user `user_id`.
    pub fn create_session_with_ids(
        &mut self,
        session_id: u128,
        user_id: u128,
        user_name: String,
        role: UserRole,
        now: u64,
    ) -> (r: Result<u128, ServerError>)
        requires
            old(self).wf(),
        ensures
            final(self).wf(),
            final(self).config == old(self).config,
            final(self).game_manager == old(self).game_manager,
            r is Err ==> final(self).sessions@ == old(self).sessions@,
            old(self).sessions@.len() >= old(self).config.max_sessions ==> r == Err::<u128, ServerError>(ServerError::CapacityExceeded),
            old(self).sessions@.len() < old(self).config.max_sessions && old(self).sessions@.contains_key(session_id)
                ==> r == Err::<u128, ServerError>(ServerError::Internal),
            old(self).sessions@.len() < old(self).config.max_sessions && !old(self).sessions@.contains_key(session_id) ==> {
                let s = final(self).sessions@[session_id];
                &&& r == Ok::<u128, ServerError>(session_id)
                &&& final(self).sessions@ == old(self).sessions@.insert(session_id, s)
                &&& s.id == session_id
                &&& s.user.id == user_id
                &&& fresh_session(s, user_name@, role, now, old(self).config.session_ttl)
            },
    {
        if self.sessions.len() >= self.config.max_sessions {
            return Err(ServerError::CapacityExceeded);
        }
        if self.sessions.contains_key(&session_id) {
            return Err(ServerError::Internal);
        }
        let user = User::new(user_id, user_name, role, now);
        let session = Session::new(session_id, user, self.config.session_ttl, now);
        self.sessions.insert(session_id, session);
        Ok(session_id)
    }

    /// Opens a session for a new user under random ids; a drawn session id
    /// that is taken gives way to the smallest free one, so only a full table
    /// refuses.
    pub fn create_session(&mut self, user_name: String, role: UserRole, now: u64) -> (r: Result<u128, ServerError>)
        requires
            old(self).wf(),
        ensures
            final(self).wf(),
            final(self).game_manager == old(self).game_manager,
            final(self).config == old(self).config,
            old(self).sessions@.len() >= old(self).config.max_sessions ==> r == Err::<u128, ServerError>(ServerError::CapacityExceeded),
            match r {
                Ok(id) => !old(self).sessions@.contains_key(id)
                    && final(self).sessions@ == old(self).sessions@.insert(id, final(self).sessions@[id])
                    && final(self).sessions@[id].id == id
                    && fresh_session(final(self).sessions@[id], user_name@, role, now, old(self).config.session_ttl),
                Err(e) => e == ServerError::CapacityExceeded && final(self).sessions@ == old(self).sessions@,
            },
            r is Err <==> old(self).sessions@.len() >= old(self).config.max_sessions,
    {
        let session_id = fresh_id(&self.sessions, random_uuid());
        let user_id = random_uuid();
        self.create_session_with_ids(session_id, user_id, user_name, role, now)
    }

    /// The session under `id`, unless it is absent or expired at `now`.
    pub fn get_session(&self, id: u128, now: u64) -> (r: Result<&Session, ServerError>)
        ensures
            match r {
                Ok(s) => self.sessions@.contains_key(id) && *s == self.sessions@[id] && !s.spec_is_expired(now),
                Err(e) => e == ServerError::NotFound
                    && (!self.sessions@.contains_key(id) || self.sessions@[id].spec_is_expired(now)),
            },
    {
        match self.sessions.get(&id) {
            Some(s) => {
                if s.is_expired(now) {
                    Err(ServerError::NotFound)
                } else {
                    Ok(s)
                }
            },
            None => Err(ServerError::NotFound),
        }
    }

    /// Records activity on a session.
    pub fn update_session_activity(&mut self, id: u128, now: u64) -> (r: Result<(), ServerError>)
        requires
            old(self).wf(),
        ensures
            final(self).wf(),
            final(self).game_manager == old(self).game_manager,
            final(self).config == old(self).config,
            r is Ok <==> old(self).sessions@.contains_key(id),
            r is Err ==> r == Err::<(), ServerError>(ServerError::NotFound) && final(self).sessions@ == old(self).sessions@,
            r is Ok ==> final(self).sessions@ == old(self).sessions@.insert(id, Session {
                last_activity: now,
                user: User { last_activity: now, ..old(self).sessions@[id].user },
                ..old(self).sessions@[id]
            }),
    {
        let mut s = match self.sessions.remove(&id) {
            Some(s) => s,
            None => return Err(ServerError::NotFound),
        };
        s.update_activity(now);
        self.sessions.insert(id, s);
        assert(self.sessions@ =~= old(self).sessions@.insert(id, self.sessions@[id]));
        Ok(())
    }

    /// Renews a session for another `session_ttl` seconds from `now`.
    pub fn extend_session(&mut self, id: u128, now: u64) -> (r: Result<(), ServerError>)
        requires
            old(self).wf(),
        ensures
            final(self).wf(),
            final(self).game_manager == old(self).game_manager,
            final(self).config == old(self).config,
            r is Ok <==> old(self).sessions@.contains_key(id),
            r is Err ==> r == Err::<(), ServerError>(ServerError::NotFound) && final(self).sessions@ == old(self).sessions@,
            r is Ok ==> final(self).sessions@ == old(self).sessions@.insert(id, Session {
                expires_at: expiry(now, old(self).config.session_ttl),
                last_activity: now,
                user: User { last_activity: now, ..old(self).sessions@[id].user },
                ..old(self).sessions@[id]
            }),
    {
        let mut s = match self.sessions.remove(&id) {
            Some(s) => s,
            None => return Err(ServerError::NotFound),
        };
        s.extend(self.config.session_ttl, now);
        self.sessions.insert(id, s);
        assert(self.sessions@ =~= old(self).sessions@.insert(id, self.sessions@[id]));
        Ok(())
    }
}

impl SessionManager {
    /// Puts the session's user into a game. A session that is already in
    /// that game is left as it is; one that is in another game leaves it
    /// first. Every check comes before the leave, so a join that fails
    /// changes nothing.
    pub fn join_game(&mut self, session_id: u128, game_id: u128, now: u64) -> (r: Result<(), ServerError>)
        requires
            old(self).wf(),
        ensures
            final(self).wf(),
            final(self).config == old(self).config,
            joined(*old(self), *final(self), session_id, game_id, now, r),
            old(self).sessions@.contains_key(session_id) && old(self).sessions@[session_id].game_id == Some(game_id)
                && old(self).game_manager.games@.contains_key(game_id) ==> *final(self) == *old(self),
            r is Err ==> *final(self) == *old(self),
    {
        let s = match self.sessions.get(&session_id) {
            Some(s) => s,
            None => return Err(ServerError::NotFound),
        };
        let g = match self.game_manager.games.get(&game_id) {
            Some(g) => g,
            None => return Err(ServerError::NotFound),
        };
        if s.game_id == Some(game_id) {
            return Ok(());
        }
        if g.players.len() >= g.max_players {
            return Err(ServerError::GameFull);
        }
        if g.state != GameState::Waiting {
            return Err(ServerError::InvalidState);
        }
        let user_id = s.user.id;
        let user_name = s.user.name.clone();
        let previous = s.game_id;
        match previous {
            Some(other) => {
                let _ = self.game_manager.remove_player_from_game(other, user_id);
            },
            None => {},
        }
        let mut session = self.sessions.remove(&session_id).unwrap();
        match self.game_manager.add_player_to_game(game_id, user_id, user_name) {
            Ok(_) => {
                session.join_game(game_id, now);
                self.sessions.insert(session_id, session);
                assert(self.sessions@ =~= old(self).sessions@.insert(session_id, self.sessions@[session_id]));
                assert(self.game_manager.games@.dom() =~= old(self).game_manager.games@.dom());
                Ok(())
            },
            Err(e) => {
                session.leave_game(now);
                self.sessions.insert(session_id, session);
                Err(e)
            },
        }
    }

    /// Takes the session's user out of its game, if any; a game already gone
    /// is no error.
    pub fn leave_game(&mut self, session_id: u128, now: u64) -> (r: Result<(), ServerError>)
        requires
            old(self).wf(),
        ensures
            final(self).wf(),
            final(self).config == old(self).config,
            r is Ok <==> old(self).sessions@.contains_key(session_id),
            r is Err ==> r == Err::<(), ServerError>(ServerError::NotFound) && *final(self) == *old(self),
            r is Ok ==> {
                let s = old(self).sessions@[session_id];
                &&& s.game_id is None ==> *final(self) == *old(self)
                &&& s.game_id is Some ==> final(self).sessions@ == old(self).sessions@.insert(session_id, Session {
                    game_id: None,
                    last_activity: now,
                    user: User { last_activity: now, ..s.user },
                    ..s
                })
                &&& left_game(old(self).game_manager.games@, final(self).game_manager.games@, s.game_id, s.user.id)
            },
    {
        let s = match self.sessions.get(&session_id) {
            Some(s) => s,
            None => return Err(ServerError::NotFound),
        };
        match s.game_id {
            Some(g) => {
                let user_id = s.user.id;
                let _ = self.game_manager.remove_player_from_game(g, user_id);
                let mut session = self.sessions.remove(&session_id).unwrap();
                session.leave_game(now);
                self.sessions.insert(session_id, session);
                assert(self.sessions@ =~= old(self).sessions@.insert(session_id, self.sessions@[session_id]));
                assert(self.game_manager.games@.dom() =~= old(self).game_manager.games@.dom());
                Ok(())
            },
            None => Ok(()),
        }
    }

    /// Closes a session, taking its user out of its game first.
    pub fn delete_session(&mut self, session_id: u128) -> (r: Result<(), ServerError>)
        requires
            old(self).wf(),
        ensures
            final(self).wf(),
            final(self).config == old(self).config,
            r is Ok <==> old(self).sessions@.contains_key(session_id),
            r is Err ==> r == Err::<(), ServerError>(ServerError::NotFound) && *final(self) == *old(self),
            r is Ok ==> {
                let s = old(self).sessions@[session_id];
                &&& final(self).sessions@ == old(self).sessions@.remove(session_id)
                &&& left_game(old(self).game_manager.games@, final(self).game_manager.games@, s.game_id, s.user.id)
            },
    {
        let s = match self.sessions.get(&session_id) {
            Some(s) => s,
            None => return Err(ServerError::NotFound),
        };
        match s.game_id {
            Some(g) => {
                let user_id = s.user.id;
                let _ = self.game_manager.remove_player_from_game(g, user_id);
            },
            None => {},
        }
        self.sessions.remove(&session_id);
        Ok(())
    }

    /// The ids of all sessions, each once.
    pub fn session_ids(&self) -> (r: Vec<u128>)
        ensures
            r@.to_set() == self.sessions@.dom(),
            r@.no_duplicates(),
    {
        let mut r: Vec<u128> = Vec::new();
        for k in it: self.sessions.keys()
            invariant
                r@.len() == it.index(),
                forall|i: int| 0 <= i < it.index() ==> r@[i] == *it.seq()[i],
        {
            r.push(*k);
        }
        assert(r@ =~= vstd::std_specs::hash::spec_keys_iter(&self.sessions).remaining().unref());
        r
    }
}

impl SessionManager {
    /// The reaper's pass: every session expired at `now` is taken out of its
    /// game and closed. Hands back the ids of the closed sessions.
    pub fn cleanup_expired(&mut self, now: u64) -> (removed: Vec<u128>)
        requires
            old(self).wf(),
        ensures
            final(self).wf(),
            final(self).config == old(self).config,
            final(self).sessions@ == live_sessions(old(self).sessions@, now),
            final(self).game_manager.games@.dom() == old(self).game_manager.games@.dom(),
            forall|id: u128| #[trigger] removed@.contains(id) <==> old(self).sessions@.contains_key(id)
                && old(self).sessions@[id].spec_is_expired(now),
            forall|id: u128, g: u128|
                #![trigger removed@.contains(id), old(self).game_manager.games@.contains_key(g)]
                removed@.contains(id) && old(self).sessions@[id].game_id == Some(g)
                && old(self).game_manager.games@.contains_key(g)
                ==> !final(self).game_manager.games@[g].has_player(old(self).sessions@[id].user.id),
    {
        let ids = self.session_ids();
        let mut removed: Vec<u128> = Vec::new();
        let mut i: usize = 0;
        while i < ids.len()
            invariant
                self.wf(),
                self.config == old(self).config,
                ids@.to_set() == old(self).sessions@.dom(),
                ids@.no_duplicates(),
                i <= ids@.len(),
                self.game_manager.games@.dom() == old(self).game_manager.games@.dom(),
                forall|id: u128| #[trigger] self.sessions@.contains_key(id) ==> old(self).sessions@.contains_key(id)
                    && self.sessions@[id] == old(self).sessions@[id],
                forall|j: int| 0 <= j < i ==> (#[trigger] self.sessions@.contains_key(ids@[j])
                    <==> !old(self).sessions@[ids@[j]].spec_is_expired(now)),
                forall|j: int| i <= j < ids@.len() ==> #[trigger] self.sessions@.contains_key(ids@[j]),
                forall|x: u128| #[trigger] removed@.contains(x) ==> exists|j: int| 0 <= j < i && ids@[j] == x,
                forall|x: u128| #[trigger] removed@.contains(x) ==> old(self).sessions@[x].spec_is_expired(now),
                forall|j: int| 0 <= j < i && old(self).sessions@[#[trigger] ids@[j]].spec_is_expired(now)
                    ==> removed@.contains(ids@[j]),
                forall|x: u128, g: u128|
                    #![trigger removed@.contains(x), old(self).game_manager.games@.contains_key(g)]
                    removed@.contains(x) && old(self).sessions@[x].game_id == Some(g)
                    && old(self).game_manager.games@.contains_key(g)
                    ==> !self.game_manager.games@[g].has_player(old(self).sessions@[x].user.id),
            decreases ids@.len() - i,
        {
            let id = ids[i];
            let ghost prev = removed@;
            let ghost prev_games = self.game_manager.games@;
            assert(ids@.to_set().contains(id));
            assert forall|j: int| 0 <= j < ids@.len() && j != i implies ids@[j] != id by {}
            let expired = match self.sessions.get(&id) {
                Some(s) => s.is_expired(now),
                None => false,
            };
            if expired {
                let _ = self.delete_session(id);
                removed.push(id);
            }
            proof {
                if expired {
                    let sess = old(self).sessions@[id];
                    assert forall|x: u128, g: u128|
                        #![trigger removed@.contains(x), old(self).game_manager.games@.contains_key(g)]
                        removed@.contains(x) && old(self).sessions@[x].game_id == Some(g)
                        && old(self).game_manager.games@.contains_key(g)
                        implies !self.game_manager.games@[g].has_player(old(self).sessions@[x].user.id) by {
                        if x == id {
                            assert(prev_games.contains_key(g));
                        } else {
                            assert(prev.contains(x));
                            assert(prev_games.contains_key(g));
                            lemma_left_game_keeps_absence(prev_games, self.game_manager.games@, sess.game_id, sess.user.id, g,
                                old(self).sessions@[x].user.id);
                        }
                    }
                }
            }
            proof {
                assert forall|j: int| 0 <= j < i + 1 && old(self).sessions@[#[trigger] ids@[j]].spec_is_expired(now)
                    implies removed@.contains(ids@[j]) by {
                    if j < i {
                        assert(prev.contains(ids@[j]));
                        if expired {
                            let k = choose|k: int| 0 <= k < prev.len() && prev[k] == ids@[j];
                            assert(removed@[k] == ids@[j]);
                        }
                    } else {
                        assert(removed@.last() == id);
                    }
                }
                assert forall|x: u128| #[trigger] removed@.contains(x) implies exists|j: int| 0 <= j < i + 1 && ids@[j] == x by {
                    if x == id {
                        assert(ids@[i as int] == x);
                    } else {
                        assert(prev.contains(x));
                    }
                }
                assert forall|x: u128| #[trigger] removed@.contains(x) implies old(self).sessions@[x].spec_is_expired(now) by {
                    if x != id {
                        assert(prev.contains(x));
                    }
                }
            }
            i = i + 1;
        }
        proof {
            assert forall|id: u128| self.sessions@.contains_key(id) <==> #[trigger] live_sessions(old(self).sessions@, now).contains_key(id) by {
                if old(self).sessions@.contains_key(id) {
                    assert(ids@.to_set().contains(id));
                    let j = choose|j: int| 0 <= j < ids@.len() && ids@[j] == id;
                }
            }
            assert(self.sessions@ =~= live_sessions(old(self).sessions@, now));
            assert forall|id: u128| #[trigger] removed@.contains(id) implies old(self).sessions@.contains_key(id) by {
                let j = choose|j: int| 0 <= j < ids@.len() && ids@[j] == id;
                assert(ids@.to_set().contains(id));
            }
            assert forall|id: u128| old(self).sessions@.contains_key(id) && old(self).sessions@[id].spec_is_expired(now)
                implies #[trigger] removed@.contains(id) by {
                assert(ids@.to_set().contains(id));
                let j = choose|j: int| 0 <= j < ids@.len() && ids@[j] == id;
            }
        }
        removed
    }

    /// The heartbeat check: a live session idle for `inactivity_timeout`
    /// seconds or more has its expiry brought forward to `now`.
    pub fn expire_inactive(&mut self, now: u64)
        requires
            old(self).wf(),
        ensures
            final(self).wf(),
            final(self).config == old(self).config,
            final(self).game_manager == old(self).game_manager,
            final(self).sessions@.dom() == old(self).sessions@.dom(),
            forall|id: u128| #[trigger] old(self).sessions@.contains_key(id) ==> final(self).sessions@[id] == {
                let s = old(self).sessions@[id];
                if !recently_active(s.last_activity, old(self).config.inactivity_timeout, now) && s.expires_at > now {
                    Session { expires_at: now, ..s }
                } else {
                    s
                }
            },
    {
        let ids = self.session_ids();
        let timeout = self.config.inactivity_timeout;
        let mut i: usize = 0;
        while i < ids.len()
            invariant
                self.wf(),
                self.config == old(self).config,
                timeout == old(self).config.inactivity_timeout,
                self.game_manager == old(self).game_manager,
                ids@.to_set() == old(self).sessions@.dom(),
                ids@.no_duplicates(),
                i <= ids@.len(),
                self.sessions@.dom() == old(self).sessions@.dom(),
                forall|j: int| 0 <= j < i ==> self.sessions@[#[trigger] ids@[j]] == {
                    let s = old(self).sessions@[ids@[j]];
                    if !recently_active(s.last_activity, timeout, now) && s.expires_at > now {
                        Session { expires_at: now, ..s }
                    } else {
                        s
                    }
                },
                forall|j: int| i <= j < ids@.len() ==> self.sessions@[#[trigger] ids@[j]] == old(self).sessions@[ids@[j]],
            decreases ids@.len() - i,
        {
            let id = ids[i];
            assert(ids@.to_set().contains(id));
            assert forall|j: int| 0 <= j < ids@.len() && j != i implies ids@[j] != id by {}
            let mut s = self.sessions.remove(&id).unwrap();
            if !was_recently_active(s.last_activity, timeout, now) && s.expires_at > now {
                s.expires_at = now;
            }
            self.sessions.insert(id, s);
            assert(self.sessions@.dom() =~= old(self).sessions@.dom());
            i = i + 1;
        }
        proof {
            assert forall|id: u128| #[trigger] old(self).sessions@.contains_key(id) implies self.sessions@[id] == {
                let s = old(self).sessions@[id];
                if !recently_active(s.last_activity, old(self).config.inactivity_timeout, now) && s.expires_at > now {
                    Session { expires_at: now, ..s }
                } else {
                    s
                }
            } by {
                assert(ids@.to_set().contains(id));
                let j = choose|j: int| 0 <= j < ids@.len() && ids@[j] == id;
            }
        }
    }

    /// Every session that is not expired at `now`.
    pub fn get_active_sessions(&self, now: u64) -> (r: Vec<&Session>)
        requires
            self.wf(),
        ensures
            forall|i: int| 0 <= i < r@.len() ==> {
                &&& self.sessions@.contains_key(r@[i].id)
                &&& self.sessions@[r@[i].id] == *r@[i]
                &&& !r@[i].spec_is_expired(now)
            },
            forall|id: u128| #[trigger] self.sessions@.contains_key(id) && !self.sessions@[id].spec_is_expired(now)
                ==> exists|i: int| 0 <= i < r@.len() && r@[i].id == id,
    {
        let ids = self.session_ids();
        let mut r: Vec<&Session> = Vec::new();
        let mut i: usize = 0;
        while i < ids.len()
            invariant
                self.wf(),
                ids@.to_set() == self.sessions@.dom(),
                i <= ids@.len(),
                forall|k: int| 0 <= k < r@.len() ==> {
                    &&& self.sessions@.contains_key(r@[k].id)
                    &&& self.sessions@[r@[k].id] == *r@[k]
                    &&& !r@[k].spec_is_expired(now)
                },
                forall|j: int| 0 <= j < i && !self.sessions@[#[trigger] ids@[j]].spec_is_expired(now)
                    ==> exists|k: int| 0 <= k < r@.len() && r@[k].id == ids@[j],
            decreases ids@.len() - i,
        {
            let id = ids[i];
            assert(ids@.to_set().contains(id));
            let ghost prev = r@;
            let s = self.sessions.get(&id).unwrap();
            if !s.is_expired(now) {
                r.push(s);
            }
            proof {
                assert forall|j: int| 0 <= j < i + 1 && !self.sessions@[#[trigger] ids@[j]].spec_is_expired(now)
                    implies exists|k: int| 0 <= k < r@.len() && r@[k].id == ids@[j] by {
                    if j < i {
                        let k = choose|k: int| 0 <= k < prev.len() && prev[k].id == ids@[j];
                        assert(r@[k] == prev[k]);
                    } else {
                        assert(r@[r@.len() - 1].id == id);
                    }
                }
            }
            i = i + 1;
        }
        proof {
            assert forall|id: u128| #[trigger] self.sessions@.contains_key(id) && !self.sessions@[id].spec_is_expired(now)
                implies exists|i: int| 0 <= i < r@.len() && r@[i].id == id by {
                assert(ids@.to_set().contains(id));
                let j = choose|j: int| 0 <= j < ids@.len() && ids@[j] == id;
            }
        }
        r
    }

    /// Every session, expired or not.
    pub fn get_all_sessions(&self) -> (r: Vec<&Session>)
        requires
            self.wf(),
        ensures
            forall|i: int| 0 <= i < r@.len() ==> self.sessions@.contains_key(r@[i].id) && self.sessions@[r@[i].id] == *r@[i],
            forall|id: u128| #[trigger] self.sessions@.contains_key(id) ==> exists|i: int| 0 <= i < r@.len() && r@[i].id == id,
    {
        let ids = self.session_ids();
        let mut r: Vec<&Session> = Vec::new();
        let mut i: usize = 0;
        while i < ids.len()
            invariant
                self.wf(),
                ids@.to_set() == self.sessions@.dom(),
                i <= ids@.len(),
                forall|k: int| 0 <= k < r@.len() ==> self.sessions@.contains_key(r@[k].id) && self.sessions@[r@[k].id] == *r@[k],
                r@.len() == i,
                forall|j: int| 0 <= j < i ==> r@[j].id == ids@[j],
            decreases ids@.len() - i,
        {
            let id = ids[i];
            assert(ids@.to_set().contains(id));
            let s = self.sessions.get(&id).unwrap();
            r.push(s);
            i = i + 1;
        }
        proof {
            assert forall|id: u128| #[trigger] self.sessions@.contains_key(id) implies exists|i: int| 0 <= i < r@.len() && r@[i].id == id by {
                assert(ids@.to_set().contains(id));
                let j = choose|j: int| 0 <= j < ids@.len() && ids@[j] == id;
                assert(r@[j].id == id);
            }
        }
        r
    }
}

/// After the reaper has run at `now`, no session that is expired at `now`
/// is left, so none can show among the active ones.
pub proof fn lemma_reaper_leaves_no_expired(m: Map<u128, Session>, now: u64)
    ensures
        forall|id: u128| #[trigger] live_sessions(m, now).contains_key(id) ==> !live_sessions(m, now)[id].spec_is_expired(now),
        forall|id: u128| m.contains_key(id) && m[id].spec_is_expired(now) ==> !(#[trigger] live_sessions(m, now).contains_key(id)),
        forall|id: u128| m.contains_key(id) && !m[id].spec_is_expired(now) ==> #[trigger] live_sessions(m, now).contains_key(id)
            && live_sessions(m, now)[id] == m[id],
{
}

} // verus!
