//! Delegated-agent sessions: a user starts a time-limited session for an
//! agent key (after a zero-knowledge proof has been checked), can end it at
//! any time, and other contracts ask whether it is live.
use crate::pool::AccountId;
use std::collections::HashMap;
use vstd::prelude::*;

verus! {

broadcast use vstd::std_specs::hash::group_hash_axioms;

/// Longest session, in ledgers (about a day).
pub const MAX_SESSION_LEDGERS: u32 = 17280;

/// Shortest session, in ledgers (about an hour).
pub const MIN_SESSION_LEDGERS: u32 = 720;

#[derive(Clone, Copy, Debug, PartialEq, Eq, Structural)]
pub enum Error {
    NotInitialized,
    AlreadyInitialized,
    InvalidSessionDuration,
    ProofVerificationFailed,
    NoActiveSession,
    SessionExpired,
    ArithmeticOverflow,
}

#[derive(Clone, Copy, Debug, PartialEq, Eq)]
pub struct Session {
    pub session_id: u64,
    pub agent_pubkey: [u8; 32],
    pub poseidon_hash: [u8; 32],
    pub expires_at_ledger: u32,
    pub created_at_ledger: u32,
    pub nonce: u64,
}

/// The abstract state of the session registry.
pub ghost struct AuthModel {
    pub sessions: Map<AccountId, Session>,
    pub counters: Map<AccountId, u64>,
}

impl AuthModel {
    /// Number of sessions `user` has started so far.
    pub open spec fn counter_of(self, user: AccountId) -> int {
        if self.counters.contains_key(user) {
            self.counters[user] as int
        } else {
            0
        }
    }

    /// Whether `user` has a session that is live at ledger `now`.
    pub open spec fn live(self, user: AccountId, now: u32) -> bool {
        self.sessions.contains_key(user) && now < self.sessions[user].expires_at_ledger
    }

    /// Why `start_session` fails, if it does.
    pub open spec fn start_error(self, user: AccountId, duration: u32, proof_verified: bool, now: u32) -> Option<
        Error,
    > {
        if duration < MIN_SESSION_LEDGERS || duration > MAX_SESSION_LEDGERS {
            Some(Error::InvalidSessionDuration)
        } else if !proof_verified {
            Some(Error::ProofVerificationFailed)
        } else if self.counter_of(user) + 1 > u64::MAX {
            Some(Error::ArithmeticOverflow)
        } else if now + duration > u32::MAX {
            Some(Error::ArithmeticOverflow)
        } else {
            None
        }
    }

    /// The registry after `user` starts a session, replacing any earlier one.
    pub open spec fn started(
        self,
        user: AccountId,
        agent_pubkey: [u8; 32],
        poseidon_hash: [u8; 32],
        duration: u32,
        now: u32,
    ) -> AuthModel {
        let id = (self.counter_of(user) + 1) as u64;
        AuthModel {
            sessions: self.sessions.insert(
                user,
                Session {
                    session_id: id,
                    agent_pubkey,
                    poseidon_hash,
                    expires_at_ledger: (now + duration) as u32,
                    created_at_ledger: now,
                    nonce: 0,
                },
            ),
            counters: self.counters.insert(user, id),
        }
    }
}

pub struct ZKAuth {
    pub sessions: HashMap<AccountId, Session>,
    pub session_counters: HashMap<AccountId, u64>,
}

impl View for ZKAuth {
    type V = AuthModel;

    open spec fn view(&self) -> AuthModel {
        AuthModel { sessions: self.sessions@, counters: self.session_counters@ }
    }
}

impl ZKAuth {
    /// A registry with no session.
    pub fn initialize() -> (z: ZKAuth)
        ensures
            z@.sessions.is_empty(),
            z@.counters.is_empty(),
    {
        ZKAuth { sessions: HashMap::new(), session_counters: HashMap::new() }
    }

    /// Starts a session of `session_duration_ledgers` from `current_ledger`
    /// for `agent_pubkey`, replacing any session `user` had; `proof_verified`
    /// is the verdict on the user's proof. Returns the new session id.
    pub fn start_session(
        &mut self,
        user: AccountId,
        agent_pubkey: [u8; 32],
        poseidon_hash: [u8; 32],
        session_duration_ledgers: u32,
        proof_verified: bool,
        current_ledger: u32,
    ) -> (r: Result<u64, Error>)
        ensures
            r is Err <==> old(self)@.start_error(
                user,
                session_duration_ledgers,
                proof_verified,
                current_ledger,
            ) is Some,
            r matches Err(e) ==> old(self)@.start_error(
                user,
                session_duration_ledgers,
                proof_verified,
                current_ledger,
            ) == Some(e) && final(self)@ == old(self)@,
            r matches Ok(id) ==> id == old(self)@.counter_of(user) + 1 && final(self)@ == old(self)@.started(
                user,
                agent_pubkey,
                poseidon_hash,
                session_duration_ledgers,
                current_ledger,
            ),
    {
        if session_duration_ledgers < MIN_SESSION_LEDGERS || session_duration_ledgers
            > MAX_SESSION_LEDGERS {
            return Err(Error::InvalidSessionDuration);
        }
        if !proof_verified {
            return Err(Error::ProofVerificationFailed);
        }
        let count = match self.session_counters.get(&user) {
            Some(c) => *c,
            None => 0,
        };
        if count == u64::MAX {
            return Err(Error::ArithmeticOverflow);
        }
        if current_ledger > u32::MAX - session_duration_ledgers {
            return Err(Error::ArithmeticOverflow);
        }
        let session_id = count + 1;
        let session = Session {
            session_id,
            agent_pubkey,
            poseidon_hash,
            expires_at_ledger: current_ledger + session_duration_ledgers,
            created_at_ledger: current_ledger,
            nonce: 0,
        };
        self.session_counters.insert(user, session_id);
        self.sessions.insert(user, session);
        Ok(session_id)
    }

    /// Ends `user`'s session at once; returns its id, or 0 if there was none.
    pub fn invalidate_session(&mut self, user: AccountId) -> (r: u64)
        ensures
            r == (if old(self)@.sessions.contains_key(user) {
                old(self)@.sessions[user].session_id
            } else {
                0
            }),
            final(self)@ == (AuthModel { sessions: old(self)@.sessions.remove(user), ..old(self)@ }),
    {
        let id = match self.sessions.get(&user) {
            Some(s) => s.session_id,
            None => 0,
        };
        self.sessions.remove(&user);
        id
    }

    /// Whether `user` has a session live at `current_ledger`.
    pub fn is_session_valid(&self, user: AccountId, current_ledger: u32) -> (r: bool)
        ensures
            r == self@.live(user, current_ledger),
    {
        match self.sessions.get(&user) {
            Some(s) => current_ledger < s.expires_at_ledger,
            None => false,
        }
    }

    /// The agent key of `user`'s session if it is live at `current_ledger`.
    pub fn get_agent_pubkey(&self, user: AccountId, current_ledger: u32) -> (r: Option<[u8; 32]>)
        ensures
            r == (if self@.live(user, current_ledger) {
                Some(self@.sessions[user].agent_pubkey)
            } else {
                None::<[u8; 32]>
            }),
    {
        match self.sessions.get(&user) {
            Some(s) => {
                if current_ledger < s.expires_at_ledger {
                    Some(s.agent_pubkey)
                } else {
                    None
                }
            },
            None => None,
        }
    }
}

} // verus!
