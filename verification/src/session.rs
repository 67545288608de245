//! The single-slot store of the active session.
//!
//! At most one session exists at a time. Every command reads it under a
//! shared lock, performs network work outside any lock, and commits a new or
//! cleared session under an exclusive lock; the locks themselves belong to
//! the application layer, which serializes calls into this store.

use vstd::prelude::*;
use crate::errors::SpaceError;
use crate::sync_manager::SyncManager;

verus! {

/// One authenticated session: the handle the application layer registered
/// for its protocol client, and the manager of its sync task.
pub struct Session {
    pub client: u64,
    pub sync: SyncManager,
}

impl Session {
    /// A fresh session around a client handle, with no sync task yet.
    pub fn new(client: u64) -> (s: Session)
        ensures
            s.client == client,
            !s.sync.running(),
    {
        Session { client, sync: SyncManager::new() }
    }
}

/// Holds the at-most-one active session.
pub struct SessionStore {
    session: Option<Session>,
}

impl SessionStore {
    /// The active session, if one exists.
    pub closed spec fn active(&self) -> Option<Session> {
        self.session
    }

    /// An empty store.
    pub fn new() -> (s: SessionStore)
        ensures
            s.active() is None,
    {
        SessionStore { session: None }
    }

    /// Whether a session is active.
    pub fn has_session(&self) -> (r: bool)
        ensures
            r == (self.active() is Some),
    {
        self.session.is_some()
    }

    /// The client handle of the active session, for a command that must
    /// perform network work after releasing its read lock.
    pub fn client_handle(&self) -> (r: Option<u64>)
        ensures
            match self.active() {
                Some(s) => r == Some(s.client),
                None => r is None,
            },
    {
        match &self.session {
            Some(s) => Some(s.client),
            None => None,
        }
    }

    /// The client handle, or the error every session-needing command
    /// reports when the store is empty.
    pub fn require_session(&self) -> (r: Result<u64, SpaceError>)
        ensures
            r is Ok <==> self.active() is Some,
            match self.active() {
                Some(s) => r == Ok::<u64, SpaceError>(s.client),
                None => r == Err::<u64, SpaceError>(SpaceError::NoActiveSession),
            },
    {
        match &self.session {
            Some(s) => Ok(s.client),
            None => Err(SpaceError::NoActiveSession),
        }
    }

    /// Whether the active session has a live sync task.
    pub fn is_syncing(&self) -> (r: bool)
        ensures
            r == match self.active() {
                Some(s) => s.sync.running(),
                None => false,
            },
    {
        match &self.session {
            Some(s) => s.sync.is_syncing(),
            None => false,
        }
    }

    /// Commits `session` as the active one. A session already present has
    /// its sync task stopped before it is replaced, so the task of a
    /// superseded session never outlives it.
    pub fn install(&mut self, session: Session)
        ensures
            final(self).active() == Some(session),
    {
        match self.session.take() {
            Some(mut old_session) => old_session.sync.stop_sync(),
            None => {},
        }
        self.session = Some(session);
    }

    /// Ends the active session: stops its sync task, then clears the slot.
    /// Without a session this is a no-op that leaves the store unchanged.
    pub fn logout(&mut self)
        ensures
            final(self).active() is None,
            old(self).active() is None ==> *final(self) == *old(self),
    {
        match self.session.take() {
            Some(mut s) => s.sync.stop_sync(),
            None => {},
        }
    }
}

} // verus!
