//! Ownership of the single background synchronization task.
//!
//! A session has at most one live sync task. The manager owns the slot that
//! holds its handle: storing a new task always stops the previous one first,
//! under the same exclusive access, so there is never a window with two live
//! tasks. Stopping is a hard cancellation; nothing is awaited.

use vstd::prelude::*;

verus! {

#[verifier::external_type_specification]
#[verifier::external_body]
#[verifier::reject_recursive_types(T)]
pub struct ExJoinHandle<T>(tokio::task::JoinHandle<T>);

#[verifier::external_type_specification]
#[verifier::external_body]
pub struct ExJoinError(tokio::task::JoinError);

/// Relies on tokio's `JoinHandle::abort`: it requests cancellation of the
/// task and returns at once, awaiting no confirmation.
#[verifier::external_body]
fn abort_task(task: tokio::task::JoinHandle<()>) {
    task.abort();
}

/// Owns the at-most-one background sync task of a session.
pub struct SyncManager {
    task: Option<tokio::task::JoinHandle<()>>,
}

impl SyncManager {
    /// The task slot: the handle of the live sync task, if one exists.
    pub closed spec fn task_slot(&self) -> Option<tokio::task::JoinHandle<()>> {
        self.task
    }

    /// Whether a sync task is live.
    pub open spec fn running(&self) -> bool {
        self.task_slot() is Some
    }

    /// A manager with no task.
    pub fn new() -> (m: SyncManager)
        ensures
            !m.running(),
    {
        SyncManager { task: None }
    }

    /// Stores `task` as the one live sync task of this manager. A task
    /// already present is stopped first, so after the call exactly the new
    /// handle is live.
    pub fn start_sync(&mut self, task: tokio::task::JoinHandle<()>)
        ensures
            final(self).task_slot() == Some(task),
    {
        self.stop_sync();
        self.task = Some(task);
    }

    /// Empties the slot; a present task is aborted. Called with no task it
    /// is a no-op that leaves the manager unchanged and still succeeds.
    pub fn stop_sync(&mut self)
        ensures
            !final(self).running(),
            old(self).task_slot() is None ==> *final(self) == *old(self),
    {
        match self.task.take() {
            Some(handle) => abort_task(handle),
            None => {},
        }
    }

    /// Whether the slot holds a task.
    pub fn is_syncing(&self) -> (r: bool)
        ensures
            r == self.running(),
    {
        self.task.is_some()
    }
}

} // verus!
