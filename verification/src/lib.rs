//! Core of a desktop client for a federated chat protocol.
//!
//! The library owns the two hard parts of such a client, tied together by a
//! single session object:
//!
//! * resolving a flat, possibly duplicated and possibly cyclic list of room
//!   summaries into a deduplicated forest with cycle-safe ancestor paths
//!   ([`hierarchy`]);
//! * the lifecycle of the single background synchronization task of an
//!   authenticated session ([`sync_manager`], [`session`]).
//!
//! Network transport, registration flows and marshalling live outside the
//! library; they hand it plain values and take plain values back.

pub mod errors;
pub mod hierarchy;
pub mod raw_space;
pub mod room_info;
pub mod room_types;
pub mod session;
pub mod space_info;
pub mod sync_manager;
pub mod user;
