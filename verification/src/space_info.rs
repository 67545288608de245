//! The per-space record of a resolved forest.

use vstd::prelude::*;
use crate::room_info::RoomInfo;

verus! {

/// One entry of a resolved space forest: a room or space, the names of its
/// ancestor spaces root first, and, when a caller asked for eager expansion
/// of a space, its direct children inline (one level, never nested).
pub struct SpaceInfo {
    pub id: String,
    pub name: Option<String>,
    pub topic: Option<String>,
    pub avatar_url: Option<String>,
    pub parent_spaces: Vec<String>,
    pub child_rooms: Option<Vec<RoomInfo>>,
}

/// A space together with the resolved records of the rooms below it.
pub struct RawSpace {
    pub id: String,
    pub name: Option<String>,
    pub topic: Option<String>,
    pub avatar_url: Option<String>,
    pub rooms: Vec<SpaceInfo>,
}

} // verus!
