//! A space as first assembled from joined rooms, before path resolution.

use vstd::prelude::*;
use crate::room_types::SpaceRoom;

verus! {

/// A space together with the rooms found directly under it.
pub struct RawSpace {
    pub id: String,
    pub name: Option<String>,
    pub topic: Option<String>,
    pub avatar_url: Option<String>,
    pub rooms: Vec<SpaceRoom>,
}

} // verus!
