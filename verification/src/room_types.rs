//! Plain room records shared by the hierarchy logic and the command layer.

use vstd::prelude::*;

verus! {

/// One room as the protocol reports it: its identifier, the optional
/// display data, and whether the room is a space (a container of rooms).
/// Identity is `id`; every other field is display data.
pub struct RawRoom {
    pub id: String,
    pub name: Option<String>,
    pub topic: Option<String>,
    pub avatar_url: Option<String>,
    pub is_space: bool,
}

impl RawRoom {
    /// A copy equal to the record, field by field.
    pub fn clone_room(&self) -> (r: RawRoom)
        ensures
            r == *self,
    {
        RawRoom {
            id: self.id.clone(),
            name: clone_opt_string(&self.name),
            topic: clone_opt_string(&self.topic),
            avatar_url: clone_opt_string(&self.avatar_url),
            is_space: self.is_space,
        }
    }
}

/// A copy equal to the optional string.
pub fn clone_opt_string(s: &Option<String>) -> (r: Option<String>)
    ensures
        r == *s,
{
    match s {
        Some(v) => Some(v.clone()),
        None => None,
    }
}

/// A room listed under a space, together with the names of its ancestor
/// spaces, root first.
pub struct SpaceRoom {
    pub base: RawRoom,
    pub parent_spaces: Vec<String>,
}

/// A direct-message room, together with the ids of its members.
pub struct DmRoom {
    pub base: RawRoom,
    pub members: Vec<String>,
}

} // verus!
