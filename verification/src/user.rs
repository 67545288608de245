//! The pure halves of the room-overview commands.
//!
//! The application layer reads joined rooms and their parent spaces from the
//! protocol client and hands the plain values here; these functions shape
//! them into the records the frontend receives.

use vstd::prelude::*;
use crate::room_info::RoomInfo;
use crate::room_types::RawRoom;
use crate::room_types::clone_opt_string;
use crate::space_info::SpaceInfo;

verus! {

/// A joined room together with the names its reciprocal parent spaces
/// report, `None` for an unnamed one.
pub struct RoomParents {
    pub room: RawRoom,
    pub parent_names: Vec<Option<String>>,
}

/// What a parent space is listed as: its name, or a fixed label when it has
/// none.
pub open spec fn shown_parent_name(name: Option<String>) -> Seq<char> {
    match name {
        Some(s) => s@,
        None => "Unnamed Space"@,
    }
}

/// A root-space entry: the room's data, no ancestors, no expansion.
pub open spec fn root_space_entry(n: RawRoom, si: SpaceInfo) -> bool {
    &&& si.id == n.id
    &&& si.name == n.name
    &&& si.topic == n.topic
    &&& si.avatar_url == n.avatar_url
    &&& si.parent_spaces@ == Seq::<String>::empty()
    &&& si.child_rooms is None
}

/// A room-overview entry: the room's data plus one shown name per parent.
pub open spec fn room_overview_entry(e: RoomParents, ri: RoomInfo) -> bool {
    &&& ri.id == e.room.id
    &&& ri.name == e.room.name
    &&& ri.topic == e.room.topic
    &&& ri.avatar_url == e.room.avatar_url
    &&& ri.parent_spaces@.len() == e.parent_names@.len()
    &&& forall|j: int|
        0 <= j < e.parent_names@.len() ==> (#[trigger] ri.parent_spaces@[j])@ == shown_parent_name(
            e.parent_names@[j],
        )
}

/// The overview of the joined root spaces: one entry per room, in order,
/// with an empty ancestor list (a root space has no parents).
pub fn get_spaces(rooms: &Vec<RawRoom>) -> (r: Vec<SpaceInfo>)
    ensures
        r@.len() == rooms@.len(),
        forall|i: int| 0 <= i < rooms@.len() ==> root_space_entry(rooms@[i], #[trigger] r@[i]),
{
    let mut r: Vec<SpaceInfo> = Vec::new();
    let mut i: usize = 0;
    while i < rooms.len()
        invariant
            i <= rooms@.len(),
            r@.len() == i,
            forall|k: int| 0 <= k < i ==> root_space_entry(rooms@[k], #[trigger] r@[k]),
        decreases rooms@.len() - i,
    {
        let room = &rooms[i];
        r.push(
            SpaceInfo {
                id: room.id.clone(),
                name: clone_opt_string(&room.name),
                topic: clone_opt_string(&room.topic),
                avatar_url: clone_opt_string(&room.avatar_url),
                parent_spaces: Vec::new(),
                child_rooms: None,
            },
        );
        i = i + 1;
    }
    r
}

/// The overview of the joined rooms: one entry per room, in order, each
/// listing the shown names of its parent spaces.
pub fn get_rooms(rooms: &Vec<RoomParents>) -> (r: Vec<RoomInfo>)
    ensures
        r@.len() == rooms@.len(),
        forall|i: int| 0 <= i < rooms@.len() ==> room_overview_entry(rooms@[i], #[trigger] r@[i]),
{
    let mut r: Vec<RoomInfo> = Vec::new();
    let mut i: usize = 0;
    while i < rooms.len()
        invariant
            i <= rooms@.len(),
            r@.len() == i,
            forall|k: int| 0 <= k < i ==> room_overview_entry(rooms@[k], #[trigger] r@[k]),
        decreases rooms@.len() - i,
    {
        let entry = &rooms[i];
        let mut parent_spaces: Vec<String> = Vec::new();
        let mut j: usize = 0;
        while j < entry.parent_names.len()
            invariant
                j <= entry.parent_names@.len(),
                parent_spaces@.len() == j,
                forall|k: int|
                    0 <= k < j ==> (#[trigger] parent_spaces@[k])@ == shown_parent_name(
                        entry.parent_names@[k],
                    ),
            decreases entry.parent_names@.len() - j,
        {
            let shown = match &entry.parent_names[j] {
                Some(name) => name.clone(),
                None => "Unnamed Space".to_owned(),
            };
            parent_spaces.push(shown);
            j = j + 1;
        }
        r.push(
            RoomInfo {
                id: entry.room.id.clone(),
                name: clone_opt_string(&entry.room.name),
                topic: clone_opt_string(&entry.room.topic),
                avatar_url: clone_opt_string(&entry.room.avatar_url),
                parent_spaces,
            },
        );
        i = i + 1;
    }
    r
}

} // verus!
