//! The flat per-room record handed to the application layer.

use vstd::prelude::*;

verus! {

/// A room as the command layer reports it: display data plus the names of
/// its ancestor spaces, root first.
pub struct RoomInfo {
    pub id: String,
    pub name: Option<String>,
    pub topic: Option<String>,
    pub avatar_url: Option<String>,
    pub parent_spaces: Vec<String>,
}

} // verus!
