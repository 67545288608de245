use echelon_lib::room_types::RawRoom;
use echelon_lib::user::get_rooms;
use echelon_lib::user::get_spaces;
use echelon_lib::user::RoomParents;

fn room(id: &str, name: Option<&str>) -> RawRoom {
    RawRoom {
        id: id.to_string(),
        name: name.map(|n| n.to_string()),
        topic: Some("topic".to_string()),
        avatar_url: None,
        is_space: false,
    }
}

#[test]
fn spaces_overview_lists_roots_without_parents() {
    let rooms = vec![room("!a:example.org", Some("A")), room("!b:example.org", None)];
    let overview = get_spaces(&rooms);
    assert_eq!(overview.len(), 2);
    assert_eq!(overview[0].id, "!a:example.org");
    assert_eq!(overview[0].name.as_deref(), Some("A"));
    assert_eq!(overview[0].topic.as_deref(), Some("topic"));
    assert!(overview[0].parent_spaces.is_empty());
    assert!(overview[0].child_rooms.is_none());
    assert_eq!(overview[1].name, None);
}

#[test]
fn rooms_overview_names_unnamed_parents() {
    let rooms = vec![RoomParents {
        room: room("!a:example.org", Some("A")),
        parent_names: vec![Some("Home".to_string()), None],
    }];
    let overview = get_rooms(&rooms);
    assert_eq!(overview.len(), 1);
    assert_eq!(overview[0].id, "!a:example.org");
    assert_eq!(
        overview[0].parent_spaces,
        vec!["Home".to_string(), "Unnamed Space".to_string()]
    );
}

#[test]
fn rooms_overview_keeps_order_and_data() {
    let rooms = vec![
        RoomParents { room: room("!a:example.org", Some("A")), parent_names: vec![] },
        RoomParents { room: room("!b:example.org", None), parent_names: vec![None] },
    ];
    let overview = get_rooms(&rooms);
    assert_eq!(overview.len(), 2);
    assert_eq!(overview[0].id, "!a:example.org");
    assert!(overview[0].parent_spaces.is_empty());
    assert_eq!(overview[1].id, "!b:example.org");
    assert_eq!(overview[1].parent_spaces, vec!["Unnamed Space".to_string()]);
}
