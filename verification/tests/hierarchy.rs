use echelon_lib::errors::SpaceError;
use echelon_lib::hierarchy::build_graph;
use echelon_lib::hierarchy::resolve_space_tree;
use echelon_lib::hierarchy::space_tree_outcome;
use echelon_lib::hierarchy::RoomSummary;
use echelon_lib::room_types::RawRoom;

fn room(id: &str, name: Option<&str>, is_space: bool) -> RawRoom {
    RawRoom {
        id: id.to_string(),
        name: name.map(|n| n.to_string()),
        topic: None,
        avatar_url: None,
        is_space,
    }
}

fn summary(node: RawRoom, children: &[&str]) -> RoomSummary {
    RoomSummary { node, children: children.iter().map(|c| c.to_string()).collect() }
}

#[test]
fn direct_child_path_is_root_name() {
    let summaries = vec![
        summary(room("!r:example.org", Some("R"), true), &["!x:example.org"]),
        summary(room("!x:example.org", Some("X"), false), &[]),
    ];
    let g = build_graph(&summaries);
    let path = g.resolve_path(&"!x:example.org".to_string());
    assert_eq!(path, vec!["R".to_string()]);
}

#[test]
fn grandchild_path_is_root_then_parent() {
    let summaries = vec![
        summary(room("!r:example.org", Some("R"), true), &["!p:example.org"]),
        summary(room("!p:example.org", Some("P"), true), &["!x:example.org"]),
        summary(room("!x:example.org", Some("X"), false), &[]),
    ];
    let g = build_graph(&summaries);
    let path = g.resolve_path(&"!x:example.org".to_string());
    assert_eq!(path, vec!["R".to_string(), "P".to_string()]);
}

#[test]
fn unnamed_ancestor_falls_back_to_its_id() {
    let summaries = vec![
        summary(room("!r:example.org", None, true), &["!x:example.org"]),
        summary(room("!x:example.org", Some("X"), false), &[]),
    ];
    let g = build_graph(&summaries);
    let path = g.resolve_path(&"!x:example.org".to_string());
    assert_eq!(path, vec!["!r:example.org".to_string()]);
}

#[test]
fn dangling_edge_is_treated_as_leaf() {
    // the recorded parent has no node of its own: the walk stops there
    let summaries = vec![summary(room("!x:example.org", Some("X"), false), &[])];
    let mut g = build_graph(&summaries);
    g.edges.push(echelon_lib::hierarchy::Edge {
        child: "!x:example.org".to_string(),
        parent: "!ghost:example.org".to_string(),
    });
    let path = g.resolve_path(&"!x:example.org".to_string());
    assert_eq!(path, Vec::<String>::new());
}

#[test]
fn root_is_never_in_its_own_forest() {
    let summaries = vec![
        summary(room("!r:example.org", Some("R"), true), &["!x:example.org"]),
        summary(room("!x:example.org", Some("X"), false), &[]),
    ];
    let forest = resolve_space_tree(&"!r:example.org".to_string(), &summaries, false).unwrap();
    assert!(forest.iter().all(|si| si.id != "!r:example.org"));
    assert_eq!(forest.len(), 1);
    assert_eq!(forest[0].id, "!x:example.org");
}

#[test]
fn duplicate_listing_yields_one_node_and_first_parent_wins() {
    // the same room is listed once under each of two parents
    let summaries = vec![
        summary(room("!r:example.org", Some("R"), true), &["!c:example.org"]),
        summary(room("!p:example.org", Some("P"), true), &["!c:example.org"]),
        summary(room("!c:example.org", Some("C"), false), &[]),
        summary(room("!c:example.org", Some("C again"), false), &[]),
    ];
    let g = build_graph(&summaries);
    assert_eq!(g.nodes.len(), 3);
    let forest = resolve_space_tree(&"!r:example.org".to_string(), &summaries, false).unwrap();
    let c_entries: Vec<_> = forest.iter().filter(|si| si.id == "!c:example.org").collect();
    assert_eq!(c_entries.len(), 1);
    // the first occurrence supplies the node's data
    assert_eq!(c_entries[0].name.as_deref(), Some("C"));
    // the edge discovered first (under R) is the one recorded
    assert_eq!(c_entries[0].parent_spaces, vec!["R".to_string()]);
}

#[test]
fn duplicate_listing_fills_in_missing_edges() {
    // the second occurrence of R carries the child reference
    let summaries = vec![
        summary(room("!r:example.org", Some("R"), true), &[]),
        summary(room("!x:example.org", Some("X"), false), &[]),
        summary(room("!r:example.org", Some("R again"), true), &["!x:example.org"]),
    ];
    let g = build_graph(&summaries);
    assert_eq!(g.nodes.len(), 2);
    let path = g.resolve_path(&"!x:example.org".to_string());
    assert_eq!(path, vec!["R".to_string()]);
}

#[test]
fn cycle_terminates_with_finite_path() {
    // A's parent is B and B's parent is A
    let summaries = vec![
        summary(room("!a:example.org", Some("A"), true), &["!b:example.org"]),
        summary(room("!b:example.org", Some("B"), true), &["!a:example.org"]),
    ];
    let g = build_graph(&summaries);
    let path_a = g.resolve_path(&"!a:example.org".to_string());
    assert_eq!(path_a, vec!["B".to_string()]);
    let path_b = g.resolve_path(&"!b:example.org".to_string());
    assert_eq!(path_b, vec!["A".to_string()]);
}

#[test]
fn self_cycle_yields_empty_path() {
    let summaries = vec![summary(room("!a:example.org", Some("A"), true), &["!a:example.org"])];
    let g = build_graph(&summaries);
    let path = g.resolve_path(&"!a:example.org".to_string());
    assert_eq!(path, Vec::<String>::new());
}

#[test]
fn three_level_forest_scenario() {
    let summaries = vec![
        summary(room("!r:example.org", Some("R"), true), &["!x:example.org"]),
        summary(room("!x:example.org", Some("X"), true), &["!y:example.org"]),
        summary(room("!y:example.org", Some("Y"), false), &[]),
    ];
    let forest = resolve_space_tree(&"!r:example.org".to_string(), &summaries, false).unwrap();
    assert_eq!(forest.len(), 2);
    assert_eq!(forest[0].id, "!x:example.org");
    assert_eq!(forest[0].parent_spaces, vec!["R".to_string()]);
    assert_eq!(forest[1].id, "!y:example.org");
    assert_eq!(forest[1].parent_spaces, vec!["R".to_string(), "X".to_string()]);
}

#[test]
fn eager_expansion_attaches_direct_children_once() {
    let summaries = vec![
        summary(room("!r:example.org", Some("R"), true), &["!x:example.org"]),
        summary(room("!x:example.org", Some("X"), true), &["!y:example.org"]),
        summary(room("!y:example.org", Some("Y"), false), &[]),
    ];
    let forest = resolve_space_tree(&"!r:example.org".to_string(), &summaries, true).unwrap();
    // X is a space: its direct children come inline, one level only
    let x = forest.iter().find(|si| si.id == "!x:example.org").unwrap();
    let children = x.child_rooms.as_ref().unwrap();
    assert_eq!(children.len(), 1);
    assert_eq!(children[0].id, "!y:example.org");
    assert_eq!(children[0].parent_spaces, vec!["R".to_string(), "X".to_string()]);
    // Y is not a space: no expansion
    let y = forest.iter().find(|si| si.id == "!y:example.org").unwrap();
    assert!(y.child_rooms.is_none());
}

#[test]
fn parent_pointers_build_the_same_forest() {
    // the same hierarchy reconstructed locally from per-room parent pointers
    let rooms = vec![
        room("!r:example.org", Some("R"), true),
        room("!x:example.org", Some("X"), true),
        room("!y:example.org", Some("Y"), false),
        // a duplicate occurrence must not create a second node
        room("!y:example.org", Some("Y again"), false),
    ];
    let pairs = vec![
        echelon_lib::hierarchy::Edge {
            child: "!x:example.org".to_string(),
            parent: "!r:example.org".to_string(),
        },
        echelon_lib::hierarchy::Edge {
            child: "!y:example.org".to_string(),
            parent: "!x:example.org".to_string(),
        },
        // a second parent for an already recorded child is ignored
        echelon_lib::hierarchy::Edge {
            child: "!y:example.org".to_string(),
            parent: "!r:example.org".to_string(),
        },
    ];
    let forest = echelon_lib::hierarchy::resolve_space_children(
        &"!r:example.org".to_string(),
        &rooms,
        &pairs,
        false,
    )
    .unwrap();
    assert_eq!(forest.len(), 2);
    assert_eq!(forest[0].id, "!x:example.org");
    assert_eq!(forest[0].parent_spaces, vec!["R".to_string()]);
    assert_eq!(forest[1].id, "!y:example.org");
    assert_eq!(forest[1].name.as_deref(), Some("Y"));
    assert_eq!(forest[1].parent_spaces, vec!["R".to_string(), "X".to_string()]);
}

#[test]
fn malformed_root_id_is_rejected() {
    let summaries = vec![summary(room("no-sigil", Some("R"), true), &[])];
    let r = resolve_space_tree(&"no-sigil".to_string(), &summaries, false);
    assert!(matches!(r, Err(SpaceError::InvalidIdentifier)));
}

#[test]
fn root_that_is_no_space_is_rejected() {
    let summaries = vec![summary(room("!r:example.org", Some("R"), false), &[])];
    let r = resolve_space_tree(&"!r:example.org".to_string(), &summaries, false);
    assert!(matches!(r, Err(SpaceError::NotASpace)));
}

#[test]
fn unknown_root_is_rejected() {
    let summaries = vec![summary(room("!r:example.org", Some("R"), true), &[])];
    let r = resolve_space_tree(&"!other:example.org".to_string(), &summaries, false);
    assert!(matches!(r, Err(SpaceError::NotASpace)));
}

#[test]
fn upstream_failure_message_is_propagated_unchanged() {
    let r = space_tree_outcome(
        &"!r:example.org".to_string(),
        Err("connection reset".to_string()),
        false,
    );
    match r {
        Err(SpaceError::UpstreamFailure(m)) => assert_eq!(m, "connection reset"),
        _ => panic!("expected an upstream failure"),
    }
}

#[test]
fn malformed_id_is_reported_before_an_upstream_failure() {
    let r = space_tree_outcome(&"bad".to_string(), Err("boom".to_string()), false);
    assert!(matches!(r, Err(SpaceError::InvalidIdentifier)));
}

#[test]
fn successful_outcome_resolves_the_response() {
    let summaries = vec![
        summary(room("!r:example.org", Some("R"), true), &["!x:example.org"]),
        summary(room("!x:example.org", Some("X"), false), &[]),
    ];
    let r = space_tree_outcome(&"!r:example.org".to_string(), Ok(summaries), false);
    let forest = r.unwrap();
    assert_eq!(forest.len(), 1);
    assert_eq!(forest[0].id, "!x:example.org");
}
