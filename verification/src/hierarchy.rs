//! Hierarchy graph building and ancestor-path resolution.
//!
//! A hierarchy response is a flat, ordered list of room summaries. The same
//! room may be listed once per parent that references it, and the parent
//! pointers may form cycles. Building turns the list into a node table with
//! unique ids and a child-to-parent index in which the first discovered
//! parent of a child wins; resolving walks the index upward, stops at roots,
//! dangling edges and cycles, and returns the ancestor names root first.

use vstd::prelude::*;
use crate::errors::SpaceError;
use crate::room_types::RawRoom;

verus! {

/// One entry of a hierarchy response: the room itself plus the ids that its
/// child-reference records name as direct children.
pub struct RoomSummary {
    pub node: RawRoom,
    pub children: Vec<String>,
}

/// One directed edge of the child-to-parent index.
pub struct Edge {
    pub child: String,
    pub parent: String,
}

/// The node table and the child-to-parent index built from a response.
pub struct HierarchyGraph {
    pub nodes: Vec<RawRoom>,
    pub edges: Vec<Edge>,
}

/// The first node of `nodes` whose id reads `id`, if any.
pub open spec fn lookup_node(nodes: Seq<RawRoom>, id: Seq<char>) -> Option<RawRoom>
    decreases nodes.len(),
{
    if nodes.len() == 0 {
        None
    } else if nodes[0].id@ == id {
        Some(nodes[0])
    } else {
        lookup_node(nodes.skip(1), id)
    }
}

/// The parent recorded for `child`: the first matching edge wins.
pub open spec fn lookup_parent(edges: Seq<Edge>, child: Seq<char>) -> Option<String>
    decreases edges.len(),
{
    if edges.len() == 0 {
        None
    } else if edges[0].child@ == child {
        Some(edges[0].parent)
    } else {
        lookup_parent(edges.skip(1), child)
    }
}

/// Whether the node table holds a node with id `id`.
pub open spec fn has_node(nodes: Seq<RawRoom>, id: Seq<char>) -> bool {
    lookup_node(nodes, id) is Some
}

/// Lookup returns the first matching index's node.
proof fn lemma_lookup_node_at(nodes: Seq<RawRoom>, id: Seq<char>, i: int)
    requires
        0 <= i < nodes.len(),
        nodes[i].id@ == id,
        forall|j: int| 0 <= j < i ==> nodes[j].id@ != id,
    ensures
        lookup_node(nodes, id) == Some(nodes[i]),
    decreases i,
{
    if i > 0 {
        lemma_lookup_node_at(nodes.skip(1), id, i - 1);
    }
}

/// Lookup fails when no index matches.
proof fn lemma_lookup_node_none(nodes: Seq<RawRoom>, id: Seq<char>)
    requires
        forall|j: int| 0 <= j < nodes.len() ==> nodes[j].id@ != id,
    ensures
        lookup_node(nodes, id) is None,
    decreases nodes.len(),
{
    if nodes.len() > 0 {
        lemma_lookup_node_none(nodes.skip(1), id);
    }
}

/// A found node sits at some index of the table.
proof fn lemma_lookup_node_some(nodes: Seq<RawRoom>, id: Seq<char>)
    requires
        lookup_node(nodes, id) is Some,
    ensures
        exists|j: int|
            0 <= j < nodes.len() && nodes[j].id@ == id && nodes[j]
                == lookup_node(nodes, id).unwrap(),
    decreases nodes.len(),
{
    if nodes.len() > 0 && nodes[0].id@ != id {
        lemma_lookup_node_some(nodes.skip(1), id);
        let j = choose|j: int|
            0 <= j < nodes.skip(1).len() && nodes.skip(1)[j].id@ == id && nodes.skip(1)[j]
                == lookup_node(nodes.skip(1), id).unwrap();
        assert(nodes[j + 1] == nodes.skip(1)[j]);
    }
}

/// Parent lookup returns the first matching edge's parent.
proof fn lemma_lookup_parent_at(edges: Seq<Edge>, child: Seq<char>, i: int)
    requires
        0 <= i < edges.len(),
        edges[i].child@ == child,
        forall|j: int| 0 <= j < i ==> edges[j].child@ != child,
    ensures
        lookup_parent(edges, child) == Some(edges[i].parent),
    decreases i,
{
    if i > 0 {
        lemma_lookup_parent_at(edges.skip(1), child, i - 1);
    }
}

/// Parent lookup fails when no edge matches.
proof fn lemma_lookup_parent_none(edges: Seq<Edge>, child: Seq<char>)
    requires
        forall|j: int| 0 <= j < edges.len() ==> edges[j].child@ != child,
    ensures
        lookup_parent(edges, child) is None,
    decreases edges.len(),
{
    if edges.len() > 0 {
        lemma_lookup_parent_none(edges.skip(1), child);
    }
}

/// Index of the first node whose id equals `id`, by linear scan.
fn find_node(nodes: &Vec<RawRoom>, id: &String) -> (r: Option<usize>)
    ensures
        match r {
            Some(i) => i < nodes@.len() && lookup_node(nodes@, id@) == Some(nodes@[i as int]),
            None => lookup_node(nodes@, id@) is None,
        },
{
    let mut i: usize = 0;
    while i < nodes.len()
        invariant
            i <= nodes@.len(),
            forall|j: int| 0 <= j < i ==> nodes@[j].id@ != id@,
        decreases nodes@.len() - i,
    {
        if nodes[i].id == *id {
            proof {
                lemma_lookup_node_at(nodes@, id@, i as int);
            }
            return Some(i);
        }
        i = i + 1;
    }
    proof {
        lemma_lookup_node_none(nodes@, id@);
    }
    None
}

/// The recorded parent of `child`, by linear scan of the edge index.
fn find_parent(edges: &Vec<Edge>, child: &String) -> (r: Option<String>)
    ensures
        r == lookup_parent(edges@, child@),
{
    let mut i: usize = 0;
    while i < edges.len()
        invariant
            i <= edges@.len(),
            forall|j: int| 0 <= j < i ==> edges@[j].child@ != child@,
        decreases edges@.len() - i,
    {
        if edges[i].child == *child {
            proof {
                lemma_lookup_parent_at(edges@, child@, i as int);
            }
            return Some(edges[i].parent.clone());
        }
        i = i + 1;
    }
    proof {
        lemma_lookup_parent_none(edges@, child@);
    }
    None
}

/// The node table after ingesting one summary's room: a later occurrence of
/// an id already in the table must not create a second node.
pub open spec fn insert_node(nodes: Seq<RawRoom>, n: RawRoom) -> Seq<RawRoom> {
    if has_node(nodes, n.id@) {
        nodes
    } else {
        nodes.push(n)
    }
}

/// The edge index after one child reference: insertion is append-only, and a
/// child whose parent is already recorded keeps it (first writer wins).
pub open spec fn insert_edge(edges: Seq<Edge>, child: String, parent: String) -> Seq<Edge> {
    if lookup_parent(edges, child@) is Some {
        edges
    } else {
        edges.push(Edge { child, parent })
    }
}

/// The edge index after all child references of one summary, in order.
pub open spec fn add_child_edges(edges: Seq<Edge>, parent: String, children: Seq<String>) -> Seq<
    Edge,
>
    decreases children.len(),
{
    if children.len() == 0 {
        edges
    } else {
        insert_edge(add_child_edges(edges, parent, children.drop_last()), children.last(), parent)
    }
}

/// The node table built from a whole response, in order.
pub open spec fn build_nodes(summaries: Seq<RoomSummary>) -> Seq<RawRoom>
    decreases summaries.len(),
{
    if summaries.len() == 0 {
        Seq::empty()
    } else {
        insert_node(build_nodes(summaries.drop_last()), summaries.last().node)
    }
}

/// The edge index built from a whole response, in order. Every summary
/// contributes its child references, also one whose room id was seen before:
/// a duplicate may fill in edges its first occurrence did not carry.
pub open spec fn build_edges(summaries: Seq<RoomSummary>) -> Seq<Edge>
    decreases summaries.len(),
{
    if summaries.len() == 0 {
        Seq::empty()
    } else {
        add_child_edges(
            build_edges(summaries.drop_last()),
            summaries.last().node.id,
            summaries.last().children@,
        )
    }
}

/// No two nodes of the table share an id.
pub open spec fn nodes_unique(nodes: Seq<RawRoom>) -> bool {
    forall|i: int, j: int| 0 <= i < j < nodes.len() ==> nodes[i].id@ != nodes[j].id@
}

impl HierarchyGraph {
    /// The one invariant of a built graph: the node table is deduplicated.
    pub open spec fn wf(&self) -> bool {
        nodes_unique(self.nodes@)
    }
}

/// Builds the node table and the child-to-parent index from a response.
///
/// Pure transform: later occurrences of a room id do not create a second
/// node but still contribute edges, and the first recorded parent of each
/// child wins.
pub fn build_graph(summaries: &Vec<RoomSummary>) -> (g: HierarchyGraph)
    ensures
        g.nodes@ == build_nodes(summaries@),
        g.edges@ == build_edges(summaries@),
        g.wf(),
{
    let mut nodes: Vec<RawRoom> = Vec::new();
    let mut edges: Vec<Edge> = Vec::new();
    let mut i: usize = 0;
    proof {
        assert(summaries@.take(0) =~= Seq::<RoomSummary>::empty());
    }
    while i < summaries.len()
        invariant
            i <= summaries@.len(),
            nodes@ == build_nodes(summaries@.take(i as int)),
            edges@ == build_edges(summaries@.take(i as int)),
        decreases summaries@.len() - i,
    {
        let s = &summaries[i];
        let ghost prev_nodes = nodes@;
        let ghost prev_edges = edges@;
        if find_node(&nodes, &s.node.id).is_none() {
            nodes.push(s.node.clone_room());
        }
        let mut j: usize = 0;
        while j < s.children.len()
            invariant
                j <= s.children@.len(),
                s == summaries@[i as int],
                0 <= i < summaries@.len(),
                edges@ == add_child_edges(prev_edges, s.node.id, s.children@.take(j as int)),
            decreases s.children@.len() - j,
        {
            let ghost mid_edges = edges@;
            if find_parent(&edges, &s.children[j]).is_none() {
                edges.push(Edge { child: s.children[j].clone(), parent: s.node.id.clone() });
            }
            proof {
                let cs = s.children@.take(j + 1 as int);
                assert(cs.drop_last() =~= s.children@.take(j as int));
                assert(cs.last() == s.children@[j as int]);
                assert(edges@ == insert_edge(mid_edges, s.children@[j as int], s.node.id));
            }
            j = j + 1;
        }
        proof {
            assert(s.children@.take(s.children@.len() as int) =~= s.children@);
            let ss = summaries@.take(i + 1 as int);
            assert(ss.drop_last() =~= summaries@.take(i as int));
            assert(ss.last() == summaries@[i as int]);
            assert(nodes@ == insert_node(prev_nodes, summaries@[i as int].node));
        }
        i = i + 1;
    }
    proof {
        assert(summaries@.take(summaries@.len() as int) =~= summaries@);
        lemma_build_nodes_unique(summaries@);
    }
    HierarchyGraph { nodes, edges }
}

/// The node table after ingesting a plain room list, first occurrences kept.
pub open spec fn dedup_nodes(rooms: Seq<RawRoom>) -> Seq<RawRoom>
    decreases rooms.len(),
{
    if rooms.len() == 0 {
        Seq::empty()
    } else {
        insert_node(dedup_nodes(rooms.drop_last()), rooms.last())
    }
}

/// The edge index after ingesting plain child-to-parent pairs in order, the
/// first recorded parent of each child kept.
pub open spec fn dedup_edges(pairs: Seq<Edge>) -> Seq<Edge>
    decreases pairs.len(),
{
    if pairs.len() == 0 {
        Seq::empty()
    } else {
        insert_edge(dedup_edges(pairs.drop_last()), pairs.last().child, pairs.last().parent)
    }
}

/// Builds a graph from rooms and parent pointers read one room at a time,
/// the local counterpart of [`build_graph`]: the same deduplication of nodes
/// and the same first-writer-wins rule for edges.
pub fn graph_from_parent_pointers(rooms: &Vec<RawRoom>, pairs: &Vec<Edge>) -> (g: HierarchyGraph)
    ensures
        g.nodes@ == dedup_nodes(rooms@),
        g.edges@ == dedup_edges(pairs@),
        g.wf(),
{
    let mut nodes: Vec<RawRoom> = Vec::new();
    let mut i: usize = 0;
    proof {
        assert(rooms@.take(0) =~= Seq::<RawRoom>::empty());
    }
    while i < rooms.len()
        invariant
            i <= rooms@.len(),
            nodes@ == dedup_nodes(rooms@.take(i as int)),
        decreases rooms@.len() - i,
    {
        let ghost prev = nodes@;
        if find_node(&nodes, &rooms[i].id).is_none() {
            nodes.push(rooms[i].clone_room());
        }
        proof {
            let pre = rooms@.take(i as int);
            let post = rooms@.take(i + 1 as int);
            assert(post.drop_last() =~= pre);
            assert(post.last() == rooms@[i as int]);
            assert(nodes@ == insert_node(prev, rooms@[i as int]));
        }
        i = i + 1;
    }
    let mut edges: Vec<Edge> = Vec::new();
    let mut j: usize = 0;
    proof {
        assert(pairs@.take(0) =~= Seq::<Edge>::empty());
    }
    while j < pairs.len()
        invariant
            j <= pairs@.len(),
            edges@ == dedup_edges(pairs@.take(j as int)),
        decreases pairs@.len() - j,
    {
        let ghost prev = edges@;
        if find_parent(&edges, &pairs[j].child).is_none() {
            edges.push(Edge { child: pairs[j].child.clone(), parent: pairs[j].parent.clone() });
        }
        proof {
            let pre = pairs@.take(j as int);
            let post = pairs@.take(j + 1 as int);
            assert(post.drop_last() =~= pre);
            assert(post.last() == pairs@[j as int]);
            assert(edges@ == insert_edge(prev, pairs@[j as int].child, pairs@[j as int].parent));
        }
        j = j + 1;
    }
    proof {
        assert(rooms@.take(rooms@.len() as int) =~= rooms@);
        assert(pairs@.take(pairs@.len() as int) =~= pairs@);
        lemma_dedup_nodes_unique(rooms@);
    }
    HierarchyGraph { nodes, edges }
}

/// Ingesting one room keeps the table free of duplicate ids.
proof fn lemma_insert_node_unique(nodes: Seq<RawRoom>, n: RawRoom)
    requires
        nodes_unique(nodes),
    ensures
        nodes_unique(insert_node(nodes, n)),
{
    if !has_node(nodes, n.id@) {
        assert forall|i: int, j: int|
            0 <= i < j < nodes.push(n).len() implies nodes.push(n)[i].id@ != nodes.push(
            n,
        )[j].id@ by {
            if j == nodes.len() as int {
                if nodes[i].id@ == n.id@ {
                    lemma_lookup_node_at_exists(nodes, n.id@);
                }
            }
        }
    }
}

/// A table deduplicated from a plain room list has no duplicate ids.
proof fn lemma_dedup_nodes_unique(rooms: Seq<RawRoom>)
    ensures
        nodes_unique(dedup_nodes(rooms)),
    decreases rooms.len(),
{
    if rooms.len() > 0 {
        lemma_dedup_nodes_unique(rooms.drop_last());
        lemma_insert_node_unique(dedup_nodes(rooms.drop_last()), rooms.last());
    }
}

/// Membership in the built table does not depend on the input order: an id
/// has a node exactly when some summary carries it.
pub proof fn lemma_node_membership(summaries: Seq<RoomSummary>, id: Seq<char>)
    ensures
        has_node(build_nodes(summaries), id) <==> exists|i: int|
            0 <= i < summaries.len() && summaries[i].node.id@ == id,
    decreases summaries.len(),
{
    if summaries.len() > 0 {
        lemma_node_membership(summaries.drop_last(), id);
        let prev = build_nodes(summaries.drop_last());
        let n = summaries.last().node;
        let carried = exists|i: int|
            0 <= i < summaries.drop_last().len() && summaries.drop_last()[i].node.id@ == id;
        if has_node(prev, n.id@) {
            assert(build_nodes(summaries) == prev);
            if n.id@ == id {
                assert(has_node(build_nodes(summaries), id));
            }
        } else {
            assert(build_nodes(summaries) == prev.push(n));
            lemma_has_node_push(prev, n, id);
        }
        if has_node(build_nodes(summaries), id) && !carried {
            // only the last summary can carry it
            assert(summaries[summaries.len() - 1].node.id@ == id);
        }
        if carried {
            let i = choose|i: int|
                0 <= i < summaries.drop_last().len() && summaries.drop_last()[i].node.id@ == id;
            assert(summaries[i].node.id@ == id);
        } else if exists|i: int| 0 <= i < summaries.len() && summaries[i].node.id@ == id {
            let i = choose|i: int| 0 <= i < summaries.len() && summaries[i].node.id@ == id;
            if i < summaries.len() - 1 {
                assert(summaries.drop_last()[i].node.id@ == id);
            }
        }
    }
}

/// Looking a node up in a table extended by one entry.
proof fn lemma_has_node_push(nodes: Seq<RawRoom>, n: RawRoom, id: Seq<char>)
    ensures
        has_node(nodes.push(n), id) <==> (has_node(nodes, id) || n.id@ == id),
    decreases nodes.len(),
{
    if nodes.len() == 0 {
        assert(nodes.push(n)[0] == n);
        assert(nodes.push(n).skip(1) =~= Seq::<RawRoom>::empty());
        if n.id@ == id {
            assert(lookup_node(nodes.push(n), id) == Some(n));
        } else {
            assert(lookup_node(nodes.push(n), id) == lookup_node(
                Seq::<RawRoom>::empty(),
                id,
            ));
        }
    } else {
        assert(nodes.push(n)[0] == nodes[0]);
        if nodes[0].id@ != id {
            assert(nodes.push(n).skip(1) =~= nodes.skip(1).push(n));
            lemma_has_node_push(nodes.skip(1), n, id);
            assert(lookup_node(nodes.push(n), id) == lookup_node(nodes.skip(1).push(n), id));
            assert(lookup_node(nodes, id) == lookup_node(nodes.skip(1), id));
        } else {
            assert(lookup_node(nodes.push(n), id) == Some(nodes[0]));
        }
    }
}

/// Ingesting a response a second time leaves the node set as it was:
/// building is idempotent for the final node set.
pub proof fn lemma_build_idempotent(summaries: Seq<RoomSummary>, id: Seq<char>)
    ensures
        has_node(build_nodes(summaries + summaries), id) == has_node(build_nodes(summaries), id),
{
    lemma_node_membership(summaries, id);
    lemma_node_membership(summaries + summaries, id);
    let twice = summaries + summaries;
    if exists|i: int| 0 <= i < twice.len() && twice[i].node.id@ == id {
        let i = choose|i: int| 0 <= i < twice.len() && twice[i].node.id@ == id;
        if i < summaries.len() {
            assert(summaries[i].node.id@ == id);
        } else {
            assert(summaries[i - summaries.len()].node.id@ == id);
        }
    }
    if exists|i: int| 0 <= i < summaries.len() && summaries[i].node.id@ == id {
        let i = choose|i: int| 0 <= i < summaries.len() && summaries[i].node.id@ == id;
        assert(twice[i].node.id@ == id);
    }
}

/// Some index of the table carries `id`, so lookup finds a node.
proof fn lemma_lookup_node_at_exists(nodes: Seq<RawRoom>, id: Seq<char>)
    requires
        exists|j: int| 0 <= j < nodes.len() && nodes[j].id@ == id,
    ensures
        has_node(nodes, id),
    decreases nodes.len(),
{
    let j = choose|j: int| 0 <= j < nodes.len() && nodes[j].id@ == id;
    if nodes[0].id@ != id {
        assert(nodes.skip(1)[j - 1].id@ == id);
        lemma_lookup_node_at_exists(nodes.skip(1), id);
    }
}

/// Building never yields two nodes with one id.
pub proof fn lemma_build_nodes_unique(summaries: Seq<RoomSummary>)
    ensures
        nodes_unique(build_nodes(summaries)),
    decreases summaries.len(),
{
    if summaries.len() > 0 {
        lemma_build_nodes_unique(summaries.drop_last());
        lemma_insert_node_unique(build_nodes(summaries.drop_last()), summaries.last().node);
    }
}

/// Looking a child up in an index extended by one edge: an already recorded
/// parent is never displaced.
proof fn lemma_lookup_parent_push(edges: Seq<Edge>, e: Edge, child: Seq<char>)
    ensures
        lookup_parent(edges.push(e), child) == (if lookup_parent(edges, child) is Some {
            lookup_parent(edges, child)
        } else if e.child@ == child {
            Some(e.parent)
        } else {
            None::<String>
        }),
    decreases edges.len(),
{
    if edges.len() == 0 {
        assert(edges.push(e)[0] == e);
        assert(edges.push(e).skip(1) =~= Seq::<Edge>::empty());
    } else {
        assert(edges.push(e)[0] == edges[0]);
        if edges[0].child@ != child {
            assert(edges.push(e).skip(1) =~= edges.skip(1).push(e));
            lemma_lookup_parent_push(edges.skip(1), e, child);
        }
    }
}

/// One summary's child references never displace a recorded parent.
proof fn lemma_add_child_edges_keeps(
    edges: Seq<Edge>,
    parent: String,
    children: Seq<String>,
    child: Seq<char>,
)
    requires
        lookup_parent(edges, child) is Some,
    ensures
        lookup_parent(add_child_edges(edges, parent, children), child) == lookup_parent(
            edges,
            child,
        ),
    decreases children.len(),
{
    if children.len() > 0 {
        lemma_add_child_edges_keeps(edges, parent, children.drop_last(), child);
        let mid = add_child_edges(edges, parent, children.drop_last());
        if lookup_parent(mid, children.last()@) is None {
            lemma_lookup_parent_push(
                mid,
                Edge { child: children.last(), parent },
                child,
            );
        }
    }
}

/// Once a response prefix has recorded a parent for a child, no later
/// summaries change it: the first discovered edge is authoritative.
pub proof fn lemma_first_parent_wins(
    prefix: Seq<RoomSummary>,
    rest: Seq<RoomSummary>,
    child: Seq<char>,
)
    requires
        lookup_parent(build_edges(prefix), child) is Some,
    ensures
        lookup_parent(build_edges(prefix + rest), child) == lookup_parent(
            build_edges(prefix),
            child,
        ),
    decreases rest.len(),
{
    if rest.len() == 0 {
        assert(prefix + rest =~= prefix);
    } else {
        lemma_first_parent_wins(prefix, rest.drop_last(), child);
        let whole = prefix + rest;
        assert(whole.drop_last() =~= prefix + rest.drop_last());
        assert(whole.last() == rest.last());
        lemma_add_child_edges_keeps(
            build_edges(whole.drop_last()),
            whole.last().node.id,
            whole.last().children@,
            child,
        );
    }
}

/// What an ancestor is shown as: its display name, or its raw id when it has
/// none.
pub open spec fn display_name(n: RawRoom) -> String {
    match n.name {
        Some(s) => s,
        None => n.id,
    }
}

/// The ancestor names above `current`, root first.
///
/// The walk stops at a root (no parent recorded), at a dangling edge (the
/// parent has no node), at a cycle (the parent was already visited in this
/// walk) and when the fuel runs out. One step is paid for by one distinct,
/// unvisited child id that some edge carries, so fuel equal to the number of
/// edges never runs out before a natural stop.
pub open spec fn ancestor_path(
    nodes: Seq<RawRoom>,
    edges: Seq<Edge>,
    current: Seq<char>,
    visited: Seq<Seq<char>>,
    fuel: nat,
) -> Seq<String>
    decreases fuel,
{
    if fuel == 0 {
        Seq::empty()
    } else {
        match lookup_parent(edges, current) {
            None => Seq::empty(),
            Some(pid) => {
                if visited.contains(pid@) {
                    Seq::empty()
                } else {
                    match lookup_node(nodes, pid@) {
                        None => Seq::empty(),
                        Some(pnode) => ancestor_path(
                            nodes,
                            edges,
                            pid@,
                            visited.push(pid@),
                            (fuel - 1) as nat,
                        ).push(display_name(pnode)),
                    }
                }
            },
        }
    }
}

/// The ancestor path of one node of the graph, root first; empty for a root.
pub open spec fn path_spec(nodes: Seq<RawRoom>, edges: Seq<Edge>, id: Seq<char>) -> Seq<String> {
    ancestor_path(nodes, edges, id, seq![id], edges.len())
}

/// A walk returns at most one name per unit of fuel.
proof fn lemma_path_len(
    nodes: Seq<RawRoom>,
    edges: Seq<Edge>,
    current: Seq<char>,
    visited: Seq<Seq<char>>,
    fuel: nat,
)
    ensures
        ancestor_path(nodes, edges, current, visited, fuel).len() <= fuel,
    decreases fuel,
{
    if fuel > 0 {
        match lookup_parent(edges, current) {
            None => {},
            Some(pid) => {
                if !visited.contains(pid@) && lookup_node(nodes, pid@) is Some {
                    lemma_path_len(nodes, edges, pid@, visited.push(pid@), (fuel - 1) as nat);
                }
            },
        }
    }
}

/// The views of the visited ids.
pub open spec fn seq_views(v: Seq<String>) -> Seq<Seq<char>> {
    v.map_values(|s: String| s@)
}

/// Whether some id of `v` reads `id`, by linear scan.
fn contains_id(v: &Vec<String>, id: &String) -> (r: bool)
    ensures
        r == seq_views(v@).contains(id@),
{
    let mut i: usize = 0;
    while i < v.len()
        invariant
            i <= v@.len(),
            forall|j: int| 0 <= j < i ==> v@[j]@ != id@,
        decreases v@.len() - i,
    {
        if v[i] == *id {
            proof {
                assert(seq_views(v@)[i as int] == id@);
            }
            return true;
        }
        i = i + 1;
    }
    proof {
        assert forall|k: int| 0 <= k < seq_views(v@).len() implies seq_views(v@)[k] != id@ by {
            assert(seq_views(v@)[k] == v@[k]@);
        }
    }
    false
}

impl HierarchyGraph {
    /// Walks the child-to-parent index upward from `node_id` and returns the
    /// ancestor names, root first; the queried node itself is not included.
    ///
    /// Never fails: a dangling edge is treated as a leaf and a cycle
    /// truncates the path, so the result is always finite.
    pub fn resolve_path(&self, node_id: &String) -> (r: Vec<String>)
        ensures
            r@ == path_spec(self.nodes@, self.edges@, node_id@),
            r@.len() <= self.edges@.len(),
    {
        let ghost total = path_spec(self.nodes@, self.edges@, node_id@);
        proof {
            lemma_path_len(self.nodes@, self.edges@, node_id@, seq![node_id@], self.edges@.len());
        }
        let mut path: Vec<String> = Vec::new();
        let mut visited: Vec<String> = Vec::new();
        visited.push(node_id.clone());
        let mut current: String = node_id.clone();
        let mut fuel: usize = self.edges.len();
        proof {
            assert(seq_views(visited@) =~= seq![node_id@]);
        }
        loop
            invariant
                total == ancestor_path(
                    self.nodes@,
                    self.edges@,
                    current@,
                    seq_views(visited@),
                    fuel as nat,
                ) + path@,
                total == path_spec(self.nodes@, self.edges@, node_id@),
            ensures
                path@ == total,
            decreases fuel,
        {
            if fuel == 0 {
                break ;
            }
            let parent = find_parent(&self.edges, &current);
            match parent {
                None => {
                    break ;
                },
                Some(pid) => {
                    if contains_id(&visited, &pid) {
                        break ;
                    }
                    match find_node(&self.nodes, &pid) {
                        None => {
                            break ;
                        },
                        Some(idx) => {
                            let pnode = &self.nodes[idx];
                            let name = match &pnode.name {
                                Some(s) => s.clone(),
                                None => pnode.id.clone(),
                            };
                            let ghost old_path = path@;
                            let ghost old_visited = seq_views(visited@);
                            let ghost rest = ancestor_path(
                                self.nodes@,
                                self.edges@,
                                pid@,
                                old_visited.push(pid@),
                                (fuel - 1) as nat,
                            );
                            path.insert(0, name);
                            visited.push(pid.clone());
                            current = pid;
                            fuel = fuel - 1;
                            proof {
                                assert(seq_views(visited@) =~= old_visited.push(current@));
                                assert(path@ =~= seq![display_name(
                                    lookup_node(self.nodes@, current@).unwrap(),
                                )] + old_path);
                                assert(rest.push(display_name(
                                    lookup_node(self.nodes@, current@).unwrap(),
                                )) + old_path =~= rest + path@);
                            }
                        },
                    }
                },
            }
        }
        path
    }
}

/// Whether the index records `parent` as the parent of node `n`.
pub open spec fn is_child_of(edges: Seq<Edge>, n: RawRoom, parent: Seq<char>) -> bool {
    match lookup_parent(edges, n.id@) {
        Some(p) => p@ == parent,
        None => false,
    }
}

/// The ids of the nodes whose recorded parent is `parent`, in table order.
pub open spec fn child_ids(nodes: Seq<RawRoom>, edges: Seq<Edge>, parent: Seq<char>) -> Seq<
    Seq<char>,
>
    decreases nodes.len(),
{
    if nodes.len() == 0 {
        Seq::empty()
    } else {
        let rest = child_ids(nodes.drop_last(), edges, parent);
        if is_child_of(edges, nodes.last(), parent) {
            rest.push(nodes.last().id@)
        } else {
            rest
        }
    }
}

/// A per-room record carries the table's data for its id and the resolved
/// ancestor path.
pub open spec fn room_info_matches(
    nodes: Seq<RawRoom>,
    edges: Seq<Edge>,
    ri: crate::room_info::RoomInfo,
) -> bool {
    match lookup_node(nodes, ri.id@) {
        Some(n) => ri.name == n.name && ri.topic == n.topic && ri.avatar_url == n.avatar_url
            && ri.parent_spaces@ == path_spec(nodes, edges, ri.id@),
        None => false,
    }
}

/// An expansion lists exactly the direct children of `parent`, in table
/// order, each with correct data and path.
pub open spec fn children_match(
    nodes: Seq<RawRoom>,
    edges: Seq<Edge>,
    parent: Seq<char>,
    v: Seq<crate::room_info::RoomInfo>,
) -> bool {
    &&& v.map_values(|ri: crate::room_info::RoomInfo| ri.id@) == child_ids(nodes, edges, parent)
    &&& forall|i: int| 0 <= i < v.len() ==> room_info_matches(nodes, edges, #[trigger] v[i])
}

/// The ids of the table in order, the queried root left out.
pub open spec fn forest_ids(nodes: Seq<RawRoom>, root: Seq<char>) -> Seq<Seq<char>>
    decreases nodes.len(),
{
    if nodes.len() == 0 {
        Seq::empty()
    } else {
        let rest = forest_ids(nodes.drop_last(), root);
        if nodes.last().id@ == root {
            rest
        } else {
            rest.push(nodes.last().id@)
        }
    }
}

/// A forest entry carries the table's data for its id, the resolved path,
/// and an inline expansion exactly when one was requested and the entry is a
/// space.
pub open spec fn space_info_matches(
    nodes: Seq<RawRoom>,
    edges: Seq<Edge>,
    expand: bool,
    si: crate::space_info::SpaceInfo,
) -> bool {
    match lookup_node(nodes, si.id@) {
        Some(n) => {
            &&& si.name == n.name
            &&& si.topic == n.topic
            &&& si.avatar_url == n.avatar_url
            &&& si.parent_spaces@ == path_spec(nodes, edges, si.id@)
            &&& if expand && n.is_space {
                match si.child_rooms {
                    Some(v) => children_match(nodes, edges, si.id@, v@),
                    None => false,
                }
            } else {
                si.child_rooms is None
            }
        },
        None => false,
    }
}

/// The forest lists every node of the table but the root, in table order,
/// each entry correct as [`space_info_matches`] says.
pub open spec fn forest_matches(
    nodes: Seq<RawRoom>,
    edges: Seq<Edge>,
    root: Seq<char>,
    expand: bool,
    f: Seq<crate::space_info::SpaceInfo>,
) -> bool {
    &&& f.map_values(|si: crate::space_info::SpaceInfo| si.id@) == forest_ids(nodes, root)
    &&& forall|i: int|
        0 <= i < f.len() ==> space_info_matches(nodes, edges, expand, #[trigger] f[i])
}

/// The forest's id list never holds the root, draws every id from the
/// table, and repeats none when the table is deduplicated.
proof fn lemma_forest_ids_props(nodes: Seq<RawRoom>, root: Seq<char>)
    ensures
        forall|k: int|
            0 <= k < forest_ids(nodes, root).len() ==> #[trigger] forest_ids(nodes, root)[k]
                != root,
        forall|k: int|
            0 <= k < forest_ids(nodes, root).len() ==> exists|idx: int|
                0 <= idx < nodes.len() && nodes[idx].id@ == #[trigger] forest_ids(nodes, root)[k],
        nodes_unique(nodes) ==> forall|k1: int, k2: int|
            0 <= k1 < k2 < forest_ids(nodes, root).len() ==> #[trigger] forest_ids(nodes, root)[k1]
                != #[trigger] forest_ids(nodes, root)[k2],
    decreases nodes.len(),
{
    if nodes.len() > 0 {
        lemma_forest_ids_props(nodes.drop_last(), root);
        let rest = forest_ids(nodes.drop_last(), root);
        let whole = forest_ids(nodes, root);
        assert forall|k: int|
            0 <= k < rest.len() implies exists|idx: int|
            0 <= idx < nodes.len() && nodes[idx].id@ == #[trigger] rest[k] by {
            let idx = choose|idx: int|
                0 <= idx < nodes.drop_last().len() && nodes.drop_last()[idx].id@ == rest[k];
            assert(nodes[idx].id@ == rest[k]);
        }
        if nodes.last().id@ != root {
            assert(whole == rest.push(nodes.last().id@));
            assert(whole[whole.len() - 1] == nodes[nodes.len() - 1].id@);
            if nodes_unique(nodes) {
                assert(nodes_unique(nodes.drop_last()));
                assert forall|k1: int, k2: int|
                    0 <= k1 < k2 < whole.len() implies whole[k1] != whole[k2] by {
                    if k2 == whole.len() - 1 {
                        let idx = choose|idx: int|
                            0 <= idx < nodes.drop_last().len() && nodes.drop_last()[idx].id@
                                == rest[k1];
                        assert(nodes[idx].id@ == whole[k1]);
                        assert(nodes[idx].id@ != nodes[nodes.len() - 1].id@);
                    } else {
                        assert(rest[k1] != rest[k2]);
                    }
                }
            }
        }
    }
}

impl HierarchyGraph {
    /// The direct children of `parent_id`: every room whose recorded parent
    /// it is, in table order, with its data and its resolved ancestor path.
    /// One level only; children are never nested further.
    pub fn direct_children(&self, parent_id: &String) -> (v: Vec<crate::room_info::RoomInfo>)
        requires
            self.wf(),
        ensures
            children_match(self.nodes@, self.edges@, parent_id@, v@),
    {
        let mut v: Vec<crate::room_info::RoomInfo> = Vec::new();
        let mut i: usize = 0;
        proof {
            assert(self.nodes@.take(0) =~= Seq::<RawRoom>::empty());
            assert(v@.map_values(|ri: crate::room_info::RoomInfo| ri.id@) =~= Seq::<
                Seq<char>,
            >::empty());
        }
        while i < self.nodes.len()
            invariant
                i <= self.nodes@.len(),
                self.wf(),
                v@.map_values(|ri: crate::room_info::RoomInfo| ri.id@) == child_ids(
                    self.nodes@.take(i as int),
                    self.edges@,
                    parent_id@,
                ),
                forall|k: int|
                    0 <= k < v@.len() ==> room_info_matches(
                        self.nodes@,
                        self.edges@,
                        #[trigger] v@[k],
                    ),
            decreases self.nodes@.len() - i,
        {
            let node = &self.nodes[i];
            let ghost old_ids = v@.map_values(|ri: crate::room_info::RoomInfo| ri.id@);
            let recorded = find_parent(&self.edges, &node.id);
            let keep = match &recorded {
                Some(p) => *p == *parent_id,
                None => false,
            };
            if keep {
                let ri = crate::room_info::RoomInfo {
                    id: node.id.clone(),
                    name: crate::room_types::clone_opt_string(&node.name),
                    topic: crate::room_types::clone_opt_string(&node.topic),
                    avatar_url: crate::room_types::clone_opt_string(&node.avatar_url),
                    parent_spaces: self.resolve_path(&node.id),
                };
                proof {
                    lemma_lookup_node_at(self.nodes@, node.id@, i as int);
                }
                v.push(ri);
                proof {
                    assert(v@.map_values(|ri: crate::room_info::RoomInfo| ri.id@) =~= old_ids.push(
                        node.id@,
                    ));
                }
            }
            proof {
                let pre = self.nodes@.take(i as int);
                let post = self.nodes@.take(i + 1 as int);
                assert(post.drop_last() =~= pre);
                assert(post.last() == self.nodes@[i as int]);
            }
            i = i + 1;
        }
        proof {
            assert(self.nodes@.take(self.nodes@.len() as int) =~= self.nodes@);
        }
        v
    }

    /// The resolved forest under `root_id`: every node of the table but the
    /// root itself, in table order, each with its ancestor path; spaces are
    /// expanded one level inline when `expand` asks for it.
    ///
    /// The root is never part of its own forest, and no two entries share an
    /// id.
    pub fn build_forest(&self, root_id: &String, expand: bool) -> (f: Vec<
        crate::space_info::SpaceInfo,
    >)
        requires
            self.wf(),
        ensures
            forest_matches(self.nodes@, self.edges@, root_id@, expand, f@),
            forall|i: int| 0 <= i < f@.len() ==> (#[trigger] f@[i]).id@ != root_id@,
            forall|i: int, j: int| 0 <= i < j < f@.len() ==> f@[i].id@ != f@[j].id@,
    {
        let mut f: Vec<crate::space_info::SpaceInfo> = Vec::new();
        let mut i: usize = 0;
        proof {
            assert(self.nodes@.take(0) =~= Seq::<RawRoom>::empty());
            assert(f@.map_values(|si: crate::space_info::SpaceInfo| si.id@) =~= Seq::<
                Seq<char>,
            >::empty());
        }
        while i < self.nodes.len()
            invariant
                i <= self.nodes@.len(),
                self.wf(),
                f@.map_values(|si: crate::space_info::SpaceInfo| si.id@) == forest_ids(
                    self.nodes@.take(i as int),
                    root_id@,
                ),
                forall|k: int|
                    0 <= k < f@.len() ==> space_info_matches(
                        self.nodes@,
                        self.edges@,
                        expand,
                        #[trigger] f@[k],
                    ),
            decreases self.nodes@.len() - i,
        {
            let node = &self.nodes[i];
            let ghost old_ids = f@.map_values(|si: crate::space_info::SpaceInfo| si.id@);
            if node.id != *root_id {
                let child_rooms = if expand && node.is_space {
                    Some(self.direct_children(&node.id))
                } else {
                    None
                };
                let si = crate::space_info::SpaceInfo {
                    id: node.id.clone(),
                    name: crate::room_types::clone_opt_string(&node.name),
                    topic: crate::room_types::clone_opt_string(&node.topic),
                    avatar_url: crate::room_types::clone_opt_string(&node.avatar_url),
                    parent_spaces: self.resolve_path(&node.id),
                    child_rooms,
                };
                proof {
                    lemma_lookup_node_at(self.nodes@, node.id@, i as int);
                }
                f.push(si);
                proof {
                    assert(f@.map_values(|si: crate::space_info::SpaceInfo| si.id@)
                        =~= old_ids.push(node.id@));
                }
            }
            proof {
                let pre = self.nodes@.take(i as int);
                let post = self.nodes@.take(i + 1 as int);
                assert(post.drop_last() =~= pre);
                assert(post.last() == self.nodes@[i as int]);
            }
            i = i + 1;
        }
        proof {
            assert(self.nodes@.take(self.nodes@.len() as int) =~= self.nodes@);
            lemma_forest_ids_props(self.nodes@, root_id@);
            let ids = f@.map_values(|si: crate::space_info::SpaceInfo| si.id@);
            assert forall|i: int| 0 <= i < f@.len() implies (#[trigger] f@[i]).id@
                != root_id@ by {
                assert(ids[i] == f@[i].id@);
            }
            assert forall|i: int, j: int| 0 <= i < j < f@.len() implies f@[i].id@
                != f@[j].id@ by {
                assert(ids[i] == f@[i].id@);
                assert(ids[j] == f@[j].id@);
            }
        }
        f
    }
}

/// A recorded parent comes from some edge of the index.
proof fn lemma_lookup_parent_some(edges: Seq<Edge>, child: Seq<char>)
    requires
        lookup_parent(edges, child) is Some,
    ensures
        exists|j: int| 0 <= j < edges.len() && edges[j].child@ == child,
    decreases edges.len(),
{
    if edges.len() > 0 && edges[0].child@ != child {
        lemma_lookup_parent_some(edges.skip(1), child);
        let j = choose|j: int| 0 <= j < edges.skip(1).len() && edges.skip(1)[j].child@ == child;
        assert(edges[j + 1] == edges.skip(1)[j]);
    }
}

/// A node chained directly under a root resolves to the root's display name
/// as the sole element of its path: the root's parent lookup fails, so the
/// walk stops right after one step.
pub proof fn lemma_path_direct_child(
    nodes: Seq<RawRoom>,
    edges: Seq<Edge>,
    x: Seq<char>,
    root: RawRoom,
)
    requires
        match lookup_parent(edges, x) {
            Some(p) => p@ == root.id@,
            None => false,
        },
        lookup_node(nodes, root.id@) == Some(root),
        lookup_parent(edges, root.id@) is None,
        x != root.id@,
    ensures
        path_spec(nodes, edges, x) == seq![display_name(root)],
{
    lemma_lookup_parent_some(edges, x);
    let fuel = edges.len();
    let pid = lookup_parent(edges, x).unwrap();
    let inner = ancestor_path(nodes, edges, root.id@, seq![x].push(pid@), (fuel - 1) as nat);
    assert(inner =~= Seq::<String>::empty());
    assert(path_spec(nodes, edges, x) =~= seq![display_name(root)]);
}

/// A node chained under a root through one intermediate parent resolves to
/// the root's name followed by the parent's name, root first.
pub proof fn lemma_path_grandchild(
    nodes: Seq<RawRoom>,
    edges: Seq<Edge>,
    x: Seq<char>,
    parent: RawRoom,
    root: RawRoom,
)
    requires
        match lookup_parent(edges, x) {
            Some(p) => p@ == parent.id@,
            None => false,
        },
        lookup_node(nodes, parent.id@) == Some(parent),
        match lookup_parent(edges, parent.id@) {
            Some(p) => p@ == root.id@,
            None => false,
        },
        lookup_node(nodes, root.id@) == Some(root),
        lookup_parent(edges, root.id@) is None,
        x != parent.id@,
        x != root.id@,
        parent.id@ != root.id@,
    ensures
        path_spec(nodes, edges, x) == seq![display_name(root), display_name(parent)],
{
    lemma_lookup_parent_some(edges, x);
    lemma_lookup_parent_some(edges, parent.id@);
    let j1 = choose|j: int| 0 <= j < edges.len() && edges[j].child@ == x;
    let j2 = choose|j: int| 0 <= j < edges.len() && edges[j].child@ == parent.id@;
    assert(j1 != j2);
    assert(edges.len() >= 2);
    let fuel = edges.len();
    let pid1 = lookup_parent(edges, x).unwrap();
    let vis1 = seq![x].push(pid1@);
    assert(!seq![x].contains(pid1@));
    let pid2 = lookup_parent(edges, parent.id@).unwrap();
    let vis2 = vis1.push(pid2@);
    assert(!vis1.contains(pid2@)) by {
        assert(vis1[0] == x);
        assert(vis1[1] == parent.id@);
    }
    let inner2 = ancestor_path(nodes, edges, root.id@, vis2, (fuel - 2) as nat);
    assert(inner2 =~= Seq::<String>::empty());
    let inner1 = ancestor_path(nodes, edges, parent.id@, vis1, (fuel - 1) as nat);
    assert(inner1 =~= seq![display_name(root)]);
    assert(path_spec(nodes, edges, x) =~= seq![display_name(root), display_name(parent)]);
}

/// Whether a string is a well-formed room identifier, as the protocol
/// library decides it. The outcome depends on the characters alone.
pub uninterp spec fn is_valid_room_id(s: Seq<char>) -> bool;

/// Relies on ruma's room-id parser (`<&RoomId>::try_from`): it accepts a
/// string or rejects it from the string's bytes alone.
#[verifier::external_body]
fn room_id_is_valid(s: &str) -> (r: bool)
    ensures
        r == is_valid_room_id(s@),
{
    <&ruma::RoomId>::try_from(s).is_ok()
}

/// Whether the table's node for `id` is flagged as a space.
pub open spec fn root_is_space(nodes: Seq<RawRoom>, id: Seq<char>) -> bool {
    match lookup_node(nodes, id) {
        Some(n) => n.is_space,
        None => false,
    }
}

/// What a finished resolution must look like: a forest exactly when the
/// root id is well formed and names a space of the node table, the error
/// saying which of the two failed otherwise.
pub open spec fn resolution_ok(
    root_id: Seq<char>,
    nodes: Seq<RawRoom>,
    edges: Seq<Edge>,
    expand: bool,
    r: Result<Vec<crate::space_info::SpaceInfo>, SpaceError>,
) -> bool {
    match r {
        Ok(f) => {
            &&& is_valid_room_id(root_id)
            &&& root_is_space(nodes, root_id)
            &&& forest_matches(nodes, edges, root_id, expand, f@)
            &&& forall|i: int| 0 <= i < f@.len() ==> (#[trigger] f@[i]).id@ != root_id
            &&& forall|i: int, j: int| 0 <= i < j < f@.len() ==> f@[i].id@ != f@[j].id@
        },
        Err(e) => {
            &&& (e == SpaceError::InvalidIdentifier <==> !is_valid_room_id(root_id))
            &&& (e == SpaceError::NotASpace <==> (is_valid_room_id(root_id) && !root_is_space(
                nodes,
                root_id,
            )))
            &&& (e == SpaceError::InvalidIdentifier || e == SpaceError::NotASpace)
        },
    }
}

/// What a finished resolution of a whole hierarchy response must look like.
pub open spec fn space_tree_result_ok(
    root_id: Seq<char>,
    summaries: Seq<RoomSummary>,
    expand: bool,
    r: Result<Vec<crate::space_info::SpaceInfo>, SpaceError>,
) -> bool {
    resolution_ok(root_id, build_nodes(summaries), build_edges(summaries), expand, r)
}

/// The checks and the assembly every resolution entry point shares.
fn resolve_with_graph(root_id: &String, g: &HierarchyGraph, expand: bool) -> (r: Result<
    Vec<crate::space_info::SpaceInfo>,
    SpaceError,
>)
    requires
        g.wf(),
    ensures
        resolution_ok(root_id@, g.nodes@, g.edges@, expand, r),
{
    if !room_id_is_valid(root_id.as_str()) {
        return Err(SpaceError::InvalidIdentifier);
    }
    let is_space = match find_node(&g.nodes, root_id) {
        Some(i) => g.nodes[i].is_space,
        None => false,
    };
    if !is_space {
        return Err(SpaceError::NotASpace);
    }
    Ok(g.build_forest(root_id, expand))
}

/// Resolves the space forest under `root_id` from a hierarchy response.
///
/// Fails only on a malformed root id or on a root that the response does not
/// flag as a space; duplicated summaries, dangling edges and cycles degrade
/// instead of failing.
pub fn resolve_space_tree(
    root_id: &String,
    summaries: &Vec<RoomSummary>,
    expand: bool,
) -> (r: Result<Vec<crate::space_info::SpaceInfo>, SpaceError>)
    ensures
        space_tree_result_ok(root_id@, summaries@, expand, r),
{
    let g = build_graph(summaries);
    resolve_with_graph(root_id, &g, expand)
}

/// Resolves the space forest under `root_id` from rooms and parent pointers
/// read one joined room at a time, instead of from one hierarchy response.
pub fn resolve_space_children(
    root_id: &String,
    rooms: &Vec<RawRoom>,
    pairs: &Vec<Edge>,
    expand: bool,
) -> (r: Result<Vec<crate::space_info::SpaceInfo>, SpaceError>)
    ensures
        resolution_ok(root_id@, dedup_nodes(rooms@), dedup_edges(pairs@), expand, r),
{
    let g = graph_from_parent_pointers(rooms, pairs);
    resolve_with_graph(root_id, &g, expand)
}

/// Decides the outcome of the space-tree command once the hierarchy query
/// has come back: a malformed root id is reported first, an upstream failure
/// is propagated with its message unchanged, and a response is resolved.
pub fn space_tree_outcome(
    root_id: &String,
    response: Result<Vec<RoomSummary>, String>,
    expand: bool,
) -> (r: Result<Vec<crate::space_info::SpaceInfo>, SpaceError>)
    ensures
        match response {
            Ok(summaries) => space_tree_result_ok(root_id@, summaries@, expand, r),
            Err(message) => r == (if is_valid_room_id(root_id@) {
                Err::<Vec<crate::space_info::SpaceInfo>, SpaceError>(
                    SpaceError::UpstreamFailure(message),
                )
            } else {
                Err::<Vec<crate::space_info::SpaceInfo>, SpaceError>(SpaceError::InvalidIdentifier)
            }),
        },
{
    if !room_id_is_valid(root_id.as_str()) {
        return Err(SpaceError::InvalidIdentifier);
    }
    match response {
        Ok(summaries) => resolve_space_tree(root_id, &summaries, expand),
        Err(message) => Err(SpaceError::UpstreamFailure(message)),
    }
}

} // verus!
