//! The visible part of a topic graph, as gathered from the graph store.
//!
//! The store is asked for the learner's visited and current nodes, for every edge of each
//! movement leaving them (with the node each leads to), and for the topic's starting points.
//! This module decides which ids to ask for and merges the answers into one subgraph in which
//! no node appears twice.
use vstd::prelude::*;

use crate::domains::graph::models::{relationship_name, Edge, Movement, Node, NodeView, TopicRoot, TopicRootView};
use crate::domains::graph::weights::Weight;
use crate::error::Error;
use crate::ids::{parse_uuid, uuid_parse, uuid_string, uuid_text};
use crate::text::push_str;

verus! {

broadcast use vstd::seq_lib::group_seq_properties;

/// A topic root with the nodes and edges a learner can see.
#[derive(Debug)]
pub struct VisibleSubgraph {
    pub topic_root: TopicRoot,
    pub nodes: Vec<Node>,
    pub edges: Vec<Edge>,
}

pub struct VisibleSubgraphView {
    pub topic_root: TopicRootView,
    pub nodes: Seq<NodeView>,
    pub edges: Seq<Edge>,
}

impl View for VisibleSubgraph {
    type V = VisibleSubgraphView;

    open spec fn view(&self) -> VisibleSubgraphView {
        VisibleSubgraphView {
            topic_root: self.topic_root@,
            nodes: self.nodes.deep_view(),
            edges: self.edges@,
        }
    }
}

/// One answer to "edges of this movement leaving a visible node": the edge and its target.
#[derive(Debug)]
pub struct EdgeRow {
    pub source_id: u128,
    pub movement: Movement,
    pub weight: Weight,
    pub target: Node,
}

pub struct EdgeRowView {
    pub source_id: u128,
    pub movement: Movement,
    pub weight: Weight,
    pub target: NodeView,
}

impl View for EdgeRow {
    type V = EdgeRowView;

    open spec fn view(&self) -> EdgeRowView {
        EdgeRowView {
            source_id: self.source_id,
            movement: self.movement,
            weight: self.weight,
            target: self.target@,
        }
    }
}

impl DeepView for EdgeRow {
    type V = EdgeRowView;

    open spec fn deep_view(&self) -> EdgeRowView {
        self@
    }
}

// ─── Specification ─────────────────────────────────────────────────

/// The ids to fetch: the visited ids, then the current node when it is not among them.
pub open spec fn ids_to_fetch(visited: Seq<u128>, current: u128) -> Seq<u128> {
    if visited.contains(current) {
        visited
    } else {
        visited.push(current)
    }
}

/// Some node of `nodes` has id `id`.
pub open spec fn has_node(nodes: Seq<NodeView>, id: u128) -> bool {
    exists|k: int| 0 <= k < nodes.len() && (#[trigger] nodes[k]).id == id
}

/// Some edge of `edges` leads from `source` to `target`.
pub open spec fn has_edge(edges: Seq<Edge>, source: u128, target: u128) -> bool {
    exists|k: int|
        0 <= k < edges.len() && (#[trigger] edges[k]).source_id == source && edges[k].target_id
            == target
}

/// The nodes that were found, in the order they were asked for.
pub open spec fn found_nodes(fetched: Seq<Option<NodeView>>) -> Seq<NodeView>
    decreases fetched.len(),
{
    if fetched.len() == 0 {
        seq![]
    } else {
        match fetched.last() {
            Some(n) => found_nodes(fetched.drop_last()).push(n),
            None => found_nodes(fetched.drop_last()),
        }
    }
}

/// `nodes` with the target of each row appended when no node has its id yet.
pub open spec fn with_targets(nodes: Seq<NodeView>, rows: Seq<EdgeRowView>) -> Seq<NodeView>
    decreases rows.len(),
{
    if rows.len() == 0 {
        nodes
    } else {
        let n = with_targets(nodes, rows.drop_last());
        if has_node(n, rows.last().target.id) {
            n
        } else {
            n.push(rows.last().target)
        }
    }
}

/// The edge a row stands for.
pub open spec fn row_edge(r: EdgeRowView) -> Edge {
    Edge { source_id: r.source_id, target_id: r.target.id, movement: r.movement, weight: r.weight }
}

/// The edges the rows stand for, in order.
pub open spec fn row_edges(rows: Seq<EdgeRowView>) -> Seq<Edge> {
    rows.map_values(|r: EdgeRowView| row_edge(r))
}

/// The edge drawn from the topic root to a starting point (a fresh foundation edge).
pub open spec fn starting_edge(root: u128, target: u128) -> Edge {
    Edge { source_id: root, target_id: target, movement: Movement::Foundation, weight: Weight::fresh() }
}

/// `nodes` with each starting point appended when no node has its id yet.
pub open spec fn with_starting_nodes(nodes: Seq<NodeView>, starts: Seq<NodeView>) -> Seq<NodeView>
    decreases starts.len(),
{
    if starts.len() == 0 {
        nodes
    } else {
        let n = with_starting_nodes(nodes, starts.drop_last());
        if has_node(n, starts.last().id) {
            n
        } else {
            n.push(starts.last())
        }
    }
}

/// `edges` with an edge from the root to each starting point that no edge joins yet.
pub open spec fn with_starting_edges(edges: Seq<Edge>, root: u128, starts: Seq<NodeView>) -> Seq<Edge>
    decreases starts.len(),
{
    if starts.len() == 0 {
        edges
    } else {
        let e = with_starting_edges(edges, root, starts.drop_last());
        if has_edge(e, root, starts.last().id) {
            e
        } else {
            e.push(starting_edge(root, starts.last().id))
        }
    }
}

/// The visible subgraph the store's answers make up.
pub open spec fn merged_subgraph(
    topic_root: TopicRootView,
    root_id: u128,
    fetched: Seq<Option<NodeView>>,
    rows: Seq<EdgeRowView>,
    starts: Seq<NodeView>,
) -> VisibleSubgraphView {
    VisibleSubgraphView {
        topic_root,
        nodes: with_starting_nodes(with_targets(found_nodes(fetched), rows), starts),
        edges: with_starting_edges(row_edges(rows), root_id, starts),
    }
}

// ─── Laws ──────────────────────────────────────────────────────────

/// No two nodes of `nodes` share an id.
pub open spec fn distinct_ids(nodes: Seq<NodeView>) -> bool {
    forall|i: int, j: int| 0 <= i < j < nodes.len() ==> (#[trigger] nodes[i]).id != (#[trigger] nodes[j]).id
}

proof fn lemma_push_new_keeps_distinct(n: Seq<NodeView>, x: NodeView)
    requires
        distinct_ids(n),
        !has_node(n, x.id),
    ensures
        distinct_ids(n.push(x)),
        forall|id: u128| has_node(n, id) ==> has_node(n.push(x), id),
        has_node(n.push(x), x.id),
{
    let m = n.push(x);
    assert forall|i: int, j: int| 0 <= i < j < m.len() implies (#[trigger] m[i]).id != (#[trigger] m[j]).id by {
        if j == n.len() {
            assert(m[i] == n[i]);
        } else {
            assert(m[i] == n[i] && m[j] == n[j]);
        }
    }
    assert forall|id: u128| has_node(n, id) implies has_node(m, id) by {
        let k = choose|k: int| 0 <= k < n.len() && (#[trigger] n[k]).id == id;
        assert(m[k] == n[k]);
    }
    assert(m[n.len() as int] == x);
}

proof fn lemma_with_targets(n: Seq<NodeView>, rows: Seq<EdgeRowView>)
    ensures
        distinct_ids(n) ==> distinct_ids(with_targets(n, rows)),
        forall|id: u128| has_node(n, id) ==> has_node(with_targets(n, rows), id),
        forall|k: int| 0 <= k < rows.len() ==> has_node(with_targets(n, rows), (#[trigger] rows[k]).target.id),
    decreases rows.len(),
{
    if rows.len() > 0 {
        let d = rows.drop_last();
        lemma_with_targets(n, d);
        let w = with_targets(n, d);
        let x = rows.last().target;
        if !has_node(w, x.id) {
            if distinct_ids(w) {
                lemma_push_new_keeps_distinct(w, x);
            }
            assert forall|id: u128| has_node(w, id) implies has_node(w.push(x), id) by {
                let k = choose|k: int| 0 <= k < w.len() && (#[trigger] w[k]).id == id;
                assert(w.push(x)[k] == w[k]);
            }
            assert(w.push(x)[w.len() as int] == x);
        }
        assert forall|k: int| 0 <= k < rows.len() implies has_node(with_targets(n, rows), (#[trigger] rows[k]).target.id) by {
            if k < d.len() {
                assert(rows[k] == d[k]);
            }
        }
    }
}

proof fn lemma_with_starting(n: Seq<NodeView>, e: Seq<Edge>, root: u128, starts: Seq<NodeView>)
    ensures
        distinct_ids(n) ==> distinct_ids(with_starting_nodes(n, starts)),
        forall|id: u128| has_node(n, id) ==> has_node(with_starting_nodes(n, starts), id),
        forall|k: int| 0 <= k < starts.len() ==> has_node(with_starting_nodes(n, starts), (#[trigger] starts[k]).id),
        with_starting_edges(e, root, starts).len() >= e.len(),
        forall|k: int|
            0 <= k < e.len() ==> (#[trigger] with_starting_edges(e, root, starts)[k]) == e[k],
        forall|k: int|
            e.len() <= k < with_starting_edges(e, root, starts).len() ==> exists|j: int|
                0 <= j < starts.len() && (#[trigger] with_starting_edges(e, root, starts)[k]) == starting_edge(
                    root,
                    (#[trigger] starts[j]).id,
                ),
    decreases starts.len(),
{
    if starts.len() > 0 {
        let d = starts.drop_last();
        lemma_with_starting(n, e, root, d);
        let w = with_starting_nodes(n, d);
        let we = with_starting_edges(e, root, d);
        let x = starts.last();
        if !has_node(w, x.id) {
            if distinct_ids(w) {
                lemma_push_new_keeps_distinct(w, x);
            }
            assert forall|id: u128| has_node(w, id) implies has_node(w.push(x), id) by {
                let k = choose|k: int| 0 <= k < w.len() && (#[trigger] w[k]).id == id;
                assert(w.push(x)[k] == w[k]);
            }
            assert(w.push(x)[w.len() as int] == x);
        }
        assert forall|k: int| 0 <= k < starts.len() implies has_node(with_starting_nodes(n, starts), (#[trigger] starts[k]).id) by {
            if k < d.len() {
                assert(starts[k] == d[k]);
            }
        }
        let r = with_starting_edges(e, root, starts);
        assert forall|k: int| 0 <= k < e.len() implies (#[trigger] r[k]) == e[k] by {
            assert(we[k] == e[k]);
            if !has_edge(we, root, x.id) {
                assert(r[k] == we[k]);
            }
        }
        assert forall|k: int| e.len() <= k < r.len() implies exists|j: int|
            0 <= j < starts.len() && (#[trigger] r[k]) == starting_edge(root, (#[trigger] starts[j]).id) by {
            if k < we.len() {
                assert(r[k] == we[k]);
                let j = choose|j: int| 0 <= j < d.len() && (#[trigger] we[k]) == starting_edge(root, (#[trigger] d[j]).id);
                assert(starts[j] == d[j]);
            } else {
                assert(r[k] == starting_edge(root, x.id));
                assert(starts[starts.len() - 1] == x);
            }
        }
    }
}

/// The merged subgraph never lists a node twice (given the store answered each id with at
/// most one node), and every edge it holds leads to a node it lists.
pub proof fn lemma_merged_subgraph_well_formed(
    topic_root: TopicRootView,
    root_id: u128,
    fetched: Seq<Option<NodeView>>,
    rows: Seq<EdgeRowView>,
    starts: Seq<NodeView>,
)
    ensures
        distinct_ids(found_nodes(fetched)) ==> distinct_ids(
            merged_subgraph(topic_root, root_id, fetched, rows, starts).nodes,
        ),
        forall|k: int|
            0 <= k < merged_subgraph(topic_root, root_id, fetched, rows, starts).edges.len()
                ==> has_node(
                merged_subgraph(topic_root, root_id, fetched, rows, starts).nodes,
                (#[trigger] merged_subgraph(topic_root, root_id, fetched, rows, starts).edges[k]).target_id,
            ),
{
    let f = found_nodes(fetched);
    let w = with_targets(f, rows);
    let re = row_edges(rows);
    lemma_with_targets(f, rows);
    lemma_with_starting(w, re, root_id, starts);
    let g = merged_subgraph(topic_root, root_id, fetched, rows, starts);
    assert forall|k: int| 0 <= k < g.edges.len() implies has_node(g.nodes, (#[trigger] g.edges[k]).target_id) by {
        if k < re.len() {
            assert(g.edges[k] == re[k]);
            assert(re[k].target_id == rows[k].target.id);
        } else {
            let j = choose|j: int| 0 <= j < starts.len() && (#[trigger] g.edges[k]) == starting_edge(root_id, (#[trigger] starts[j]).id);
        }
    }
}

// ─── Exec ──────────────────────────────────────────────────────────

/// The node ids to fetch for a learner: the visited ids, then the current node if it is not
/// among them.
pub fn query_ids(visited_ids: &Vec<u128>, current_node_id: u128) -> (r: Vec<u128>)
    ensures
        r@ == ids_to_fetch(visited_ids@, current_node_id),
{
    let mut r: Vec<u128> = Vec::new();
    let mut i: usize = 0;
    let mut seen = false;
    while i < visited_ids.len()
        invariant
            i <= visited_ids@.len(),
            r@ == visited_ids@.take(i as int),
            seen == visited_ids@.take(i as int).contains(current_node_id),
        decreases visited_ids.len() - i,
    {
        let ghost prefix = visited_ids@.take(i as int);
        assert(visited_ids@.take(i + 1) =~= prefix.push(visited_ids@[i as int]));
        if visited_ids[i] == current_node_id {
            seen = true;
            assert(visited_ids@.take(i + 1)[i as int] == current_node_id);
        } else {
            assert(visited_ids@.take(i + 1).contains(current_node_id) ==> prefix.contains(current_node_id)) by {
                if visited_ids@.take(i + 1).contains(current_node_id) {
                    let t = visited_ids@.take(i + 1);
                    let k = choose|k: int| 0 <= k < t.len() && #[trigger] t[k] == current_node_id;
                    assert(k < i);
                    assert(prefix[k] == t[k]);
                }
            }
        }
        r.push(visited_ids[i]);
        i = i + 1;
    }
    assert(visited_ids@.take(i as int) =~= visited_ids@);
    if !seen {
        r.push(current_node_id);
    }
    r
}

/// Whether some node of `nodes` has id `id`.
pub fn node_listed(nodes: &Vec<Node>, id: u128) -> (r: bool)
    ensures
        r == has_node(nodes.deep_view(), id),
{
    let mut i: usize = 0;
    while i < nodes.len()
        invariant
            i <= nodes@.len(),
            forall|j: int| 0 <= j < i ==> nodes.deep_view()[j].id != id,
        decreases nodes.len() - i,
    {
        if nodes[i].id == id {
            assert(nodes.deep_view()[i as int].id == id);
            return true;
        }
        i = i + 1;
    }
    false
}

/// Whether some edge of `edges` leads from `source` to `target`.
pub fn edge_listed(edges: &Vec<Edge>, source: u128, target: u128) -> (r: bool)
    ensures
        r == has_edge(edges@, source, target),
{
    let mut i: usize = 0;
    while i < edges.len()
        invariant
            i <= edges@.len(),
            forall|j: int|
                0 <= j < i ==> !(edges@[j].source_id == source && edges@[j].target_id == target),
        decreases edges.len() - i,
    {
        if edges[i].source_id == source && edges[i].target_id == target {
            assert(edges@[i as int].source_id == source);
            return true;
        }
        i = i + 1;
    }
    false
}

proof fn lemma_pop_front<T>(p0: Seq<T>, rest: Seq<T>, x: T, full: Seq<T>, i: int)
    requires
        p0 == rest.push(x),
        0 <= i <= full.len(),
        p0.reverse() == full.subrange(i, full.len() as int),
    ensures
        i < full.len(),
        full[i] == x,
        rest.reverse() == full.subrange(i + 1, full.len() as int),
{
    assert(p0.len() >= 1);
    assert(p0.reverse().len() == p0.len());
    assert(i < full.len());
    assert(p0.reverse()[0] == x);
    assert(full.subrange(i, full.len() as int)[0] == full[i]);
    assert forall|k: int| 0 <= k < rest.len() implies #[trigger] rest.reverse()[k] == full.subrange(
        i + 1,
        full.len() as int,
    )[k] by {
        assert(rest.reverse()[k] == rest[rest.len() - 1 - k]);
        assert(p0.reverse()[k + 1] == p0[p0.len() - 1 - (k + 1)]);
        assert(full.subrange(i, full.len() as int)[k + 1] == full[i + 1 + k]);
    }
    assert(rest.reverse() =~= full.subrange(i + 1, full.len() as int));
}

/// Pops every element of `v` into a vector that yields them in order when popped.
fn reversed<T: DeepView>(v: Vec<T>) -> (r: Vec<T>)
    ensures
        r.deep_view() == v.deep_view().reverse(),
{
    let ghost all = v.deep_view();
    let mut v = v;
    let mut r: Vec<T> = Vec::new();
    while v.len() > 0
        invariant
            all == v.deep_view() + r.deep_view().reverse(),
        decreases v.len(),
    {
        let ghost v0 = v.deep_view();
        let ghost r0 = r.deep_view();
        let x = v.pop().unwrap();
        let ghost xv = x.deep_view();
        r.push(x);
        assert(v0 =~= v.deep_view().push(xv));
        assert(r.deep_view() =~= r0.push(xv));
        assert(r.deep_view().reverse() =~= seq![xv] + r0.reverse());
    }
    assert(r.deep_view().reverse().reverse() =~= r.deep_view());
    assert(all =~= r.deep_view().reverse());
    assert(all.reverse() =~= r.deep_view());
    r
}

/// The nodes that were found, in the order they were asked for.
fn collect_found(fetched: Vec<Option<Node>>) -> (nodes: Vec<Node>)
    ensures
        nodes.deep_view() == found_nodes(fetched.deep_view()),
{
    let ghost fv = fetched.deep_view();
    let fetched_count = fetched.len();
    assert(fv.len() == fetched_count);
    let mut nodes: Vec<Node> = Vec::new();
    // The nodes that were found.
    let mut pending1 = reversed(fetched);
    let mut i1: usize = 0;
    while pending1.len() > 0
        invariant
            i1 + pending1.deep_view().len() == fv.len(),
            fv.len() <= usize::MAX,
            pending1.deep_view().reverse() == fv.subrange(i1 as int, fv.len() as int),
            nodes.deep_view() == found_nodes(fv.take(i1 as int)),
        decreases pending1.len(),
    {
        let ghost p0 = pending1.deep_view();
        let x = pending1.pop().unwrap();
        assert(p0 =~= pending1.deep_view().push(x.deep_view()));
        proof {
            lemma_pop_front(p0, pending1.deep_view(), x.deep_view(), fv, i1 as int);
        }
        assert(fv.take(i1 + 1).drop_last() =~= fv.take(i1 as int));
        match x {
            Some(n) => {
                let ghost before = nodes.deep_view();
                nodes.push(n);
                assert(nodes.deep_view() =~= before.push(n@));
            },
            None => {},
        }
        i1 = i1 + 1;
    }
    assert(fv.take(i1 as int) =~= fv);

    nodes
}

/// Adds the edges the rows stand for, and every target not listed yet.
fn add_rows(nodes: &mut Vec<Node>, edges: &mut Vec<Edge>, edge_rows: Vec<EdgeRow>)
    requires
        old(edges)@ == Seq::<Edge>::empty(),
    ensures
        final(nodes).deep_view() == with_targets(old(nodes).deep_view(), edge_rows.deep_view()),
        final(edges)@ == row_edges(edge_rows.deep_view()),
{
    let ghost rv = edge_rows.deep_view();
    let ghost found = nodes.deep_view();
    let row_count = edge_rows.len();
    assert(rv.len() == row_count);
    assert(edges@ =~= row_edges(rv.take(0)));
    // The edges leaving them, with any target not listed yet.
    let mut pending2 = reversed(edge_rows);
    let mut i2: usize = 0;
    while pending2.len() > 0
        invariant
            i2 + pending2.deep_view().len() == rv.len(),
            rv.len() <= usize::MAX,
            pending2.deep_view().reverse() == rv.subrange(i2 as int, rv.len() as int),
            nodes.deep_view() == with_targets(found, rv.take(i2 as int)),
            found == old(nodes).deep_view(),
            edges@ == row_edges(rv.take(i2 as int)),
        decreases pending2.len(),
    {
        let ghost p0 = pending2.deep_view();
        let row = pending2.pop().unwrap();
        assert(p0 =~= pending2.deep_view().push(row@));
        proof {
            lemma_pop_front(p0, pending2.deep_view(), row@, rv, i2 as int);
        }
        assert(rv.take(i2 + 1).drop_last() =~= rv.take(i2 as int));
        let ghost e0 = edges@;
        edges.push(
            Edge {
                source_id: row.source_id,
                target_id: row.target.id,
                movement: row.movement,
                weight: row.weight,
            },
        );
        assert(edges@ =~= row_edges(rv.take(i2 + 1)));
        if !node_listed(&nodes, row.target.id) {
            let ghost before = nodes.deep_view();
            nodes.push(row.target);
            assert(nodes.deep_view() =~= before.push(row@.target));
        }
        i2 = i2 + 1;
    }
    assert(rv.take(i2 as int) =~= rv);

}

/// Adds each starting point not listed yet, and an edge from the root to each that no edge
/// joins yet.
fn add_starting_points(
    nodes: &mut Vec<Node>,
    edges: &mut Vec<Edge>,
    topic_root_id: u128,
    starting_points: Vec<Node>,
)
    ensures
        final(nodes).deep_view() == with_starting_nodes(
            old(nodes).deep_view(),
            starting_points.deep_view(),
        ),
        final(edges)@ == with_starting_edges(old(edges)@, topic_root_id, starting_points.deep_view()),
{
    let ghost sv = starting_points.deep_view();
    let ghost targeted = nodes.deep_view();
    let ghost row_edge_seq = edges@;
    let start_count = starting_points.len();
    assert(sv.len() == start_count);
    // The starting points, each joined to the root.
    let mut pending3 = reversed(starting_points);
    let mut i3: usize = 0;
    while pending3.len() > 0
        invariant
            i3 + pending3.deep_view().len() == sv.len(),
            sv.len() <= usize::MAX,
            pending3.deep_view().reverse() == sv.subrange(i3 as int, sv.len() as int),
            nodes.deep_view() == with_starting_nodes(targeted, sv.take(i3 as int)),
            targeted == old(nodes).deep_view(),
            row_edge_seq == old(edges)@,
            edges@ == with_starting_edges(row_edge_seq, topic_root_id, sv.take(i3 as int)),
        decreases pending3.len(),
    {
        let ghost p0 = pending3.deep_view();
        let n = pending3.pop().unwrap();
        assert(p0 =~= pending3.deep_view().push(n@));
        proof {
            lemma_pop_front(p0, pending3.deep_view(), n@, sv, i3 as int);
        }
        assert(sv.take(i3 + 1).drop_last() =~= sv.take(i3 as int));
        let id = n.id;
        if !node_listed(&nodes, id) {
            let ghost before = nodes.deep_view();
            nodes.push(n);
            assert(nodes.deep_view() =~= before.push(sv[i3 as int]));
        }
        if !edge_listed(&edges, topic_root_id, id) {
            edges.push(
                Edge {
                    source_id: topic_root_id,
                    target_id: id,
                    movement: Movement::Foundation,
                    weight: Weight { traversals: 0, backups: 0 },
                },
            );
        }
        i3 = i3 + 1;
    }
    assert(sv.take(i3 as int) =~= sv);
}

/// Merges the graph store's answers into the visible subgraph of a topic.
///
/// `fetched` holds, for each id of `query_ids`, the node found under it (if any); `edge_rows`
/// the edges leaving those nodes, movement by movement; `starting_points` the nodes the topic
/// root starts with. A node is listed once, where it first appears; each starting point gets a
/// fresh foundation edge from the root unless the two are already joined.
pub fn build_visible_subgraph(
    topic_root: TopicRoot,
    topic_root_id: u128,
    fetched: Vec<Option<Node>>,
    edge_rows: Vec<EdgeRow>,
    starting_points: Vec<Node>,
) -> (r: VisibleSubgraph)
    ensures
        r@ == merged_subgraph(
            topic_root@,
            topic_root_id,
            fetched.deep_view(),
            edge_rows.deep_view(),
            starting_points.deep_view(),
        ),
{
    let mut nodes = collect_found(fetched);
    let mut edges: Vec<Edge> = Vec::new();
    add_rows(&mut nodes, &mut edges, edge_rows);
    add_starting_points(&mut nodes, &mut edges, topic_root_id, starting_points);
    VisibleSubgraph { topic_root, nodes, edges }
}

/// The visible subgraph, or `NotFound` ("TopicRoot <id>") when the topic root does not exist.
pub fn visible_subgraph(
    topic_root: Option<TopicRoot>,
    topic_root_id: u128,
    fetched: Vec<Option<Node>>,
    edge_rows: Vec<EdgeRow>,
    starting_points: Vec<Node>,
) -> (r: Result<VisibleSubgraph, Error>)
    ensures
        match topic_root {
            None => r matches Err(Error::NotFound(m)) && m@ == "TopicRoot "@ + uuid_text(topic_root_id),
            Some(tr) => r matches Ok(g) && g@ == merged_subgraph(
                tr@,
                topic_root_id,
                fetched.deep_view(),
                edge_rows.deep_view(),
                starting_points.deep_view(),
            ),
        },
{
    match topic_root {
        None => {
            let mut m = String::new();
            push_str(&mut m, "TopicRoot ");
            let id = uuid_string(topic_root_id);
            push_str(&mut m, id.as_str());
            assert(m@ =~= "TopicRoot "@ + uuid_text(topic_root_id));
            Err(Error::NotFound(m))
        },
        Some(tr) => Ok(build_visible_subgraph(tr, topic_root_id, fetched, edge_rows, starting_points)),
    }
}

/// A topic root from the fields of its stored record, or an error when the stored id is not
/// a UUID.
pub fn topic_root_of_row(id_text: &str, name: String, description: String) -> (r: Result<
    TopicRoot,
    Error,
>)
    ensures
        match uuid_parse(id_text@) {
            Some(id) => r matches Ok(t) && t.id == id && t.name == name && t.description
                == description,
            None => r matches Err(Error::Internal(m)) && m@ == "invalid uuid"@,
        },
{
    match parse_uuid(id_text) {
        Some(id) => Ok(TopicRoot { id, name, description }),
        None => Err(Error::Internal(String::from_str("invalid uuid"))),
    }
}

// ─── Edge counter updates ──────────────────────────────────────────

/// What comes after the relationship type in the traversal update.
pub open spec fn traversal_update_tail() -> Seq<char> {
    "]->(b {id: $target_id}) SET r.traversals = r.traversals + 1, r.weight = CASE WHEN (r.traversals + 1 + r.backups) = 0 THEN 0.0 ELSE toFloat(CASE WHEN (r.traversals + 1 - 2 * r.backups) < 0 THEN 0 ELSE r.traversals + 1 - 2 * r.backups END) / toFloat(r.traversals + 1 + r.backups) END"@
}

/// What comes after the relationship type in the backup update.
pub open spec fn backup_update_tail() -> Seq<char> {
    "]->(b {id: $target_id}) SET r.backups = r.backups + 1, r.weight = CASE WHEN (r.traversals + r.backups + 1) = 0 THEN 0.0 ELSE toFloat(CASE WHEN (r.traversals - 2 * (r.backups + 1)) < 0 THEN 0 ELSE r.traversals - 2 * (r.backups + 1) END) / toFloat(r.traversals + r.backups + 1) END"@
}

/// The statement that counts one more traversal of the `movement` edge between two nodes and
/// stores its new weight.
pub fn increment_traversal_cypher(movement: Movement) -> (r: String)
    ensures
        r@ == "MATCH (a {id: $source_id})-[r:"@ + relationship_name(movement)
            + traversal_update_tail(),
{
    let mut q = String::from_str("MATCH (a {id: $source_id})-[r:");
    push_str(&mut q, movement.as_relationship_type());
    push_str(
        &mut q,
        "]->(b {id: $target_id}) SET r.traversals = r.traversals + 1, r.weight = CASE WHEN (r.traversals + 1 + r.backups) = 0 THEN 0.0 ELSE toFloat(CASE WHEN (r.traversals + 1 - 2 * r.backups) < 0 THEN 0 ELSE r.traversals + 1 - 2 * r.backups END) / toFloat(r.traversals + 1 + r.backups) END",
    );
    q
}

/// The statement that counts one more backup from the `movement` edge between two nodes and
/// stores its new weight.
pub fn increment_backup_cypher(movement: Movement) -> (r: String)
    ensures
        r@ == "MATCH (a {id: $source_id})-[r:"@ + relationship_name(movement)
            + backup_update_tail(),
{
    let mut q = String::from_str("MATCH (a {id: $source_id})-[r:");
    push_str(&mut q, movement.as_relationship_type());
    push_str(
        &mut q,
        "]->(b {id: $target_id}) SET r.backups = r.backups + 1, r.weight = CASE WHEN (r.traversals + r.backups + 1) = 0 THEN 0.0 ELSE toFloat(CASE WHEN (r.traversals - 2 * (r.backups + 1)) < 0 THEN 0 ELSE r.traversals - 2 * (r.backups + 1) END) / toFloat(r.traversals + r.backups + 1) END",
    );
    q
}

} // verus!
