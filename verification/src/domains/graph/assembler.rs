//! Assembly of the visible topic graph.
//!
//! The stores supply the learner's position, the visited node ids, the visible subgraph and
//! the notes; this module tags every node and edge with its visual state and orders the
//! proposals, highest incoming edge weight first.
use std::collections::HashMap;
use vstd::prelude::*;

use crate::domains::graph::models::{
    Edge, EdgeState, GraphEdge, GraphEdgeView, GraphNode, GraphNodeView, Node, NodeState, NodeView,
    Note, NoteView, ResourceView, TopicGraph, TopicRootView,
};
use crate::domains::graph::queries::{VisibleSubgraph, VisibleSubgraphView};
use crate::domains::graph::weights::{heavier, is_heavier, lemma_heavier_strict_order, Weight};
use crate::ids::{uuid_string, uuid_text};
use crate::text::{push_str, string_push};

verus! {

broadcast use vstd::seq_lib::group_seq_properties;

/// A note as read from the relational store, with the node it belongs to.
#[derive(Debug)]
pub struct NoteRow {
    pub node_id: u128,
    pub note: Note,
}

pub struct NoteRowView {
    pub node_id: u128,
    pub note: NoteView,
}

impl View for NoteRow {
    type V = NoteRowView;

    open spec fn view(&self) -> NoteRowView {
        NoteRowView { node_id: self.node_id, note: self.note@ }
    }
}

impl DeepView for NoteRow {
    type V = NoteRowView;

    open spec fn deep_view(&self) -> NoteRowView {
        self@
    }
}

// ─── Specification ─────────────────────────────────────────────────

/// The notes of node `id`, in the order the store gave them.
pub open spec fn notes_of(rows: Seq<NoteRowView>, id: u128) -> Seq<NoteView>
    decreases rows.len(),
{
    if rows.len() == 0 {
        seq![]
    } else if rows.last().node_id == id {
        notes_of(rows.drop_last(), id).push(rows.last().note)
    } else {
        notes_of(rows.drop_last(), id)
    }
}

/// The visual state of node `id`.
pub open spec fn node_state(id: u128, root: u128, current: u128, visited: Seq<u128>) -> NodeState {
    if id == root {
        NodeState::TopicRoot
    } else if id == current {
        NodeState::Current
    } else if visited.contains(id) {
        NodeState::Visited
    } else {
        NodeState::Proposal
    }
}

/// The visual state of an edge: traversed when both of its ends have been reached.
pub open spec fn edge_state(e: Edge, root: u128, current: u128, visited: Seq<u128>) -> EdgeState {
    let source_reached = visited.contains(e.source_id) || e.source_id == current || e.source_id
        == root;
    let target_reached = visited.contains(e.target_id) || e.target_id == current;
    if source_reached && target_reached {
        EdgeState::Traversed
    } else {
        EdgeState::Proposal
    }
}

/// The first edge leading into node `id`.
pub open spec fn incoming_edge(edges: Seq<Edge>, id: u128) -> Option<Edge>
    decreases edges.len(),
{
    if edges.len() == 0 {
        None
    } else if edges[0].target_id == id {
        Some(edges[0])
    } else {
        incoming_edge(edges.drop_first(), id)
    }
}

/// The weight of the first edge leading into node `id`, or that of a fresh edge.
pub open spec fn incoming_weight(edges: Seq<Edge>, id: u128) -> Weight {
    match incoming_edge(edges, id) {
        Some(e) => e.weight,
        None => Weight::fresh(),
    }
}

/// What the tagging of one learner's graph depends on.
pub struct Tagging {
    pub root: u128,
    pub current: u128,
    pub visited: Seq<u128>,
    pub edges: Seq<Edge>,
    pub notes: Seq<NoteRowView>,
}

/// The canvas node for the topic root itself.
pub open spec fn root_node(tr: TopicRootView, t: Tagging) -> GraphNodeView {
    GraphNodeView {
        id: tr.id,
        title: tr.name,
        description: tr.description,
        resources: seq![],
        notes: notes_of(t.notes, tr.id),
        state: NodeState::TopicRoot,
        movement: None,
        is_wildcard: false,
        visit_count: 0,
        depth: 0,
    }
}

/// The canvas node for a graph node.
pub open spec fn tagged_node(n: NodeView, t: Tagging) -> GraphNodeView {
    GraphNodeView {
        id: n.id,
        title: n.title,
        description: n.description,
        resources: n.resources,
        notes: notes_of(t.notes, n.id),
        state: node_state(n.id, t.root, t.current, t.visited),
        movement: match incoming_edge(t.edges, n.id) {
            Some(e) => Some(e.movement),
            None => None,
        },
        is_wildcard: false,
        visit_count: n.visit_count,
        depth: n.depth,
    }
}

/// The canvas edges for a sequence of graph edges.
pub open spec fn tagged_edges(edges: Seq<Edge>, t: Tagging) -> Seq<GraphEdgeView> {
    edges.map_values(|e: Edge| tagged_edge(e, t))
}

/// The canvas edge for a graph edge; its id joins the ids of its ends with `-`.
pub open spec fn tagged_edge(e: Edge, t: Tagging) -> GraphEdgeView {
    GraphEdgeView {
        id: uuid_text(e.source_id) + seq!['-'] + uuid_text(e.target_id),
        source_id: e.source_id,
        target_id: e.target_id,
        movement: e.movement,
        state: edge_state(e, t.root, t.current, t.visited),
        weight: e.weight,
    }
}

// ─── Exec building blocks ──────────────────────────────────────────

/// `groups` holds, under each node that has notes among `rows`, exactly those notes in store
/// order, and nothing under any other node.
#[verifier::opaque]
pub open spec fn groups_notes(groups: Map<u128, Vec<Note>>, rows: Seq<NoteRowView>) -> bool {
    &&& forall|id: u128| #[trigger] groups.contains_key(id) <==> notes_of(rows, id).len() > 0
    &&& forall|id: u128| #[trigger] groups.contains_key(id) ==> groups[id].deep_view() == notes_of(rows, id)
}

/// The notes of the store grouped by the node they belong to, each group in store order.
pub fn group_notes(rows: &Vec<NoteRow>) -> (groups: HashMap<u128, Vec<Note>>)
    ensures
        groups_notes(groups@, rows.deep_view()),
{
    broadcast use vstd::std_specs::hash::group_hash_axioms;

    reveal(groups_notes);
    let mut groups: HashMap<u128, Vec<Note>> = HashMap::new();
    let mut i: usize = 0;
    while i < rows.len()
        invariant
            i <= rows@.len(),
            groups_notes(groups@, rows.deep_view().take(i as int)),
        decreases rows.len() - i,
    {
        reveal(groups_notes);
        let ghost prev = rows.deep_view().take(i as int);
        let ghost next = rows.deep_view().take(i + 1);
        assert(next.drop_last() =~= prev);
        let id = rows[i].node_id;
        let note = rows[i].note.duplicate();
        let ghost old_groups = groups@;
        let mut group = match groups.remove(&id) {
            Some(g) => g,
            None => Vec::new(),
        };
        assert(group.deep_view() =~= notes_of(prev, id));
        group.push(note);
        assert(group.deep_view() =~= notes_of(next, id));
        groups.insert(id, group);
        assert forall|k: u128| #[trigger] groups@.contains_key(k) <==> notes_of(next, k).len() > 0 by {
            if k != id {
                assert(notes_of(next, k) == notes_of(prev, k));
            }
        }
        assert forall|k: u128| #[trigger] groups@.contains_key(k) implies groups@[k].deep_view()
            == notes_of(next, k) by {
            if k != id {
                assert(notes_of(next, k) == notes_of(prev, k));
                assert(groups@[k] == old_groups[k]);
            }
        }
        i = i + 1;
    }
    assert(rows.deep_view().take(rows@.len() as int) =~= rows.deep_view());
    reveal(groups_notes);
    groups
}

/// What grouped notes give for a node: its notes among `rows`, none where it has no group.
proof fn lemma_group_of(groups: Map<u128, Vec<Note>>, rows: Seq<NoteRowView>, id: u128)
    requires
        groups_notes(groups, rows),
    ensures
        (if groups.contains_key(id) {
            groups[id].deep_view()
        } else {
            Seq::empty()
        }) == notes_of(rows, id),
{
    reveal(groups_notes);
    if !groups.contains_key(id) {
        assert(notes_of(rows, id) =~= Seq::<NoteView>::empty());
    }
}

/// Copies of the notes grouped under node `id`; none where it has no group.
pub fn notes_in(groups: &HashMap<u128, Vec<Note>>, id: u128) -> (r: Vec<Note>)
    ensures
        r.deep_view() == (if groups@.contains_key(id) {
            groups@[id].deep_view()
        } else {
            Seq::empty()
        }),
{
    broadcast use vstd::std_specs::hash::group_hash_axioms;

    let mut r: Vec<Note> = Vec::new();
    match groups.get(&id) {
        Some(group) => {
            let mut i: usize = 0;
            while i < group.len()
                invariant
                    i <= group@.len(),
                    r.deep_view() == group.deep_view().take(i as int),
                decreases group.len() - i,
            {
                let n = group[i].duplicate();
                let ghost before = r.deep_view();
                r.push(n);
                assert(r.deep_view() =~= before.push(n@));
                assert(group.deep_view()[i as int] == group@[i as int].deep_view());
                assert(group.deep_view().take(i + 1) =~= group.deep_view().take(i as int).push(
                    group.deep_view()[i as int],
                ));
                i = i + 1;
            }
            assert(group.deep_view().take(group@.len() as int) =~= group.deep_view());
        },
        None => {
            assert(r.deep_view() =~= Seq::<NoteView>::empty());
        },
    }
    r
}

/// Whether `id` is among `ids`.
pub fn contains_id(ids: &Vec<u128>, id: u128) -> (r: bool)
    ensures
        r == ids@.contains(id),
{
    let mut i: usize = 0;
    while i < ids.len()
        invariant
            i <= ids@.len(),
            forall|j: int| 0 <= j < i ==> ids@[j] != id,
        decreases ids.len() - i,
    {
        if ids[i] == id {
            assert(ids@[i as int] == id);
            return true;
        }
        i = i + 1;
    }
    false
}

/// The visual state of node `id`.
pub fn node_state_of(id: u128, root: u128, current: u128, visited: &Vec<u128>) -> (r: NodeState)
    ensures
        r == node_state(id, root, current, visited@),
{
    if id == root {
        NodeState::TopicRoot
    } else if id == current {
        NodeState::Current
    } else if contains_id(visited, id) {
        NodeState::Visited
    } else {
        NodeState::Proposal
    }
}

/// The visual state of an edge.
pub fn edge_state_of(e: &Edge, root: u128, current: u128, visited: &Vec<u128>) -> (r: EdgeState)
    ensures
        r == edge_state(*e, root, current, visited@),
{
    let source_reached = contains_id(visited, e.source_id) || e.source_id == current
        || e.source_id == root;
    let target_reached = contains_id(visited, e.target_id) || e.target_id == current;
    if source_reached && target_reached {
        EdgeState::Traversed
    } else {
        EdgeState::Proposal
    }
}

/// The first edge leading into node `id`.
pub fn incoming_edge_of(edges: &Vec<Edge>, id: u128) -> (r: Option<Edge>)
    ensures
        r == incoming_edge(edges@, id),
{
    let mut i: usize = 0;
    while i < edges.len()
        invariant
            i <= edges@.len(),
            incoming_edge(edges@, id) == incoming_edge(edges@.subrange(i as int, edges@.len() as int), id),
        decreases edges.len() - i,
    {
        assert(edges@.subrange(i as int, edges@.len() as int).drop_first() =~= edges@.subrange(
            i + 1,
            edges@.len() as int,
        ));
        if edges[i].target_id == id {
            return Some(edges[i]);
        }
        i = i + 1;
    }
    None
}

/// The weight of the first edge into node `id`, or that of a fresh edge.
pub fn incoming_weight_of(edges: &Vec<Edge>, id: u128) -> (r: Weight)
    ensures
        r == incoming_weight(edges@, id),
{
    match incoming_edge_of(edges, id) {
        Some(e) => e.weight,
        None => Weight { traversals: 0, backups: 0 },
    }
}

/// The canvas edge for `e`.
fn tag_edge(
    e: &Edge,
    root: u128,
    current: u128,
    visited: &Vec<u128>,
    Ghost(t): Ghost<Tagging>,
) -> (r: GraphEdge)
    requires
        t.root == root,
        t.current == current,
        t.visited == visited@,
    ensures
        r@ == tagged_edge(*e, t),
{
    let mut id = uuid_string(e.source_id);
    string_push(&mut id, '-');
    let target = uuid_string(e.target_id);
    push_str(&mut id, target.as_str());
    assert(id@ =~= uuid_text(e.source_id) + seq!['-'] + uuid_text(e.target_id));
    GraphEdge {
        id,
        source_id: e.source_id,
        target_id: e.target_id,
        movement: e.movement,
        state: edge_state_of(e, root, current, visited),
        weight: e.weight,
    }
}

// ─── Ordering of proposals ─────────────────────────────────────────

/// The sort key of a canvas node: the weight of its first incoming edge.
pub open spec fn node_key(edges: Seq<Edge>, n: GraphNodeView) -> Weight {
    incoming_weight(edges, n.id)
}

/// Whether a canvas node is a proposal.
pub open spec fn is_proposal(n: GraphNodeView) -> bool {
    n.state == NodeState::Proposal
}

/// The proposal test as a predicate value.
pub open spec fn proposal_pred() -> spec_fn(GraphNodeView) -> bool {
    |n: GraphNodeView| is_proposal(n)
}

/// The negation of the proposal test as a predicate value.
pub open spec fn settled_pred() -> spec_fn(GraphNodeView) -> bool {
    |n: GraphNodeView| !is_proposal(n)
}

/// Inserts `x` into `s` after every element at least as heavy as `x`.
pub open spec fn insert_by_weight(s: Seq<GraphNodeView>, x: GraphNodeView, edges: Seq<Edge>) -> Seq<
    GraphNodeView,
>
    decreases s.len(),
{
    if s.len() == 0 {
        seq![x]
    } else if heavier(node_key(edges, x), node_key(edges, s[0])) {
        seq![x] + s
    } else {
        seq![s[0]] + insert_by_weight(s.drop_first(), x, edges)
    }
}

/// `s` sorted by decreasing key, stably (equal keys keep their order).
pub open spec fn sort_by_weight(s: Seq<GraphNodeView>, edges: Seq<Edge>) -> Seq<GraphNodeView>
    decreases s.len(),
{
    if s.len() == 0 {
        s
    } else {
        insert_by_weight(sort_by_weight(s.drop_last(), edges), s.last(), edges)
    }
}

/// Fills the slots marked `true` in `mask` from `a` and the others from `b`, in order.
pub open spec fn interleave(mask: Seq<bool>, a: Seq<GraphNodeView>, b: Seq<GraphNodeView>) -> Seq<
    GraphNodeView,
>
    decreases mask.len(),
{
    if mask.len() == 0 {
        seq![]
    } else if mask.last() {
        interleave(mask.drop_last(), a.drop_last(), b).push(a.last())
    } else {
        interleave(mask.drop_last(), a, b.drop_last()).push(b.last())
    }
}

/// Which slots of `nodes` hold proposals.
pub open spec fn proposal_mask(nodes: Seq<GraphNodeView>) -> Seq<bool> {
    nodes.map_values(|n: GraphNodeView| is_proposal(n))
}

/// `nodes` with the proposals reordered by decreasing incoming edge weight; every other node
/// keeps its place.
pub open spec fn arrange(nodes: Seq<GraphNodeView>, edges: Seq<Edge>) -> Seq<GraphNodeView> {
    interleave(
        proposal_mask(nodes),
        sort_by_weight(nodes.filter(proposal_pred()), edges),
        nodes.filter(settled_pred()),
    )
}

/// The canvas nodes before ordering: the topic root, then each subgraph node in turn.
pub open spec fn unordered_nodes(sub: VisibleSubgraphView, t: Tagging) -> Seq<GraphNodeView> {
    seq![root_node(sub.topic_root, t)] + sub.nodes.map_values(|n: NodeView| tagged_node(n, t))
}

/// The learner's current node: the stored position, or the topic root when there is none.
pub open spec fn current_of(position: Option<u128>, topic_root_id: u128) -> u128 {
    match position {
        Some(p) => p,
        None => topic_root_id,
    }
}

proof fn lemma_insert_at(s: Seq<GraphNodeView>, x: GraphNodeView, edges: Seq<Edge>, k: int)
    requires
        0 <= k <= s.len(),
        forall|j: int| 0 <= j < k ==> !heavier(node_key(edges, x), node_key(edges, #[trigger] s[j])),
        k < s.len() ==> heavier(node_key(edges, x), node_key(edges, s[k])),
    ensures
        insert_by_weight(s, x, edges) == s.insert(k, x),
    decreases k,
{
    if k == 0 {
        if s.len() == 0 {
            assert(s.insert(0, x) =~= seq![x]);
        } else {
            assert(s.insert(0, x) =~= seq![x] + s);
        }
    } else {
        assert(!heavier(node_key(edges, x), node_key(edges, s[0])));
        let t = s.drop_first();
        assert forall|j: int| 0 <= j < k - 1 implies !heavier(
            node_key(edges, x),
            node_key(edges, #[trigger] t[j]),
        ) by {
            assert(t[j] == s[j + 1]);
        }
        lemma_insert_at(t, x, edges, k - 1);
        assert(seq![s[0]] + t.insert(k - 1, x) =~= s.insert(k, x));
    }
}

/// Where `x` goes among `sorted`: after every node at least as heavy.
fn insert_position(sorted: &Vec<GraphNode>, x_key: Weight, edges: &Vec<Edge>) -> (k: usize)
    ensures
        k <= sorted@.len(),
        forall|j: int|
            0 <= j < k ==> !heavier(x_key, node_key(edges@, #[trigger] sorted.deep_view()[j])),
        k < sorted@.len() ==> heavier(x_key, node_key(edges@, sorted.deep_view()[k as int])),
{
    let mut k: usize = 0;
    while k < sorted.len()
        invariant
            k <= sorted@.len(),
            forall|j: int|
                0 <= j < k ==> !heavier(x_key, node_key(edges@, #[trigger] sorted.deep_view()[j])),
        decreases sorted.len() - k,
    {
        let w = incoming_weight_of(edges, sorted[k].id);
        if is_heavier(x_key, w) {
            return k;
        }
        k = k + 1;
    }
    k
}

/// Inserts `x` into `sorted` after every node at least as heavy.
fn insert_node(sorted: &mut Vec<GraphNode>, x: GraphNode, edges: &Vec<Edge>)
    ensures
        final(sorted).deep_view() == insert_by_weight(old(sorted).deep_view(), x@, edges@),
{
    let x_key = incoming_weight_of(edges, x.id);
    let k = insert_position(sorted, x_key, edges);
    proof {
        lemma_insert_at(sorted.deep_view(), x@, edges@, k as int);
    }
    let ghost before = sorted.deep_view();
    let ghost xv = x@;
    sorted.insert(k, x);
    assert(sorted.deep_view() =~= before.insert(k as int, xv));
}

/// Appends canvas node `x` to the partition built so far.
fn place_node(
    x: GraphNode,
    mask: &mut Vec<bool>,
    sorted: &mut Vec<GraphNode>,
    settled: &mut Vec<GraphNode>,
    edges: &Vec<Edge>,
    Ghost(seen): Ghost<Seq<GraphNodeView>>,
)
    requires
        old(mask)@ == proposal_mask(seen),
        old(sorted).deep_view() == sort_by_weight(seen.filter(proposal_pred()), edges@),
        old(settled).deep_view() == seen.filter(settled_pred()),
    ensures
        final(mask)@ == proposal_mask(seen.push(x@)),
        final(sorted).deep_view() == sort_by_weight(seen.push(x@).filter(proposal_pred()), edges@),
        final(settled).deep_view() == seen.push(x@).filter(settled_pred()),
{
    let ghost xv = x@;
    let ghost s2 = seen.push(xv);
    assert(proposal_mask(s2) =~= proposal_mask(seen).push(is_proposal(xv)));
    proof {
        seen.lemma_filter_push(xv, proposal_pred());
        seen.lemma_filter_push(xv, settled_pred());
    }
    if x.state == NodeState::Proposal {
        mask.push(true);
        let ghost f = seen.filter(proposal_pred());
        assert(f.push(xv).drop_last() =~= f);
        insert_node(sorted, x, edges);
    } else {
        mask.push(false);
        let ghost before = settled.deep_view();
        settled.push(x);
        assert(settled.deep_view() =~= before.push(xv));
    }
}

/// The number of `true` slots in `mask`.
pub open spec fn count_true(mask: Seq<bool>) -> nat
    decreases mask.len(),
{
    if mask.len() == 0 {
        0
    } else {
        count_true(mask.drop_last()) + if mask.last() {
            1nat
        } else {
            0nat
        }
    }
}

proof fn lemma_count_true_le(mask: Seq<bool>)
    ensures
        count_true(mask) <= mask.len(),
    decreases mask.len(),
{
    if mask.len() > 0 {
        lemma_count_true_le(mask.drop_last());
    }
}

proof fn lemma_insert_len(s: Seq<GraphNodeView>, x: GraphNodeView, edges: Seq<Edge>)
    ensures
        insert_by_weight(s, x, edges).len() == s.len() + 1,
    decreases s.len(),
{
    if s.len() > 0 && !heavier(node_key(edges, x), node_key(edges, s[0])) {
        lemma_insert_len(s.drop_first(), x, edges);
    }
}

proof fn lemma_sort_len(s: Seq<GraphNodeView>, edges: Seq<Edge>)
    ensures
        sort_by_weight(s, edges).len() == s.len(),
    decreases s.len(),
{
    if s.len() > 0 {
        lemma_sort_len(s.drop_last(), edges);
        lemma_insert_len(sort_by_weight(s.drop_last(), edges), s.last(), edges);
    }
}

proof fn lemma_filter_counts(s: Seq<GraphNodeView>)
    ensures
        s.filter(proposal_pred()).len() == count_true(proposal_mask(s)),
        s.filter(settled_pred()).len() + count_true(proposal_mask(s)) == s.len(),
    decreases s.len(),
{
    if s.len() > 0 {
        let t = s.drop_last();
        lemma_filter_counts(t);
        assert(t.push(s.last()) =~= s);
        t.lemma_filter_push(s.last(), proposal_pred());
        t.lemma_filter_push(s.last(), settled_pred());
        assert(proposal_mask(s).drop_last() =~= proposal_mask(t));
    }
}

/// The canvas node for a graph node, taking over its fields; `groups` holds the notes of
/// `rows` grouped by node.
fn tag_node(
    n: Node,
    root: u128,
    current: u128,
    visited: &Vec<u128>,
    edges: &Vec<Edge>,
    groups: &HashMap<u128, Vec<Note>>,
    Ghost(rows): Ghost<Seq<NoteRowView>>,
) -> (r: GraphNode)
    requires
        groups_notes(groups@, rows),
    ensures
        r@ == tagged_node(
            n@,
            (Tagging { root, current, visited: visited@, edges: edges@, notes: rows }),
        ),
{
    let movement = match incoming_edge_of(edges, n.id) {
        Some(e) => Some(e.movement),
        None => None,
    };
    let state = node_state_of(n.id, root, current, visited);
    let node_notes = notes_in(groups, n.id);
    proof {
        lemma_group_of(groups@, rows, n.id);
    }
    GraphNode {
        id: n.id,
        title: n.title,
        description: n.description,
        resources: n.resources,
        notes: node_notes,
        state,
        movement,
        is_wildcard: false,
        visit_count: n.visit_count,
        depth: n.depth,
    }
}

/// Assembles the learner's visible topic graph.
///
/// The current node is the stored `position`, or the topic root when there is none. Nodes are
/// tagged with their state (topic root, current, visited, proposal), edges with theirs
/// (traversed when both ends have been reached), and the proposals are reordered by decreasing
/// incoming edge weight while every other node keeps its place.
pub fn assemble_topic_graph(
    subgraph: VisibleSubgraph,
    visited_ids: &Vec<u128>,
    position: Option<u128>,
    topic_root_id: u128,
    notes: &Vec<NoteRow>,
) -> (g: TopicGraph)
    ensures
        g.current_node_id == current_of(position, topic_root_id),
        g.topic_root@ == subgraph@.topic_root,
        g.nodes.deep_view() == arrange(
            unordered_nodes(
                subgraph@,
                (Tagging {
                    root: topic_root_id,
                    current: current_of(position, topic_root_id),
                    visited: visited_ids@,
                    edges: subgraph@.edges,
                    notes: notes.deep_view(),
                }),
            ),
            subgraph@.edges,
        ),
        g.edges.deep_view() == tagged_edges(
            subgraph@.edges,
            (Tagging {
                root: topic_root_id,
                current: current_of(position, topic_root_id),
                visited: visited_ids@,
                edges: subgraph@.edges,
                notes: notes.deep_view(),
            }),
        ),
{
    let current = match position {
        Some(p) => p,
        None => topic_root_id,
    };
    let ghost sub = subgraph@;
    let ghost t = Tagging {
        root: topic_root_id,
        current,
        visited: visited_ids@,
        edges: sub.edges,
        notes: notes.deep_view(),
    };
    let ghost unordered = unordered_nodes(sub, t);
    let VisibleSubgraph { topic_root, nodes, edges } = subgraph;
    let groups = group_notes(notes);

    // Tag the edges.
    let mut graph_edges: Vec<GraphEdge> = Vec::new();
    let mut e_i: usize = 0;
    while e_i < edges.len()
        invariant
            e_i <= edges@.len(),
            edges@ == sub.edges,
            graph_edges.deep_view() == tagged_edges(edges@.take(e_i as int), t),
            t.root == topic_root_id && t.current == current && t.visited == visited_ids@,
        decreases edges.len() - e_i,
    {
        let ge = tag_edge(&edges[e_i], topic_root_id, current, visited_ids, Ghost(t));
        let ghost before = graph_edges.deep_view();
        graph_edges.push(ge);
        assert(graph_edges.deep_view() =~= before.push(ge@));
        assert(edges@.take(e_i + 1) =~= edges@.take(e_i as int).push(edges@[e_i as int]));
        assert(tagged_edges(edges@.take(e_i + 1), t) =~= tagged_edges(edges@.take(e_i as int), t).push(ge@));
        e_i = e_i + 1;
    }
    assert(edges@.take(edges@.len() as int) =~= edges@);

    // Tag the nodes, splitting them into ordered proposals and the rest.
    let root_notes = notes_in(&groups, topic_root.id);
    proof {
        lemma_group_of(groups@, notes.deep_view(), topic_root.id);
    }
    let root_graph_node = GraphNode {
        id: topic_root.id,
        title: topic_root.name.clone(),
        description: topic_root.description.clone(),
        resources: Vec::new(),
        notes: root_notes,
        state: NodeState::TopicRoot,
        movement: None,
        is_wildcard: false,
        visit_count: 0,
        depth: 0,
    };
    assert(root_graph_node@ == root_node(sub.topic_root, t)) by {
        assert(root_graph_node.resources.deep_view() =~= Seq::<ResourceView>::empty());
    }
    let mut mask: Vec<bool> = Vec::new();
    let mut sorted: Vec<GraphNode> = Vec::new();
    let mut settled: Vec<GraphNode> = Vec::new();
    assert(mask@ =~= proposal_mask(Seq::<GraphNodeView>::empty()));
    assert(sorted.deep_view() =~= sort_by_weight(
        Seq::<GraphNodeView>::empty().filter(proposal_pred()),
        edges@,
    )) by {
        reveal(Seq::filter);
    }
    assert(settled.deep_view() =~= Seq::<GraphNodeView>::empty().filter(settled_pred())) by {
        reveal(Seq::filter);
    }
    place_node(root_graph_node, &mut mask, &mut sorted, &mut settled, &edges, Ghost(Seq::<GraphNodeView>::empty()));
    assert(seq![root_node(sub.topic_root, t)] =~= Seq::<GraphNodeView>::empty().push(
        root_node(sub.topic_root, t),
    ));
    assert(unordered.take(1) =~= seq![root_node(sub.topic_root, t)]);

    let mut remaining = nodes;
    let ghost all_nodes = remaining.deep_view();
    let node_count = remaining.len();
    assert(all_nodes.len() == node_count);
    // Reverse so that popping yields the nodes in order.
    let mut pending: Vec<Node> = Vec::new();
    while remaining.len() > 0
        invariant
            all_nodes == sub.nodes,
            all_nodes.len() <= usize::MAX,
            all_nodes == remaining.deep_view() + pending.deep_view().reverse(),
        decreases remaining.len(),
    {
        let ghost r0 = remaining.deep_view();
        let ghost p0 = pending.deep_view();
        let n = remaining.pop().unwrap();
        let ghost nv = n@;
        pending.push(n);
        assert(r0 =~= remaining.deep_view().push(nv));
        assert(pending.deep_view() =~= p0.push(nv));
        assert(pending.deep_view().reverse() =~= seq![nv] + p0.reverse());
    }
    assert(pending.deep_view().reverse() =~= all_nodes);
    let mut done: usize = 0;
    while pending.len() > 0
        invariant
            groups_notes(groups@, notes.deep_view()),
            done + pending@.len() == all_nodes.len(),
            all_nodes.len() <= usize::MAX,
            all_nodes == sub.nodes,
            pending.deep_view().reverse() == all_nodes.subrange(done as int, all_nodes.len() as int),
            edges@ == sub.edges,
            t == (Tagging {
                root: topic_root_id,
                current,
                visited: visited_ids@,
                edges: edges@,
                notes: notes.deep_view(),
            }),
            unordered == unordered_nodes(sub, t),
            mask@ == proposal_mask(unordered.take(done + 1)),
            sorted.deep_view() == sort_by_weight(unordered.take(done + 1).filter(proposal_pred()), edges@),
            settled.deep_view() == unordered.take(done + 1).filter(settled_pred()),
        decreases pending.len(),
    {
        let ghost p0 = pending.deep_view();
        let n = pending.pop().unwrap();
        assert(p0 =~= pending.deep_view().push(n@));
        assert(p0.reverse() =~= seq![n@] + pending.deep_view().reverse());
        assert(all_nodes[done as int] == n@) by {
            assert(p0.reverse()[0] == all_nodes.subrange(done as int, all_nodes.len() as int)[0]);
        }
        let gn = tag_node(n, topic_root_id, current, visited_ids, &edges, &groups, Ghost(notes.deep_view()));
        assert(unordered[done + 1] == gn@);
        assert(unordered.take(done + 2) =~= unordered.take(done + 1).push(gn@));
        place_node(gn, &mut mask, &mut sorted, &mut settled, &edges, Ghost(unordered.take(done + 1)));
        assert(pending.deep_view().reverse() =~= all_nodes.subrange(done + 1, all_nodes.len() as int));
        done = done + 1;
    }
    assert(unordered.take(done + 1) =~= unordered);

    // Fill the proposal slots from the ordered proposals and the rest in place.
    proof {
        lemma_filter_counts(unordered);
        lemma_sort_len(unordered.filter(proposal_pred()), edges@);
    }
    let ghost m = mask@;
    let mut out: Vec<GraphNode> = Vec::new();
    let mut i: usize = mask.len();
    while i > 0
        invariant
            i <= m.len(),
            m == mask@,
            m == proposal_mask(unordered),
            sorted@.len() == count_true(m.take(i as int)),
            settled@.len() + count_true(m.take(i as int)) == i,
            arrange(unordered, edges@) == interleave(
                m.take(i as int),
                sorted.deep_view(),
                settled.deep_view(),
            ) + out.deep_view(),
        decreases i,
    {
        assert(m.take(i as int).drop_last() =~= m.take(i - 1));
        assert(m.take(i as int).last() == m[i - 1]);
        proof {
            lemma_count_true_le(m.take(i - 1));
        }
        let ghost a = sorted.deep_view();
        let ghost b = settled.deep_view();
        let ghost o = out.deep_view();
        if mask[i - 1] {
            let x = sorted.pop().unwrap();
            assert(a =~= sorted.deep_view().push(x@));
            assert(sorted.deep_view() =~= a.drop_last());
            assert(x@ == a.last());
            assert(interleave(m.take(i as int), a, b) == interleave(m.take(i - 1), a.drop_last(), b).push(a.last()));
            out.insert(0, x);
            assert(out.deep_view() =~= seq![x@] + o);
            assert(interleave(m.take(i - 1), a.drop_last(), b).push(a.last()) + o =~= interleave(m.take(i - 1), a.drop_last(), b) + (seq![a.last()] + o));
        } else {
            let x = settled.pop().unwrap();
            assert(b =~= settled.deep_view().push(x@));
            assert(settled.deep_view() =~= b.drop_last());
            assert(x@ == b.last());
            assert(interleave(m.take(i as int), a, b) == interleave(m.take(i - 1), a, b.drop_last()).push(b.last()));
            out.insert(0, x);
            assert(out.deep_view() =~= seq![x@] + o);
            assert(interleave(m.take(i - 1), a, b.drop_last()).push(b.last()) + o =~= interleave(m.take(i - 1), a, b.drop_last()) + (seq![b.last()] + o));
        }
        i = i - 1;
    }
    assert(m.take(0) =~= Seq::<bool>::empty());
    assert(out.deep_view() =~= arrange(unordered, edges@));

    TopicGraph { topic_root, current_node_id: current, nodes: out, edges: graph_edges }
}

// ─── Laws of the ordering ──────────────────────────────────────────

/// Nodes in `s` never get heavier further along.
pub open spec fn ordered_by_weight(s: Seq<GraphNodeView>, edges: Seq<Edge>) -> bool {
    forall|i: int, j: int|
        0 <= i < j < s.len() ==> !heavier(node_key(edges, #[trigger] s[j]), node_key(edges, #[trigger] s[i]))
}

proof fn lemma_insert_index(s: Seq<GraphNodeView>, x: GraphNodeView, edges: Seq<Edge>) -> (k: int)
    ensures
        0 <= k <= s.len(),
        insert_by_weight(s, x, edges) == s.insert(k, x),
        forall|j: int| 0 <= j < k ==> !heavier(node_key(edges, x), node_key(edges, #[trigger] s[j])),
        k < s.len() ==> heavier(node_key(edges, x), node_key(edges, s[k])),
    decreases s.len(),
{
    if s.len() == 0 {
        assert(s.insert(0, x) =~= seq![x]);
        0
    } else if heavier(node_key(edges, x), node_key(edges, s[0])) {
        assert(s.insert(0, x) =~= seq![x] + s);
        0
    } else {
        let t = s.drop_first();
        let k1 = lemma_insert_index(t, x, edges);
        assert(seq![s[0]] + t.insert(k1, x) =~= s.insert(k1 + 1, x));
        assert forall|j: int| 0 <= j < k1 + 1 implies !heavier(
            node_key(edges, x),
            node_key(edges, #[trigger] s[j]),
        ) by {
            if j > 0 {
                assert(s[j] == t[j - 1]);
            }
        }
        if k1 + 1 < s.len() {
            assert(s[k1 + 1] == t[k1]);
        }
        k1 + 1
    }
}

proof fn lemma_insert_multiset(s: Seq<GraphNodeView>, k: int, x: GraphNodeView)
    requires
        0 <= k <= s.len(),
    ensures
        s.insert(k, x).to_multiset() == s.to_multiset().insert(x),
{
    let t = s.insert(k, x);
    assert(t.remove(k) =~= s);
    assert(t[k] == x);
    assert(t.remove(k).to_multiset() == t.to_multiset().remove(x));
    assert(t.to_multiset().count(x) > 0);
    assert(t.to_multiset() =~= s.to_multiset().insert(x));
}

#[verifier::spinoff_prover]
#[verifier::rlimit(40)]
proof fn lemma_insert_ordered(s: Seq<GraphNodeView>, x: GraphNodeView, edges: Seq<Edge>)
    requires
        ordered_by_weight(s, edges),
    ensures
        ordered_by_weight(insert_by_weight(s, x, edges), edges),
        insert_by_weight(s, x, edges).to_multiset() == s.to_multiset().insert(x),
{
    let k = lemma_insert_index(s, x, edges);
    lemma_insert_multiset(s, k, x);
    let t = s.insert(k, x);
    let kx = node_key(edges, x);
    assert forall|i: int, j: int| 0 <= i < j < t.len() implies !heavier(
        node_key(edges, #[trigger] t[j]),
        node_key(edges, #[trigger] t[i]),
    ) by {
        if i < k && j < k {
            assert(t[i] == s[i] && t[j] == s[j]);
        } else if i > k && j > k {
            assert(t[i] == s[i - 1] && t[j] == s[j - 1]);
        } else if i < k && j > k {
            assert(t[i] == s[i] && t[j] == s[j - 1]);
        } else if i == k {
            let sj = node_key(edges, s[j - 1]);
            let sk = node_key(edges, s[k]);
            assert(t[j] == s[j - 1]);
            lemma_heavier_strict_order(sj, kx, sk);
            lemma_heavier_strict_order(kx, sk, sj);
            if j - 1 > k {
                assert(!heavier(sj, sk));
            }
        } else {
            assert(j == k);
            assert(t[i] == s[i]);
        }
    }
}

proof fn lemma_sort_ordered(s: Seq<GraphNodeView>, edges: Seq<Edge>)
    ensures
        ordered_by_weight(sort_by_weight(s, edges), edges),
        sort_by_weight(s, edges).to_multiset() == s.to_multiset(),
    decreases s.len(),
{
    if s.len() == 0 {
    } else {
        let d = s.drop_last();
        lemma_sort_ordered(d, edges);
        lemma_insert_ordered(sort_by_weight(d, edges), s.last(), edges);
        assert(d.push(s.last()) =~= s);
    }
}

proof fn lemma_count_true_step(mask: Seq<bool>, k: int)
    requires
        0 <= k < mask.len(),
    ensures
        count_true(mask.take(k + 1)) == count_true(mask.take(k)) + if mask[k] {
            1nat
        } else {
            0nat
        },
{
    assert(mask.take(k + 1).drop_last() =~= mask.take(k));
}

proof fn lemma_count_true_monotone(mask: Seq<bool>, i: int, j: int)
    requires
        0 <= i <= j <= mask.len(),
    ensures
        count_true(mask.take(i)) <= count_true(mask.take(j)),
        count_true(mask.take(j)) - count_true(mask.take(i)) <= j - i,
    decreases j - i,
{
    if i < j {
        lemma_count_true_monotone(mask, i, j - 1);
        lemma_count_true_step(mask, j - 1);
    }
}

proof fn lemma_interleave_len(mask: Seq<bool>, a: Seq<GraphNodeView>, b: Seq<GraphNodeView>)
    requires
        a.len() == count_true(mask),
        b.len() + count_true(mask) == mask.len(),
    ensures
        interleave(mask, a, b).len() == mask.len(),
        interleave(mask, a, b).to_multiset() == a.to_multiset().add(b.to_multiset()),
    decreases mask.len(),
{
    broadcast use vstd::seq_lib::group_to_multiset_ensures;

    if mask.len() == 0 {
        assert(a =~= Seq::<GraphNodeView>::empty());
        assert(b =~= Seq::<GraphNodeView>::empty());
        assert(interleave(mask, a, b).to_multiset() =~= a.to_multiset().add(b.to_multiset()));
    } else {
        let d = mask.drop_last();
        lemma_count_true_le(d);
        if mask.last() {
            lemma_interleave_len(d, a.drop_last(), b);
            assert(a.drop_last().push(a.last()) =~= a);
        } else {
            lemma_interleave_len(d, a, b.drop_last());
            assert(b.drop_last().push(b.last()) =~= b);
        }
        assert(interleave(mask, a, b).to_multiset() =~= a.to_multiset().add(b.to_multiset()));
    }
}

proof fn lemma_interleave_at(mask: Seq<bool>, a: Seq<GraphNodeView>, b: Seq<GraphNodeView>, k: int)
    requires
        a.len() == count_true(mask),
        b.len() + count_true(mask) == mask.len(),
        0 <= k < mask.len(),
    ensures
        mask[k] ==> interleave(mask, a, b)[k] == a[count_true(mask.take(k)) as int],
        !mask[k] ==> interleave(mask, a, b)[k] == b[k - count_true(mask.take(k))],
    decreases mask.len(),
{
    let d = mask.drop_last();
    let n = mask.len() - 1;
    lemma_count_true_le(d);
    if mask.last() {
        lemma_interleave_len(d, a.drop_last(), b);
    } else {
        lemma_interleave_len(d, a, b.drop_last());
    }
    let r = interleave(mask, a, b);
    if k == n {
        assert(mask.take(n) =~= d);
        if !mask[k] {
            assert(count_true(mask) == count_true(d));
            assert(b.len() == n + 1 - count_true(d));
            assert(r[k] == b.last());
        }
    } else {
        assert(mask.take(k) =~= d.take(k));
        assert(mask[k] == d[k]);
        lemma_count_true_monotone(d, k + 1, n);
        lemma_count_true_step(d, k);
        assert(d.take(n) =~= d);
        if mask.last() {
            lemma_interleave_at(d, a.drop_last(), b, k);
            assert(r[k] == interleave(d, a.drop_last(), b)[k]);
        } else {
            lemma_interleave_at(d, a, b.drop_last(), k);
            assert(r[k] == interleave(d, a, b.drop_last())[k]);
            if !mask[k] {
                lemma_count_true_le(d.take(k));
                let idx = k - count_true(d.take(k));
                assert(idx < b.len() - 1);
                assert(b.drop_last()[idx] == b[idx]);
            }
        }
    }
}

proof fn lemma_filter_multiset(s: Seq<GraphNodeView>)
    ensures
        s.filter(proposal_pred()).to_multiset().add(s.filter(settled_pred()).to_multiset())
            == s.to_multiset(),
    decreases s.len(),
{
    broadcast use vstd::seq_lib::group_to_multiset_ensures;

    if s.len() == 0 {
        reveal(Seq::filter);
        assert(s.filter(proposal_pred()).to_multiset().add(s.filter(settled_pred()).to_multiset())
            =~= s.to_multiset());
    } else {
        let d = s.drop_last();
        let x = s.last();
        lemma_filter_multiset(d);
        assert(d.push(x) =~= s);
        d.lemma_filter_push(x, proposal_pred());
        d.lemma_filter_push(x, settled_pred());
        assert(s.filter(proposal_pred()).to_multiset().add(s.filter(settled_pred()).to_multiset())
            =~= s.to_multiset());
    }
}

#[verifier::spinoff_prover]
#[verifier::rlimit(30)]
proof fn lemma_filter_at(s: Seq<GraphNodeView>, k: int)
    requires
        0 <= k < s.len(),
    ensures
        is_proposal(s[k]) ==> s.filter(proposal_pred())[count_true(proposal_mask(s).take(k)) as int]
            == s[k],
        !is_proposal(s[k]) ==> s.filter(settled_pred())[k - count_true(proposal_mask(s).take(k))]
            == s[k],
    decreases s.len(),
{
    let d = s.drop_last();
    let n = s.len() - 1;
    let x = s.last();
    let m = proposal_mask(s);
    lemma_filter_counts(d);
    assert(d.push(x) =~= s);
    d.lemma_filter_push(x, proposal_pred());
    d.lemma_filter_push(x, settled_pred());
    assert(proposal_mask(d) =~= m.drop_last());
    assert(proposal_mask(d).take(n) =~= proposal_mask(d));
    lemma_filter_counts(s);
    if k == n {
        assert(m.take(n) =~= proposal_mask(d));
        if !is_proposal(x) {
            assert(count_true(m) == count_true(proposal_mask(d)));
        }
    } else {
        assert(m.take(k) =~= proposal_mask(d).take(k));
        assert(s[k] == d[k]);
        assert(proposal_mask(d)[k] == is_proposal(d[k]));
        lemma_count_true_step(proposal_mask(d), k);
        lemma_count_true_monotone(proposal_mask(d), k + 1, n);
        lemma_filter_at(d, k);
        lemma_count_true_le(m.take(k));
        if !is_proposal(s[k]) {
            let idx = k - count_true(m.take(k));
            assert(idx < d.filter(settled_pred()).len());
        } else {
            let idx = count_true(m.take(k)) as int;
            assert(idx < d.filter(proposal_pred()).len());
        }
    }
}

/// Ordering the proposals neither adds, drops nor duplicates a node.
pub proof fn lemma_arrange_permutes(nodes: Seq<GraphNodeView>, edges: Seq<Edge>)
    ensures
        arrange(nodes, edges).len() == nodes.len(),
        arrange(nodes, edges).to_multiset() == nodes.to_multiset(),
{
    let a = sort_by_weight(nodes.filter(proposal_pred()), edges);
    let b = nodes.filter(settled_pred());
    lemma_filter_counts(nodes);
    lemma_sort_len(nodes.filter(proposal_pred()), edges);
    lemma_sort_ordered(nodes.filter(proposal_pred()), edges);
    lemma_filter_multiset(nodes);
    lemma_interleave_len(proposal_mask(nodes), a, b);
}

/// Every node that is not a proposal keeps its place, and proposal slots hold proposals.
pub proof fn lemma_arrange_keeps_settled(nodes: Seq<GraphNodeView>, edges: Seq<Edge>)
    ensures
        forall|k: int|
            0 <= k < nodes.len() && !is_proposal(#[trigger] nodes[k]) ==> arrange(nodes, edges)[k]
                == nodes[k],
        forall|k: int|
            0 <= k < nodes.len() ==> is_proposal(#[trigger] arrange(nodes, edges)[k]) == is_proposal(
                nodes[k],
            ),
{
    assert forall|k: int| 0 <= k < nodes.len() implies (!is_proposal(#[trigger] nodes[k]) ==> arrange(
        nodes,
        edges,
    )[k] == nodes[k]) && is_proposal(arrange(nodes, edges)[k]) == is_proposal(nodes[k]) by {
        lemma_arrange_at(nodes, edges, k);
    }
}

proof fn lemma_arrange_at(nodes: Seq<GraphNodeView>, edges: Seq<Edge>, k: int)
    requires
        0 <= k < nodes.len(),
    ensures
        !is_proposal(nodes[k]) ==> arrange(nodes, edges)[k] == nodes[k],
        is_proposal(arrange(nodes, edges)[k]) == is_proposal(nodes[k]),
        is_proposal(nodes[k]) ==> arrange(nodes, edges)[k] == sort_by_weight(
            nodes.filter(proposal_pred()),
            edges,
        )[count_true(proposal_mask(nodes).take(k)) as int],
        count_true(proposal_mask(nodes).take(k)) <= count_true(proposal_mask(nodes)),
        is_proposal(nodes[k]) ==> count_true(proposal_mask(nodes).take(k)) < count_true(
            proposal_mask(nodes),
        ),
{
    let m = proposal_mask(nodes);
    let f = nodes.filter(proposal_pred());
    let a = sort_by_weight(f, edges);
    let b = nodes.filter(settled_pred());
    lemma_filter_counts(nodes);
    lemma_sort_len(f, edges);
    lemma_sort_ordered(f, edges);
    lemma_interleave_at(m, a, b, k);
    lemma_filter_at(nodes, k);
    assert(m[k] == is_proposal(nodes[k]));
    lemma_count_true_monotone(m, k + 1, m.len() as int);
    lemma_count_true_step(m, k);
    assert(m.take(m.len() as int) =~= m);
    if is_proposal(nodes[k]) {
        let c = count_true(m.take(k)) as int;
        assert(a.to_multiset().count(a[c]) > 0) by {
            broadcast use vstd::seq_lib::group_to_multiset_ensures;
            assert(a.contains(a[c]));
        }
        assert(f.contains(a[c])) by {
            broadcast use vstd::seq_lib::group_to_multiset_ensures;
        }
        let j = choose|j: int| 0 <= j < f.len() && f[j] == a[c];
        nodes.lemma_filter_pred(proposal_pred(), j);
    }
}

/// Proposals come out by decreasing incoming edge weight.
pub proof fn lemma_arrange_orders_proposals(nodes: Seq<GraphNodeView>, edges: Seq<Edge>)
    ensures
        forall|i: int, j: int|
            0 <= i < j < nodes.len() && is_proposal(#[trigger] arrange(nodes, edges)[i]) && is_proposal(
                #[trigger] arrange(nodes, edges)[j],
            ) ==> !heavier(node_key(edges, arrange(nodes, edges)[j]), node_key(edges, arrange(nodes, edges)[i])),
{
    let m = proposal_mask(nodes);
    let f = nodes.filter(proposal_pred());
    let a = sort_by_weight(f, edges);
    lemma_sort_ordered(f, edges);
    let r = arrange(nodes, edges);
    assert forall|i: int, j: int|
        0 <= i < j < nodes.len() && is_proposal(#[trigger] r[i]) && is_proposal(#[trigger] r[j]) implies !heavier(
        node_key(edges, r[j]),
        node_key(edges, r[i]),
    ) by {
        lemma_arrange_at(nodes, edges, i);
        lemma_arrange_at(nodes, edges, j);
        lemma_count_true_monotone(m, i + 1, j);
        lemma_count_true_step(m, i);
        assert(m[i] == is_proposal(nodes[i]));
        let ci = count_true(m.take(i)) as int;
        let cj = count_true(m.take(j)) as int;
        lemma_filter_counts(nodes);
        lemma_sort_len(f, edges);
        assert(ci < cj < a.len());
        assert(r[i] == a[ci] && r[j] == a[cj]);
        assert(!heavier(node_key(edges, a[cj]), node_key(edges, a[ci])));
    }
}

/// The assembled graph lists the topic root first, then every subgraph node exactly once.
pub proof fn lemma_assembled_nodes(sub: VisibleSubgraphView, t: Tagging)
    ensures
        arrange(unordered_nodes(sub, t), t.edges).len() == sub.nodes.len() + 1,
        arrange(unordered_nodes(sub, t), t.edges)[0] == root_node(sub.topic_root, t),
        arrange(unordered_nodes(sub, t), t.edges).to_multiset() == unordered_nodes(sub, t).to_multiset(),
{
    let u = unordered_nodes(sub, t);
    lemma_arrange_permutes(u, t.edges);
    lemma_arrange_at(u, t.edges, 0);
}

// ─── Laws of the tagging ───────────────────────────────────────────

/// A node's state: the topic root is the topic root; otherwise the current node is current;
/// otherwise a node the learner has visited is visited, and any other node is a proposal.
pub proof fn lemma_node_states(id: u128, root: u128, current: u128, visited: Seq<u128>)
    ensures
        node_state(id, root, current, visited) == NodeState::TopicRoot <==> id == root,
        id != root && id == current ==> node_state(id, root, current, visited) == NodeState::Current,
        id != root && id != current && visited.contains(id) ==> node_state(id, root, current, visited)
            == NodeState::Visited,
        id != root && id != current && !visited.contains(id) ==> node_state(
            id,
            root,
            current,
            visited,
        ) == NodeState::Proposal,
{
}

/// An edge is traversed exactly when both its ends have been reached: its source is visited,
/// current or the topic root, and its target is visited or current.
pub proof fn lemma_edge_states(e: Edge, root: u128, current: u128, visited: Seq<u128>)
    ensures
        (visited.contains(e.source_id) || e.source_id == current || e.source_id == root) && (
        visited.contains(e.target_id) || e.target_id == current) ==> edge_state(
            e,
            root,
            current,
            visited,
        ) == EdgeState::Traversed,
        !(visited.contains(e.target_id) || e.target_id == current) ==> edge_state(
            e,
            root,
            current,
            visited,
        ) == EdgeState::Proposal,
        !(visited.contains(e.source_id) || e.source_id == current || e.source_id == root)
            ==> edge_state(e, root, current, visited) == EdgeState::Proposal,
{
}

/// In an assembled graph, the edge at `k` joins the same ends as the stored edge at `k`, and
/// it is traversed when its source is visited, current or the topic root and its target is
/// visited or current; otherwise it is a proposal.
pub proof fn lemma_assembled_edge_state(edges: Seq<Edge>, t: Tagging, k: int)
    requires
        0 <= k < edges.len(),
    ensures
        tagged_edges(edges, t)[k].source_id == edges[k].source_id,
        tagged_edges(edges, t)[k].target_id == edges[k].target_id,
        ((t.visited.contains(edges[k].source_id) || edges[k].source_id == t.current
            || edges[k].source_id == t.root) && (t.visited.contains(edges[k].target_id)
            || edges[k].target_id == t.current)) <==> tagged_edges(edges, t)[k].state
            == EdgeState::Traversed,
        tagged_edges(edges, t)[k].state == EdgeState::Traversed || tagged_edges(edges, t)[k].state
            == EdgeState::Proposal,
{
}

/// In an assembled graph, a stored node the learner has visited, that is neither the topic
/// root nor the current node, is shown as visited; one neither visited, current nor the root
/// is shown as a proposal.
pub proof fn lemma_assembled_node_state(n: NodeView, t: Tagging)
    ensures
        tagged_node(n, t).id == n.id,
        n.id != t.root && n.id != t.current && t.visited.contains(n.id) ==> tagged_node(n, t).state
            == NodeState::Visited,
        n.id != t.root && n.id != t.current && !t.visited.contains(n.id) ==> tagged_node(
            n,
            t,
        ).state == NodeState::Proposal,
        n.id == t.root ==> tagged_node(n, t).state == NodeState::TopicRoot,
        n.id != t.root && n.id == t.current ==> tagged_node(n, t).state == NodeState::Current,
{
}

} // verus!
