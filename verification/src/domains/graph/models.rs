//! The learning graph's domain model.
use vstd::prelude::*;

use crate::domains::graph::weights::Weight;
use crate::text::str_eq;

verus! {

broadcast use vstd::string::group_string_axioms;

// ─── Movements of Learning ─────────────────────────────────────────

/// How a node relates to the node it was reached from.
#[derive(Debug, Clone, Copy, PartialEq, Eq, Structural)]
pub enum Movement {
    Deeper,
    Broader,
    Foundation,
    Practice,
    Inspire,
}

/// The canonical relationship type name of a movement.
pub open spec fn relationship_name(m: Movement) -> Seq<char> {
    match m {
        Movement::Deeper => "DEEPER"@,
        Movement::Broader => "BROADER"@,
        Movement::Foundation => "FOUNDATION"@,
        Movement::Practice => "PRACTICE"@,
        Movement::Inspire => "INSPIRE"@,
    }
}

/// The movement that a relationship type name (canonical or legacy) stands for.
pub open spec fn movement_of_name(s: Seq<char>) -> Option<Movement> {
    if s == "DEEPER"@ {
        Some(Movement::Deeper)
    } else if s == "BROADER"@ {
        Some(Movement::Broader)
    } else if s == "FOUNDATION"@ {
        Some(Movement::Foundation)
    } else if s == "PRACTICE"@ {
        Some(Movement::Practice)
    } else if s == "INSPIRE"@ {
        Some(Movement::Inspire)
    } else if s == "DEEPENS"@ {
        Some(Movement::Deeper)
    } else if s == "SUPPORTS"@ {
        Some(Movement::Foundation)
    } else if s == "RELATES_TO"@ {
        Some(Movement::Broader)
    } else if s == "APPLIES"@ {
        Some(Movement::Practice)
    } else if s == "CONTEXTUALIZES"@ {
        Some(Movement::Broader)
    } else {
        None
    }
}

impl Movement {
    /// The canonical relationship type of the movement in the graph store.
    pub fn as_relationship_type(&self) -> (r: &'static str)
        ensures
            r@ == relationship_name(*self),
    {
        match self {
            Movement::Deeper => "DEEPER",
            Movement::Broader => "BROADER",
            Movement::Foundation => "FOUNDATION",
            Movement::Practice => "PRACTICE",
            Movement::Inspire => "INSPIRE",
        }
    }

    /// Parse a relationship type string into a Movement.
    /// Accepts both new names and legacy names for backward compatibility
    /// with existing graph edges.
    pub fn from_relationship_type(s: &str) -> (r: Option<Movement>)
        ensures
            r == movement_of_name(s@),
    {
        if str_eq(s, "DEEPER") {
            Some(Movement::Deeper)
        } else if str_eq(s, "BROADER") {
            Some(Movement::Broader)
        } else if str_eq(s, "FOUNDATION") {
            Some(Movement::Foundation)
        } else if str_eq(s, "PRACTICE") {
            Some(Movement::Practice)
        } else if str_eq(s, "INSPIRE") {
            Some(Movement::Inspire)
        } else if str_eq(s, "DEEPENS") {
            Some(Movement::Deeper)
        } else if str_eq(s, "SUPPORTS") {
            Some(Movement::Foundation)
        } else if str_eq(s, "RELATES_TO") {
            Some(Movement::Broader)
        } else if str_eq(s, "APPLIES") {
            Some(Movement::Practice)
        } else if str_eq(s, "CONTEXTUALIZES") {
            Some(Movement::Broader)
        } else {
            None
        }
    }

    /// The five movements, in the order the visible subgraph queries them.
    pub fn all() -> (r: &'static [Movement])
        ensures
            r@ == seq![
                Movement::Deeper,
                Movement::Broader,
                Movement::Foundation,
                Movement::Practice,
                Movement::Inspire,
            ],
    {
        &[
            Movement::Deeper,
            Movement::Broader,
            Movement::Foundation,
            Movement::Practice,
            Movement::Inspire,
        ]
    }

    /// All relationship type strings to query, including legacy names
    /// for backward compatibility with existing graph data.
    pub fn all_relationship_types() -> (r: &'static [(&'static str, Movement)])
        ensures
            r@.len() == 10,
            r@[0].0@ == "DEEPER"@ && r@[0].1 == Movement::Deeper,
            r@[1].0@ == "BROADER"@ && r@[1].1 == Movement::Broader,
            r@[2].0@ == "FOUNDATION"@ && r@[2].1 == Movement::Foundation,
            r@[3].0@ == "PRACTICE"@ && r@[3].1 == Movement::Practice,
            r@[4].0@ == "INSPIRE"@ && r@[4].1 == Movement::Inspire,
            r@[5].0@ == "DEEPENS"@ && r@[5].1 == Movement::Deeper,
            r@[6].0@ == "SUPPORTS"@ && r@[6].1 == Movement::Foundation,
            r@[7].0@ == "RELATES_TO"@ && r@[7].1 == Movement::Broader,
            r@[8].0@ == "APPLIES"@ && r@[8].1 == Movement::Practice,
            r@[9].0@ == "CONTEXTUALIZES"@ && r@[9].1 == Movement::Broader,
    {
        &[
            ("DEEPER", Movement::Deeper),
            ("BROADER", Movement::Broader),
            ("FOUNDATION", Movement::Foundation),
            ("PRACTICE", Movement::Practice),
            ("INSPIRE", Movement::Inspire),
            ("DEEPENS", Movement::Deeper),
            ("SUPPORTS", Movement::Foundation),
            ("RELATES_TO", Movement::Broader),
            ("APPLIES", Movement::Practice),
            ("CONTEXTUALIZES", Movement::Broader),
        ]
    }

    /// All relationship type names that map to this movement
    /// (new + legacy). Used for queries that need to match existing edges.
    pub fn cypher_types(&self) -> (r: &'static [&'static str])
        ensures
            r@.map_values(|t: &str| t@) == cypher_names(*self),
    {
        let r: &'static [&'static str] = match self {
            Movement::Deeper => &["DEEPER", "DEEPENS"],
            Movement::Broader => &["BROADER", "RELATES_TO", "CONTEXTUALIZES"],
            Movement::Foundation => &["FOUNDATION", "SUPPORTS"],
            Movement::Practice => &["PRACTICE", "APPLIES"],
            Movement::Inspire => &["INSPIRE"],
        };
        assert(r@.map_values(|t: &str| t@) =~= cypher_names(*self));
        r
    }
}

/// The relationship type names, canonical first, that stand for `m`.
pub open spec fn cypher_names(m: Movement) -> Seq<Seq<char>> {
    match m {
        Movement::Deeper => seq!["DEEPER"@, "DEEPENS"@],
        Movement::Broader => seq!["BROADER"@, "RELATES_TO"@, "CONTEXTUALIZES"@],
        Movement::Foundation => seq!["FOUNDATION"@, "SUPPORTS"@],
        Movement::Practice => seq!["PRACTICE"@, "APPLIES"@],
        Movement::Inspire => seq!["INSPIRE"@],
    }
}

/// The names of all relationship types that the graph may hold, in table order.
pub open spec fn known_names() -> Seq<Seq<char>> {
    seq![
        "DEEPER"@, "BROADER"@, "FOUNDATION"@, "PRACTICE"@, "INSPIRE"@,
        "DEEPENS"@, "SUPPORTS"@, "RELATES_TO"@, "APPLIES"@, "CONTEXTUALIZES"@,
    ]
}

/// Writing a movement as its relationship type and parsing it back gives the movement.
pub proof fn lemma_relationship_round_trip(m: Movement)
    ensures
        movement_of_name(relationship_name(m)) == Some(m),
{
    lemma_known_names_entries();
    let k = known_names();
    assert(k[0] != k[1] && k[0] != k[2] && k[0] != k[3] && k[0] != k[4]);
    assert(k[1] != k[2] && k[1] != k[3] && k[1] != k[4]);
    assert(k[2] != k[3] && k[2] != k[4] && k[3] != k[4]);
    reveal_strlit("DEEPER");
    reveal_strlit("BROADER");
    reveal_strlit("FOUNDATION");
    reveal_strlit("PRACTICE");
    reveal_strlit("INSPIRE");
    reveal_strlit("DEEPENS");
    reveal_strlit("SUPPORTS");
    reveal_strlit("RELATES_TO");
    reveal_strlit("APPLIES");
    reveal_strlit("CONTEXTUALIZES");
}

/// The known relationship type names are pairwise distinct.
proof fn lemma_names_distinct()
    ensures
        forall|i: int, j: int|
            0 <= i < known_names().len() && 0 <= j < known_names().len() && i != j
                ==> known_names()[i] != known_names()[j],
{
    reveal_strlit("DEEPER");
    reveal_strlit("BROADER");
    reveal_strlit("FOUNDATION");
    reveal_strlit("PRACTICE");
    reveal_strlit("INSPIRE");
    reveal_strlit("DEEPENS");
    reveal_strlit("SUPPORTS");
    reveal_strlit("RELATES_TO");
    reveal_strlit("APPLIES");
    reveal_strlit("CONTEXTUALIZES");
    let k = known_names();
    assert(k[0].len() == 6 && k[1].len() == 7 && k[2].len() == 10 && k[3].len() == 8);
    assert(k[4].len() == 7 && k[5].len() == 7 && k[6].len() == 8 && k[7].len() == 10);
    assert(k[8].len() == 7 && k[9].len() == 14);
    assert(k[1][0] != k[4][0] && k[1][0] != k[5][0] && k[1][0] != k[8][0]);
    assert(k[4][0] != k[5][0] && k[4][0] != k[8][0] && k[5][0] != k[8][0]);
    assert(k[3][0] != k[6][0]);
    assert(k[2][0] != k[7][0]);
}


/// Each entry of the known-name table, spelled out.
proof fn lemma_known_names_entries()
    ensures
        known_names().len() == 10,
        known_names()[0] == "DEEPER"@,
        known_names()[1] == "BROADER"@,
        known_names()[2] == "FOUNDATION"@,
        known_names()[3] == "PRACTICE"@,
        known_names()[4] == "INSPIRE"@,
        known_names()[5] == "DEEPENS"@,
        known_names()[6] == "SUPPORTS"@,
        known_names()[7] == "RELATES_TO"@,
        known_names()[8] == "APPLIES"@,
        known_names()[9] == "CONTEXTUALIZES"@,
        forall|i: int, j: int|
            0 <= i < known_names().len() && 0 <= j < known_names().len() && i != j
                ==> known_names()[i] != known_names()[j],
{
    lemma_names_distinct();
}

/// The canonical name of a movement is the first of its relationship type names.
pub proof fn lemma_canonical_name_first(m: Movement)
    ensures
        cypher_names(m).len() > 0,
        cypher_names(m)[0] == relationship_name(m),
{
}

/// A name parses to `m` exactly when it is one of the relationship type names of `m`.
pub proof fn lemma_cypher_names_exact(m: Movement, s: Seq<char>)
    ensures
        movement_of_name(s) == Some(m) <==> cypher_names(m).contains(s),
{
    reveal_strlit("DEEPER");
    reveal_strlit("BROADER");
    reveal_strlit("FOUNDATION");
    reveal_strlit("PRACTICE");
    reveal_strlit("INSPIRE");
    reveal_strlit("DEEPENS");
    reveal_strlit("SUPPORTS");
    reveal_strlit("RELATES_TO");
    reveal_strlit("APPLIES");
    reveal_strlit("CONTEXTUALIZES");
    lemma_known_names_entries();
    let kn = known_names();
    if cypher_names(m).contains(s) {
        let k = choose|k: int| 0 <= k < cypher_names(m).len() && cypher_names(m)[k] == s;
        let i: int = match m {
            Movement::Deeper => if k == 0 { 0 } else { 5 },
            Movement::Broader => if k == 0 { 1 } else if k == 1 { 7 } else { 9 },
            Movement::Foundation => if k == 0 { 2 } else { 6 },
            Movement::Practice => if k == 0 { 3 } else { 8 },
            Movement::Inspire => 4,
        };
        assert(s == kn[i]);
        assert(forall|j: int| 0 <= j < i ==> kn[j] != kn[i]);
        assert(movement_of_name(s) == Some(m));
    }
    if movement_of_name(s) == Some(m) {
        match m {
            Movement::Deeper => assert(s == cypher_names(m)[0] || s == cypher_names(m)[1]),
            Movement::Broader => assert(s == cypher_names(m)[0] || s == cypher_names(m)[1] || s == cypher_names(m)[2]),
            Movement::Foundation => assert(s == cypher_names(m)[0] || s == cypher_names(m)[1]),
            Movement::Practice => assert(s == cypher_names(m)[0] || s == cypher_names(m)[1]),
            Movement::Inspire => assert(s == cypher_names(m)[0]),
        }
    }
}

/// A name parses to some movement exactly when it is one of the known relationship types.
pub proof fn lemma_known_names_exact(s: Seq<char>)
    ensures
        movement_of_name(s) is Some <==> known_names().contains(s),
{
    reveal_strlit("DEEPER");
    reveal_strlit("BROADER");
    reveal_strlit("FOUNDATION");
    reveal_strlit("PRACTICE");
    reveal_strlit("INSPIRE");
    reveal_strlit("DEEPENS");
    reveal_strlit("SUPPORTS");
    reveal_strlit("RELATES_TO");
    reveal_strlit("APPLIES");
    reveal_strlit("CONTEXTUALIZES");
    lemma_known_names_entries();
    let kn = known_names();
    if kn.contains(s) {
        let k = choose|k: int| 0 <= k < kn.len() && kn[k] == s;
        assert(s == kn[k]);
        assert(movement_of_name(s) is Some);
    }
    if movement_of_name(s) is Some {
        assert(known_names()[0] == "DEEPER"@);
        assert(s == known_names()[0] || s == known_names()[1] || s == known_names()[2]
            || s == known_names()[3] || s == known_names()[4] || s == known_names()[5]
            || s == known_names()[6] || s == known_names()[7] || s == known_names()[8]
            || s == known_names()[9]);
    }
}

// ─── Node and edge state (for canvas rendering) ────────────────────

/// How a node is shown to the learner.
#[derive(Debug, Clone, Copy, PartialEq, Eq, Structural)]
pub enum NodeState {
    Current,
    Visited,
    Proposal,
    TopicRoot,
}

/// How an edge is shown to the learner.
#[derive(Debug, Clone, Copy, PartialEq, Eq, Structural)]
pub enum EdgeState {
    Traversed,
    Proposal,
}

// ─── Core domain models (graph data) ───────────────────────────────
//
// Identifiers are the 128-bit values of the UUIDs the stores hold.

/// The root of one topic's graph.
#[derive(Debug)]
pub struct TopicRoot {
    pub id: u128,
    pub name: String,
    pub description: String,
}

pub struct TopicRootView {
    pub id: u128,
    pub name: Seq<char>,
    pub description: Seq<char>,
}

impl View for TopicRoot {
    type V = TopicRootView;

    open spec fn view(&self) -> TopicRootView {
        TopicRootView { id: self.id, name: self.name@, description: self.description@ }
    }
}

/// A learning resource attached to a node.
#[derive(Debug)]
pub struct Resource {
    pub resource_type: String,
    pub youtube_id: Option<String>,
    pub url: Option<String>,
    pub title: String,
    pub channel: Option<String>,
    pub reason: String,
    pub votes: i32,
}

pub struct ResourceView {
    pub resource_type: Seq<char>,
    pub youtube_id: Option<Seq<char>>,
    pub url: Option<Seq<char>>,
    pub title: Seq<char>,
    pub channel: Option<Seq<char>>,
    pub reason: Seq<char>,
    pub votes: i32,
}

impl View for Resource {
    type V = ResourceView;

    open spec fn view(&self) -> ResourceView {
        ResourceView {
            resource_type: self.resource_type@,
            youtube_id: self.youtube_id.deep_view(),
            url: self.url.deep_view(),
            title: self.title@,
            channel: self.channel.deep_view(),
            reason: self.reason@,
            votes: self.votes,
        }
    }
}

impl DeepView for Resource {
    type V = ResourceView;

    open spec fn deep_view(&self) -> ResourceView {
        self@
    }
}

/// A copy of an optional text.
pub fn copy_text(o: &Option<String>) -> (r: Option<String>)
    ensures
        r.deep_view() == o.deep_view(),
{
    match o {
        Some(s) => Some(s.clone()),
        None => None,
    }
}

impl Resource {
    /// A copy of the resource.
    pub fn duplicate(&self) -> (r: Resource)
        ensures
            r@ == self@,
    {
        Resource {
            resource_type: self.resource_type.clone(),
            youtube_id: copy_text(&self.youtube_id),
            url: copy_text(&self.url),
            title: self.title.clone(),
            channel: copy_text(&self.channel),
            reason: self.reason.clone(),
            votes: self.votes,
        }
    }
}

/// A concept node of a topic graph.
#[derive(Debug)]
pub struct Node {
    pub id: u128,
    pub title: String,
    pub description: String,
    pub topic_root_id: u128,
    pub resources: Vec<Resource>,
    pub visit_count: i64,
    pub depth: i32,
}

pub struct NodeView {
    pub id: u128,
    pub title: Seq<char>,
    pub description: Seq<char>,
    pub topic_root_id: u128,
    pub resources: Seq<ResourceView>,
    pub visit_count: i64,
    pub depth: i32,
}

impl View for Node {
    type V = NodeView;

    open spec fn view(&self) -> NodeView {
        NodeView {
            id: self.id,
            title: self.title@,
            description: self.description@,
            topic_root_id: self.topic_root_id,
            resources: self.resources.deep_view(),
            visit_count: self.visit_count,
            depth: self.depth,
        }
    }
}

impl DeepView for Node {
    type V = NodeView;

    open spec fn deep_view(&self) -> NodeView {
        self@
    }
}

impl DeepView for TopicRoot {
    type V = TopicRootView;

    open spec fn deep_view(&self) -> TopicRootView {
        self@
    }
}

/// A directed edge between two nodes, with its traversal counters.
#[derive(Debug, Clone, Copy)]
pub struct Edge {
    pub source_id: u128,
    pub target_id: u128,
    pub movement: Movement,
    pub weight: Weight,
}

// ─── Note (from the relational store) ──────────────────────────────

/// A learner's note on a node; `created_at` is in microseconds since the Unix epoch.
#[derive(Debug)]
pub struct Note {
    pub id: u128,
    pub body: String,
    pub created_at: i64,
}

pub struct NoteView {
    pub id: u128,
    pub body: Seq<char>,
    pub created_at: i64,
}

impl View for Note {
    type V = NoteView;

    open spec fn view(&self) -> NoteView {
        NoteView { id: self.id, body: self.body@, created_at: self.created_at }
    }
}

impl DeepView for Note {
    type V = NoteView;

    open spec fn deep_view(&self) -> NoteView {
        self@
    }
}

impl Note {
    /// A copy of the note.
    pub fn duplicate(&self) -> (r: Note)
        ensures
            r@ == self@,
    {
        Note { id: self.id, body: self.body.clone(), created_at: self.created_at }
    }
}

// ─── Assembled graph (returned to the client) ──────────────────────

/// A node as rendered on the learner's canvas.
#[derive(Debug)]
pub struct GraphNode {
    pub id: u128,
    pub title: String,
    pub description: String,
    pub resources: Vec<Resource>,
    pub notes: Vec<Note>,
    pub state: NodeState,
    pub movement: Option<Movement>,
    pub is_wildcard: bool,
    pub visit_count: i64,
    pub depth: i32,
}

pub struct GraphNodeView {
    pub id: u128,
    pub title: Seq<char>,
    pub description: Seq<char>,
    pub resources: Seq<ResourceView>,
    pub notes: Seq<NoteView>,
    pub state: NodeState,
    pub movement: Option<Movement>,
    pub is_wildcard: bool,
    pub visit_count: i64,
    pub depth: i32,
}

impl View for GraphNode {
    type V = GraphNodeView;

    open spec fn view(&self) -> GraphNodeView {
        GraphNodeView {
            id: self.id,
            title: self.title@,
            description: self.description@,
            resources: self.resources.deep_view(),
            notes: self.notes.deep_view(),
            state: self.state,
            movement: self.movement,
            is_wildcard: self.is_wildcard,
            visit_count: self.visit_count,
            depth: self.depth,
        }
    }
}

impl DeepView for GraphNode {
    type V = GraphNodeView;

    open spec fn deep_view(&self) -> GraphNodeView {
        self@
    }
}

/// An edge as rendered on the learner's canvas.
#[derive(Debug)]
pub struct GraphEdge {
    pub id: String,
    pub source_id: u128,
    pub target_id: u128,
    pub movement: Movement,
    pub state: EdgeState,
    pub weight: Weight,
}

pub struct GraphEdgeView {
    pub id: Seq<char>,
    pub source_id: u128,
    pub target_id: u128,
    pub movement: Movement,
    pub state: EdgeState,
    pub weight: Weight,
}

impl View for GraphEdge {
    type V = GraphEdgeView;

    open spec fn view(&self) -> GraphEdgeView {
        GraphEdgeView {
            id: self.id@,
            source_id: self.source_id,
            target_id: self.target_id,
            movement: self.movement,
            state: self.state,
            weight: self.weight,
        }
    }
}

impl DeepView for GraphEdge {
    type V = GraphEdgeView;

    open spec fn deep_view(&self) -> GraphEdgeView {
        self@
    }
}

/// The whole visible graph of one learner on one topic.
#[derive(Debug)]
pub struct TopicGraph {
    pub topic_root: TopicRoot,
    pub current_node_id: u128,
    pub nodes: Vec<GraphNode>,
    pub edges: Vec<GraphEdge>,
}

} // verus!
