//! The agent's tool that lists the nodes a topic graph already has.
use vstd::prelude::*;

use std::sync::Arc;

use crate::text::{decimal, lookup_value, pair_views, push_decimal, push_str, value_of};

verus! {

broadcast use vstd::string::group_string_axioms;

/// `neo4rs::Graph`, a pool of connections to the graph store; the library only carries it.
#[verifier::external_type_specification]
#[verifier::external_body]
pub struct ExGraph(neo4rs::Graph);

/// The tool's name.
pub const NAME: &'static str = "existing_nodes";

/// What the tool tells the agent it does.
pub const DESCRIPTION: &'static str = "Get all existing nodes in a topic graph. Use this to avoid creating duplicate concepts.";

/// The tool, with the graph it reads.
pub struct ExistingNodesTool {
    pub graph: Arc<neo4rs::Graph>,
}

impl ExistingNodesTool {
    /// The tool reading `graph`.
    pub fn new(graph: Arc<neo4rs::Graph>) -> (r: ExistingNodesTool)
        ensures
            r.graph == graph,
    {
        ExistingNodesTool { graph }
    }
}

/// Which topic to list.
#[derive(Debug, Clone)]
pub struct ExistingNodesArgs {
    pub topic_root_id: String,
}

/// The nodes of a topic, with a one-line summary.
#[derive(Debug, Clone)]
pub struct ExistingNodesResult {
    pub summary: String,
    pub nodes: Vec<ExistingNode>,
}

/// A node of the topic and the edges leaving it.
#[derive(Debug, Clone)]
pub struct ExistingNode {
    pub id: String,
    pub title: String,
    pub description: String,
    pub depth: i64,
    pub outgoing: Vec<ExistingEdge>,
}

/// An edge leaving a node: the title of the node it leads to, and its movement.
#[derive(Debug, Clone)]
pub struct ExistingEdge {
    pub target_title: String,
    pub movement: String,
}

/// A failure of the graph store, with its message.
#[derive(Debug, Clone)]
pub enum ExistingNodesError {
    Graph(String),
}

/// A value, or the empty text when it is missing.
pub open spec fn text_or_empty(o: Option<Seq<char>>) -> Seq<char> {
    match o {
        Some(t) => t,
        None => Seq::empty(),
    }
}

/// The edge that one collected map of the query stands for: none for an empty map (a node
/// without outgoing edges), else its `target_title` and `movement` entries, empty when absent.
pub fn edge_of_entries(entries: &Vec<(String, String)>) -> (r: Option<ExistingEdge>)
    ensures
        if entries@.len() == 0 {
            r is None
        } else {
            r matches Some(e) && e.target_title@ == text_or_empty(
                value_of(pair_views(entries@), "target_title"@),
            ) && e.movement@ == text_or_empty(value_of(pair_views(entries@), "movement"@))
        },
{
    if entries.len() == 0 {
        return None;
    }
    let target_title = match lookup_value(entries, "target_title") {
        Some(t) => t,
        None => String::new(),
    };
    let movement = match lookup_value(entries, "movement") {
        Some(m) => m,
        None => String::new(),
    };
    Some(ExistingEdge { target_title, movement })
}

/// The edge a non-empty collected map stands for, as (target title, movement).
pub open spec fn edge_view(m: Seq<(Seq<char>, Seq<char>)>) -> (Seq<char>, Seq<char>) {
    (text_or_empty(value_of(m, "target_title"@)), text_or_empty(value_of(m, "movement"@)))
}

/// The edges the collected maps stand for, in order, skipping the empty maps.
pub open spec fn edges_from(maps: Seq<Seq<(Seq<char>, Seq<char>)>>) -> Seq<(Seq<char>, Seq<char>)>
    decreases maps.len(),
{
    if maps.len() == 0 {
        Seq::empty()
    } else if maps.last().len() == 0 {
        edges_from(maps.drop_last())
    } else {
        edges_from(maps.drop_last()).push(edge_view(maps.last()))
    }
}

/// The views of the collected maps.
pub open spec fn map_views(maps: Seq<Vec<(String, String)>>) -> Seq<Seq<(Seq<char>, Seq<char>)>> {
    maps.map_values(|m: Vec<(String, String)>| pair_views(m@))
}

/// The views of edges, as (target title, movement).
pub open spec fn edge_views(edges: Seq<ExistingEdge>) -> Seq<(Seq<char>, Seq<char>)> {
    edges.map_values(|e: ExistingEdge| (e.target_title@, e.movement@))
}

/// The outgoing edges of a node from its collected maps, skipping the empty ones.
pub fn edges_of_maps(maps: &Vec<Vec<(String, String)>>) -> (r: Vec<ExistingEdge>)
    ensures
        edge_views(r@) == edges_from(map_views(maps@)),
{
    let ghost mv = map_views(maps@);
    let mut edges: Vec<ExistingEdge> = Vec::new();
    let mut i: usize = 0;
    assert(mv.take(0) =~= Seq::<Seq<(Seq<char>, Seq<char>)>>::empty());
    while i < maps.len()
        invariant
            i <= maps@.len(),
            mv == map_views(maps@),
            edge_views(edges@) =~= edges_from(mv.take(i as int)),
        decreases maps.len() - i,
    {
        assert(mv.take(i + 1).drop_last() =~= mv.take(i as int));
        assert(mv.take(i + 1).last() == pair_views(maps@[i as int]@));
        let ghost before = edge_views(edges@);
        match edge_of_entries(&maps[i]) {
            Some(e) => {
                let ghost ev = (e.target_title@, e.movement@);
                edges.push(e);
                assert(edge_views(edges@) =~= before.push(ev));
            },
            None => {},
        }
        i = i + 1;
    }
    assert(mv.take(i as int) =~= mv);
    edges
}

/// A listed node from the fields of its row: missing texts are empty, a missing depth is 0,
/// and its edges come from the collected maps.
pub fn node_of_row(
    id: Option<String>,
    title: Option<String>,
    description: Option<String>,
    depth: Option<i64>,
    edge_maps: &Vec<Vec<(String, String)>>,
) -> (r: ExistingNode)
    ensures
        r.id@ == text_or_empty(id.deep_view()),
        r.title@ == text_or_empty(title.deep_view()),
        r.description@ == text_or_empty(description.deep_view()),
        r.depth == (match depth {
            Some(d) => d,
            None => 0,
        }),
        edge_views(r.outgoing@) == edges_from(map_views(edge_maps@)),
{
    ExistingNode {
        id: text_or_new(id),
        title: text_or_new(title),
        description: text_or_new(description),
        depth: match depth {
            Some(d) => d,
            None => 0,
        },
        outgoing: edges_of_maps(edge_maps),
    }
}

fn text_or_new(o: Option<String>) -> (r: String)
    ensures
        r@ == text_or_empty(o.deep_view()),
{
    match o {
        Some(s) => s,
        None => String::new(),
    }
}

/// The total number of outgoing edges of `nodes`.
pub open spec fn edge_total(nodes: Seq<ExistingNode>) -> nat
    decreases nodes.len(),
{
    if nodes.len() == 0 {
        0
    } else {
        edge_total(nodes.drop_last()) + nodes.last().outgoing@.len()
    }
}

/// The summary line of a listing.
pub open spec fn summary_text(nodes: Seq<ExistingNode>) -> Seq<char> {
    "Graph has "@ + decimal(nodes.len()) + " nodes across "@ + decimal(edge_total(nodes))
        + " edges."@
}

/// The listing of `nodes`, with the summary counting nodes and edges.
pub fn existing_nodes_result(nodes: Vec<ExistingNode>) -> (r: ExistingNodesResult)
    requires
        edge_total(nodes@) <= u64::MAX,
    ensures
        r.summary@ == summary_text(nodes@),
        r.nodes@ == nodes@,
{
    let mut total: u64 = 0;
    let mut i: usize = 0;
    assert(nodes@.take(0) =~= Seq::<ExistingNode>::empty());
    while i < nodes.len()
        invariant
            i <= nodes@.len(),
            total == edge_total(nodes@.take(i as int)),
            edge_total(nodes@) <= u64::MAX,
        decreases nodes.len() - i,
    {
        assert(nodes@.take(i + 1).drop_last() =~= nodes@.take(i as int));
        proof {
            lemma_edge_total_prefix(nodes@, i + 1);
        }
        total = total + nodes[i].outgoing.len() as u64;
        i = i + 1;
    }
    assert(nodes@.take(i as int) =~= nodes@);
    let mut summary = String::from_str("Graph has ");
    push_decimal(&mut summary, nodes.len() as u64);
    push_str(&mut summary, " nodes across ");
    push_decimal(&mut summary, total);
    push_str(&mut summary, " edges.");
    ExistingNodesResult { summary, nodes }
}

/// The edges of a prefix of the nodes are no more than those of all of them.
proof fn lemma_edge_total_prefix(nodes: Seq<ExistingNode>, k: int)
    requires
        0 <= k <= nodes.len(),
    ensures
        edge_total(nodes.take(k)) <= edge_total(nodes),
    decreases nodes.len() - k,
{
    if k < nodes.len() {
        lemma_edge_total_prefix(nodes, k + 1);
        assert(nodes.take(k + 1).drop_last() =~= nodes.take(k));
    } else {
        assert(nodes.take(k) =~= nodes);
    }
}

} // verus!
