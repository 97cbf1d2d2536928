//! The durable steps that build a curriculum: what is stored for an outline, and what the
//! node handlers answer.
use vstd::prelude::*;

use crate::ids::{uuid_string, uuid_text};
use crate::text::push_str;
use crate::types::{CurriculumOutline, ExpandAction, NodeStatus, NodeType};

verus! {

broadcast use vstd::string::group_string_axioms;

/// Asks for a curriculum on a topic.
#[derive(Debug, Clone)]
pub struct CreateCurriculumRequest {
    pub topic: String,
}

/// The curriculum that was built.
#[derive(Debug, Clone)]
pub struct CreateCurriculumResponse {
    pub curriculum_id: u128,
    pub title: String,
}

/// Asks to grow a curriculum from a node.
#[derive(Debug, Clone)]
pub struct ExpandNodeRequest {
    pub action: ExpandAction,
}

/// The nodes that growing created.
#[derive(Debug, Clone)]
pub struct ExpandNodeResponse {
    pub created_nodes: Vec<u128>,
}

/// A node to store for one chapter of an outline.
#[derive(Debug, Clone)]
pub struct ChapterInsert {
    pub title: String,
    pub summary: String,
    pub content: String,
    pub node_type: NodeType,
    pub depth: i32,
    pub position: i32,
    pub parent_node_id: Option<u128>,
}

/// The chapter nodes of an outline, in order: top-level chapters at their place in it.
pub fn chapter_rows(outline: &CurriculumOutline) -> (r: Vec<ChapterInsert>)
    ensures
        r@.len() == outline.chapters@.len(),
        forall|i: int|
            0 <= i < r@.len() ==> {
                let c = #[trigger] r@[i];
                let o = outline.chapters@[i];
                &&& c.title == o.title
                &&& c.summary == o.summary
                &&& c.content == o.content
                &&& c.node_type == NodeType::Chapter
                &&& c.depth == 0
                &&& c.position == i as i32
                &&& c.parent_node_id is None
            },
{
    let mut rows: Vec<ChapterInsert> = Vec::new();
    let mut i: usize = 0;
    while i < outline.chapters.len()
        invariant
            i <= outline.chapters@.len(),
            rows@.len() == i,
            forall|j: int|
                0 <= j < i ==> {
                    let c = #[trigger] rows@[j];
                    let o = outline.chapters@[j];
                    &&& c.title == o.title
                    &&& c.summary == o.summary
                    &&& c.content == o.content
                    &&& c.node_type == NodeType::Chapter
                    &&& c.depth == 0
                    &&& c.position == j as i32
                    &&& c.parent_node_id is None
                },
        decreases outline.chapters.len() - i,
    {
        let ch = &outline.chapters[i];
        rows.push(
            ChapterInsert {
                title: ch.title.clone(),
                summary: ch.summary.clone(),
                content: ch.content.clone(),
                node_type: NodeType::Chapter,
                depth: 0,
                position: i as i32,
                parent_node_id: None,
            },
        );
        i = i + 1;
    }
    rows
}

/// The `Next` edges that chain stored chapters: each chapter to the one after it.
pub fn next_edges(node_ids: &Vec<u128>) -> (r: Vec<(u128, u128)>)
    ensures
        r@.len() == (if node_ids@.len() == 0 { 0 } else { node_ids@.len() - 1 }),
        forall|i: int| 0 <= i < r@.len() ==> #[trigger] r@[i] == (node_ids@[i], node_ids@[i + 1]),
{
    let mut edges: Vec<(u128, u128)> = Vec::new();
    let mut i: usize = 1;
    while i < node_ids.len()
        invariant
            1 <= i,
            if node_ids@.len() == 0 { i == 1 } else { i <= node_ids@.len() },
            edges@.len() == i - 1,
            forall|j: int| 0 <= j < edges@.len() ==> #[trigger] edges@[j] == (node_ids@[j], node_ids@[j + 1]),
        decreases node_ids.len() - i,
    {
        edges.push((node_ids[i - 1], node_ids[i]));
        i = i + 1;
    }
    edges
}

/// The name of a node status as the status handler reports it.
pub open spec fn status_name(s: NodeStatus) -> Seq<char> {
    match s {
        NodeStatus::Ready => "Ready"@,
        NodeStatus::Generating => "Generating"@,
        NodeStatus::Error => "Error"@,
    }
}

/// What the node status handler answers: the status of the node, or `not_found`.
pub fn node_status_text(status: Option<NodeStatus>) -> (r: String)
    ensures
        r@ == (match status {
            Some(s) => status_name(s),
            None => "not_found"@,
        }),
{
    match status {
        Some(NodeStatus::Ready) => String::from_str("Ready"),
        Some(NodeStatus::Generating) => String::from_str("Generating"),
        Some(NodeStatus::Error) => String::from_str("Error"),
        None => String::from_str("not_found"),
    }
}

/// The message when a node to grow does not exist.
pub fn node_not_found_message(node_id: u128) -> (r: String)
    ensures
        r@ == "Node not found: "@ + uuid_text(node_id),
{
    let mut m = String::from_str("Node not found: ");
    let id = uuid_string(node_id);
    push_str(&mut m, id.as_str());
    m
}

/// What growing a node creates for now: nothing.
pub fn expand_response(request: &ExpandNodeRequest) -> (r: ExpandNodeResponse)
    ensures
        r.created_nodes@.len() == 0,
{
    ExpandNodeResponse { created_nodes: Vec::new() }
}

/// What the workflow status handler answers while a curriculum is built.
pub fn workflow_status() -> (r: String)
    ensures
        r@ == "running"@,
{
    String::from_str("running")
}

} // verus!
